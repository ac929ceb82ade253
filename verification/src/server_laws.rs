//! What holds of a server whatever its players send.
use vstd::prelude::*;

use crate::chance::is_drawn_id;
use crate::justone;
use crate::justone::GameView;
use crate::messages::ServerMessageView;
use crate::server::draws_id;
use crate::server::forwarded;
use crate::server::handled;
use crate::server::relayed;
use crate::server::seat_of;
use crate::server::table_after;
use crate::server::ClientMessageView;
use crate::server::Connection;
use crate::server::EffectView;
use crate::server::TableView;
use crate::server::Tables;
use crate::server::UserView;
use crate::wire::json_text;
use crate::wire::reconnecting_members;
use crate::wire::rejected_members;

verus! {

/// Something that happens at a server.
pub enum Incident {
    /// A browser sends a message.
    Received {
        connection: Connection,
        m: ClientMessageView,
        client_sender: u64,
        drawn_id: Seq<char>,
    },
    /// A game sends a message.
    Forwarded { game_id: Seq<char>, message: ServerMessageView },
    /// A game has ended.
    Removed { game_id: Seq<char> },
}

/// The incident can happen at a server with these games.
pub open spec fn possible(games: Tables, incident: Incident) -> bool {
    match incident {
        Incident::Received { connection, m, drawn_id, .. } => connection.wf() && (draws_id(m)
            ==> is_drawn_id(drawn_id) && !games.contains_key(drawn_id)),
        Incident::Forwarded { game_id, .. } => games.contains_key(game_id),
        Incident::Removed { .. } => true,
    }
}

/// The games after an incident.
pub open spec fn games_after(games: Tables, incident: Incident) -> Tables {
    match incident {
        Incident::Received { connection, m, client_sender, drawn_id } => handled(
            games,
            connection,
            m,
            client_sender,
            drawn_id,
        ).games,
        Incident::Forwarded { game_id, message } => games.insert(
            game_id,
            table_after(games[game_id], message),
        ),
        Incident::Removed { game_id } => games.remove(game_id),
    }
}

/// No two users have the same name.
pub open spec fn distinct_names(users: Seq<UserView>) -> bool {
    forall|i: int, j: int|
        0 <= i < j < users.len() ==> (#[trigger] users[i]).name != (#[trigger] users[j]).name
}

/// Someone sits at the table, no two of them under the same name, and their places can be counted.
pub open spec fn tidy_table(game: TableView) -> bool {
    &&& 0 < game.users.len() <= usize::MAX
    &&& distinct_names(game.users)
}

/// Every game has an id, and every table is tidy.
pub open spec fn tidy(games: Tables) -> bool {
    forall|id: Seq<char>| #[trigger]
        games.contains_key(id) ==> id.len() > 0 && tidy_table(games[id])
}

/// The places at every table can be counted.
pub open spec fn countable(games: Tables) -> bool {
    forall|id: Seq<char>| #[trigger]
        games.contains_key(id) ==> games[id].users.len() <= usize::MAX
}

/// The first seat with a name is a seat with that name, and no seat before it has it.
pub proof fn lemma_seat_of(users: Seq<UserView>, name: Seq<char>)
    requires
        users.len() <= usize::MAX,
    ensures
        match seat_of(users, name) {
            Some(i) => {
                &&& i < users.len()
                &&& users[i as int].name == name
                &&& forall|j: int| 0 <= j < i ==> (#[trigger] users[j]).name != name
            },
            None => forall|j: int| 0 <= j < users.len() ==> (#[trigger] users[j]).name != name,
        },
    decreases users.len(),
{
    if users.len() > 0 {
        let rest = users.drop_last();
        lemma_seat_of(rest, name);
        assert(forall|j: int| 0 <= j < rest.len() ==> users[j] == #[trigger] rest[j]);
        match seat_of(rest, name) {
            Some(i) => {
                assert(rest[i as int] == users[i as int]);
                assert forall|j: int| 0 <= j < i implies (#[trigger] users[j]).name != name by {
                    assert(rest[j] == users[j]);
                }
            },
            None => {
                assert forall|j: int| 0 <= j < rest.len() implies (#[trigger] users[j]).name
                    != name by {
                    assert(rest[j] == users[j]);
                }
            },
        }
    }
}

/// Whatever happens, every game keeps an id and players, no two of whom have the same name.
pub proof fn law_tables_stay_tidy(games: Tables, incident: Incident)
    requires
        tidy(games),
        possible(games, incident),
        countable(games_after(games, incident)),
    ensures
        tidy(games_after(games, incident)),
{
    let after = games_after(games, incident);
    assert forall|id: Seq<char>| #[trigger] after.contains_key(id) implies id.len() > 0
        && tidy_table(after[id]) by {
        if games.contains_key(id) {
            assert(tidy_table(games[id]));
        }
        match incident {
            Incident::Received { m: ClientMessageView::Register { game_id, name, .. }, .. } => {
                if games.contains_key(game_id) {
                    lemma_seat_of(games[game_id].users, name);
                }
            },
            _ => {},
        }
    }
}

/// The names and passwords of the players in `before` stand at the same places in `after`.
pub open spec fn places_kept(before: Seq<UserView>, after: Seq<UserView>) -> bool {
    &&& before.len() <= after.len()
    &&& forall|i: int|
        0 <= i < before.len() ==> (#[trigger] after[i]).name == before[i].name && after[i].password
            == before[i].password
}

/// The players of `before` keep their places in `after`, and a game that has started stays started
/// and gets no new players.
pub open spec fn table_kept(before: TableView, after: TableView) -> bool {
    &&& after.client_sender == before.client_sender
    &&& places_kept(before.users, after.users)
    &&& before.started ==> after.started && after.users.len() == before.users.len()
}

/// As long as a game is not removed it is there, its players keep their places, names and
/// passwords, and once it has started it stays so and gets no new players.
pub proof fn law_tables_are_kept(games: Tables, incident: Incident, id: Seq<char>)
    requires
        tidy(games),
        possible(games, incident),
        games.contains_key(id),
        incident != (Incident::Removed { game_id: id }),
    ensures
        games_after(games, incident).contains_key(id),
        table_kept(games[id], games_after(games, incident)[id]),
{
    match incident {
        Incident::Received { m: ClientMessageView::Register { game_id, name, .. }, .. } => {
            if games.contains_key(game_id) {
                assert(tidy_table(games[game_id]));
                lemma_seat_of(games[game_id].users, name);
            }
        },
        _ => {},
    }
}

/// The message that registers a player.
pub open spec fn registration(
    game_id: Seq<char>,
    name: Seq<char>,
    password: Seq<char>,
) -> ClientMessageView {
    ClientMessageView::Register { game_id, name, password }
}

/// A player who comes back under the same name and with the same password gets the same place. The
/// player is told so, the game is asked to repeat what the player has missed, and nothing at the
/// table changes but the channel to the player.
pub proof fn law_players_get_their_places_back(
    games: Tables,
    connection: Connection,
    id: Seq<char>,
    i: usize,
    client_sender: u64,
    drawn_id: Seq<char>,
)
    requires
        tidy(games),
        games.contains_key(id),
        i < games[id].users.len(),
    ensures
        ({
            let game = games[id];
            let user = game.users[i as int];
            let outcome = handled(
                games,
                connection,
                registration(id, user.name, user.password),
                client_sender,
                drawn_id,
            );
            &&& outcome.connection == Connection {
                tx: connection.tx,
                client_sender: Some(game.client_sender),
                client_id: Some(i),
            }
            &&& outcome.games == games.insert(
                id,
                TableView {
                    users: game.users.update(i as int, UserView { tx: connection.tx, ..user }),
                    ..game
                },
            )
            &&& outcome.effects == seq![
                EffectView::ToClient(connection.tx, json_text(reconnecting_members(i))),
                EffectView::ToGame(
                    game.client_sender,
                    justone::ClientMessageView::ResendGameState(i),
                ),
            ]
        }),
{
    assert(tidy_table(games[id]));
    lemma_seat_of(games[id].users, games[id].users[i as int].name);
}

/// The games after a number of incidents.
pub open spec fn games_after_all(games: Tables, incidents: Seq<Incident>) -> Tables
    decreases incidents.len(),
{
    if incidents.len() == 0 {
        games
    } else {
        games_after(games_after_all(games, incidents.drop_last()), incidents.last())
    }
}

/// The incidents can happen one after the other, and at no time are there more places at a table
/// than can be counted.
pub open spec fn all_possible(games: Tables, incidents: Seq<Incident>) -> bool
    decreases incidents.len(),
{
    if incidents.len() == 0 {
        true
    } else {
        let before = games_after_all(games, incidents.drop_last());
        &&& all_possible(games, incidents.drop_last())
        &&& possible(before, incidents.last())
        &&& countable(games_after(before, incidents.last()))
    }
}

/// However much happens in the meantime, short of the end of the game, its players keep their
/// places, and a started game stays closed to new players.
pub proof fn law_places_last(games: Tables, incidents: Seq<Incident>, id: Seq<char>)
    requires
        tidy(games),
        all_possible(games, incidents),
        games.contains_key(id),
        !incidents.contains(Incident::Removed { game_id: id }),
    ensures
        tidy(games_after_all(games, incidents)),
        games_after_all(games, incidents).contains_key(id),
        table_kept(games[id], games_after_all(games, incidents)[id]),
    decreases incidents.len(),
{
    if incidents.len() > 0 {
        let rest = incidents.drop_last();
        let before = games_after_all(games, rest);
        assert forall|k: int| 0 <= k < rest.len() implies rest[k] != (Incident::Removed {
            game_id: id,
        }) by {
            assert(incidents[k] == rest[k]);
        }
        law_places_last(games, rest, id);
        assert(incidents[incidents.len() - 1] == incidents.last());
        law_tables_stay_tidy(before, incidents.last());
        law_tables_are_kept(before, incidents.last(), id);
        let now = games_after(before, incidents.last());
        assert forall|i: int| 0 <= i < games[id].users.len() implies (
        #[trigger] now[id].users[i]).name == games[id].users[i].name && now[id].users[i].password
            == games[id].users[i].password by {
            assert(before[id].users[i].name == games[id].users[i].name);
        }
    } else {
        assert(places_kept(games[id].users, games[id].users));
    }
}

/// Someone with the name of a player but another password is turned away: nothing changes at the
/// tables, no place is given, and nothing but the reason is sent. The browser has turned to this
/// game all the same, and keeps the number of a place it had elsewhere.
pub proof fn law_wrong_passwords_are_rejected(
    games: Tables,
    connection: Connection,
    id: Seq<char>,
    i: usize,
    password: Seq<char>,
    client_sender: u64,
    drawn_id: Seq<char>,
)
    requires
        tidy(games),
        games.contains_key(id),
        i < games[id].users.len(),
        password != games[id].users[i as int].password,
    ensures
        ({
            let outcome = handled(
                games,
                connection,
                registration(id, games[id].users[i as int].name, password),
                client_sender,
                drawn_id,
            );
            &&& outcome.games == games
            &&& outcome.connection == Connection {
                client_sender: Some(games[id].client_sender),
                ..connection
            }
            &&& outcome.effects == seq![
                EffectView::ToClient(
                    connection.tx,
                    json_text(
                        rejected_members("the password does not match the existing player's"@),
                    ),
                ),
            ]
        }),
{
    assert(tidy_table(games[id]));
    lemma_seat_of(games[id].users, games[id].users[i as int].name);
}

/// Nobody has this name at the table.
pub open spec fn unknown(users: Seq<UserView>, name: Seq<char>) -> bool {
    forall|i: int| 0 <= i < users.len() ==> (#[trigger] users[i]).name != name
}

/// A newcomer to a game that has started is turned away: nothing changes at the tables, no place is
/// given, and nothing but the reason is sent. The browser has turned to this game all the same, and
/// keeps the number of a place it had elsewhere.
pub proof fn law_newcomers_can_be_late(
    games: Tables,
    connection: Connection,
    id: Seq<char>,
    name: Seq<char>,
    password: Seq<char>,
    client_sender: u64,
    drawn_id: Seq<char>,
)
    requires
        tidy(games),
        games.contains_key(id),
        games[id].started,
        unknown(games[id].users, name),
    ensures
        ({
            let outcome = handled(
                games,
                connection,
                registration(id, name, password),
                client_sender,
                drawn_id,
            );
            &&& outcome.games == games
            &&& outcome.connection == Connection {
                client_sender: Some(games[id].client_sender),
                ..connection
            }
            &&& outcome.effects == seq![
                EffectView::ToClient(
                    connection.tx,
                    json_text(rejected_members("the game has already started"@)),
                ),
            ]
        }),
{
    assert(tidy_table(games[id]));
    lemma_seat_of(games[id].users, name);
}

/// The names of the new players that the effects announce to the game with this channel, in order.
pub open spec fn announced(effects: Seq<EffectView>, client_sender: u64) -> Seq<Seq<char>>
    decreases effects.len(),
{
    if effects.len() == 0 {
        Seq::empty()
    } else {
        let before = announced(effects.drop_last(), client_sender);
        match effects.last() {
            EffectView::ToGame(to, justone::ClientMessageView::NewPlayer(name)) => if to
                == client_sender {
                before.push(name)
            } else {
                before
            },
            _ => before,
        }
    }
}

/// The names at the table with this id, in the order of their places.
pub open spec fn names_at(games: Tables, id: Seq<char>) -> Seq<Seq<char>> {
    if games.contains_key(id) {
        Seq::new(games[id].users.len(), |i: int| games[id].users[i].name)
    } else {
        Seq::empty()
    }
}

/// Registering at a game announces to it exactly the players who are given a place, by their names.
pub proof fn law_every_place_is_announced(
    games: Tables,
    connection: Connection,
    id: Seq<char>,
    name: Seq<char>,
    password: Seq<char>,
    client_sender: u64,
    drawn_id: Seq<char>,
)
    requires
        tidy(games),
        id.len() > 0,
    ensures
        ({
            let outcome = handled(
                games,
                connection,
                registration(id, name, password),
                client_sender,
                drawn_id,
            );
            &&& outcome.games.contains_key(id)
            &&& names_at(outcome.games, id) == names_at(games, id) + announced(
                outcome.effects,
                outcome.games[id].client_sender,
            )
        }),
{
    let outcome = handled(
        games,
        connection,
        registration(id, name, password),
        client_sender,
        drawn_id,
    );
    reveal_with_fuel(announced, 3);
    if games.contains_key(id) {
        assert(tidy_table(games[id]));
        lemma_seat_of(games[id].users, name);
    }
    assert(names_at(outcome.games, id) =~= names_at(games, id) + announced(
        outcome.effects,
        outcome.games[id].client_sender,
    ));
}

/// The effects of an incident.
pub open spec fn effects_of(games: Tables, incident: Incident) -> Seq<EffectView> {
    match incident {
        Incident::Received { connection, m, client_sender, drawn_id } => handled(
            games,
            connection,
            m,
            client_sender,
            drawn_id,
        ).effects,
        _ => Seq::empty(),
    }
}

/// The effects of a number of incidents, in order.
pub open spec fn all_effects(games: Tables, incidents: Seq<Incident>) -> Seq<EffectView>
    decreases incidents.len(),
{
    if incidents.len() == 0 {
        Seq::empty()
    } else {
        let before = games_after_all(games, incidents.drop_last());
        all_effects(games, incidents.drop_last()) + effects_of(before, incidents.last())
    }
}

/// The incident offers this channel to a new game.
pub open spec fn offers(incident: Incident, channel: u64) -> bool {
    incident matches Incident::Received { client_sender, .. } && client_sender == channel
}

/// No channel is offered twice.
pub open spec fn new_channels(incidents: Seq<Incident>) -> bool {
    forall|i: int, j: int, channel: u64|
        0 <= i < j < incidents.len() && #[trigger] offers(incidents[i], channel)
            ==> !#[trigger] offers(incidents[j], channel)
}

/// One of the incidents offers this channel.
pub open spec fn offered(incidents: Seq<Incident>, channel: u64) -> bool {
    exists|i: int| 0 <= i < incidents.len() && #[trigger] offers(incidents[i], channel)
}

/// Every game has a channel of its own that was offered, over which the names at its table have
/// been announced in order; over a channel that was not offered nothing has been.
pub open spec fn all_announced(incidents: Seq<Incident>) -> bool {
    let games = games_after_all(Map::empty(), incidents);
    let effects = all_effects(Map::empty(), incidents);
    &&& forall|id: Seq<char>| #[trigger]
        games.contains_key(id) ==> offered(incidents, games[id].client_sender) && announced(
            effects,
            games[id].client_sender,
        ) == names_at(games, id)
    &&& forall|id: Seq<char>, other: Seq<char>| #[trigger]
        games.contains_key(id) && #[trigger] games.contains_key(other) && id != other
            ==> games[id].client_sender != games[other].client_sender
    &&& forall|channel: u64| !#[trigger] offered(incidents, channel) ==> announced(effects, channel)
        == Seq::<Seq<char>>::empty()
}

/// Over the whole life of a server, the names that have been announced to a game are the names at
/// its table, in order.
pub proof fn law_all_places_are_announced(incidents: Seq<Incident>)
    requires
        all_possible(Map::empty(), incidents),
        new_channels(incidents),
    ensures
        all_announced(incidents),
        tidy(games_after_all(Map::empty(), incidents)),
    decreases incidents.len(),
{
    if incidents.len() > 0 {
        let rest = incidents.drop_last();
        let incident = incidents.last();
        let before = games_after_all(Map::empty(), rest);
        assert forall|i: int, j: int, channel: u64|
            0 <= i < j < rest.len() && #[trigger] offers(
                rest[i],
                channel,
            ) implies !#[trigger] offers(rest[j], channel) by {
            assert(rest[i] == incidents[i]);
            assert(rest[j] == incidents[j]);
        }
        law_all_places_are_announced(rest);
        law_tables_stay_tidy(before, incident);
        assert forall|channel: u64| #[trigger] offered(rest, channel) implies offered(
            incidents,
            channel,
        ) && !offers(incident, channel) by {
            let i = choose|i: int| 0 <= i < rest.len() && #[trigger] offers(rest[i], channel);
            assert(offers(incidents[i], channel));
            assert(incidents[incidents.len() - 1] == incident);
        }
        assert forall|channel: u64| #[trigger] offers(incident, channel) implies offered(
            incidents,
            channel,
        ) by {
            assert(offers(incidents[incidents.len() - 1], channel));
        }
        assert(rest.push(incident) =~= incidents);
        lemma_announced_step(rest, incident);
    }
}

/// One more incident keeps the announcements complete.
proof fn lemma_announced_step(rest: Seq<Incident>, incident: Incident)
    requires
        tidy(games_after_all(Map::empty(), rest)),
        possible(games_after_all(Map::empty(), rest), incident),
        all_announced(rest),
        forall|channel: u64| #[trigger]
            offered(rest, channel) ==> offered(rest.push(incident), channel) && !offers(
                incident,
                channel,
            ),
        forall|channel: u64| #[trigger]
            offers(incident, channel) ==> offered(rest.push(incident), channel),
    ensures
        all_announced(rest.push(incident)),
{
    let incidents = rest.push(incident);
    let before = games_after_all(Map::empty(), rest);
    let now = games_after_all(Map::empty(), incidents);
    let earlier = all_effects(Map::empty(), rest);
    let added = effects_of(before, incident);
    let effects = all_effects(Map::empty(), incidents);
    assert(incidents.drop_last() =~= rest);
    assert(effects == earlier + added);
    reveal_with_fuel(announced, 3);
    assert forall|channel: u64| #[trigger] announced(effects, channel) == announced(
        earlier,
        channel,
    ) + announced(added, channel) by {
        lemma_announced_sum(earlier, added, channel);
    }
    match incident {
        Incident::Received { m: ClientMessageView::Register { game_id, name, .. }, .. } => {
            if before.contains_key(game_id) {
                assert(tidy_table(before[game_id]));
                lemma_seat_of(before[game_id].users, name);
            }
        },
        _ => {},
    }
    assert forall|id: Seq<char>| #[trigger] now.contains_key(id) implies offered(
        incidents,
        now[id].client_sender,
    ) && announced(effects, now[id].client_sender) == names_at(now, id) by {
        let c = now[id].client_sender;
        if before.contains_key(id) {
            assert(offered(rest, before[id].client_sender));
            assert(names_at(now, id) =~= names_at(before, id) + announced(added, c));
        } else {
            assert(offers(incident, c));
            assert(!offered(rest, c));
            assert(names_at(now, id) =~= announced(earlier, c) + announced(added, c));
        }
        assert(announced(effects, c) == announced(earlier, c) + announced(added, c));
    }
    assert forall|id: Seq<char>, other: Seq<char>| #[trigger]
        now.contains_key(id) && #[trigger] now.contains_key(other) && id
            != other implies now[id].client_sender != now[other].client_sender by {
        if before.contains_key(id) {
            assert(offered(rest, before[id].client_sender));
        }
        if before.contains_key(other) {
            assert(offered(rest, before[other].client_sender));
        }
    }
    assert forall|channel: u64| !#[trigger] offered(incidents, channel) implies announced(
        effects,
        channel,
    ) == Seq::<Seq<char>>::empty() by {
        assert(!offered(rest, channel));
        assert(!offers(incident, channel));
        match incident {
            Incident::Received { m: ClientMessageView::Register { game_id, .. }, .. } => {
                if before.contains_key(game_id) {
                    assert(offered(rest, before[game_id].client_sender));
                }
            },
            _ => {},
        }
        assert(announced(earlier, channel) =~= Seq::empty());
        assert(announced(added, channel) =~= Seq::empty());
        assert(announced(effects, channel) =~= announced(earlier, channel) + announced(
            added,
            channel,
        ));
    }
}

/// What two lists of effects announce one after the other.
proof fn lemma_announced_sum(a: Seq<EffectView>, b: Seq<EffectView>, client_sender: u64)
    ensures
        announced(a + b, client_sender) == announced(a, client_sender) + announced(
            b,
            client_sender,
        ),
    decreases b.len(),
{
    if b.len() == 0 {
        assert(a + b =~= a);
        assert(announced(a, client_sender) + announced(b, client_sender) =~= announced(
            a,
            client_sender,
        ));
    } else {
        lemma_announced_sum(a, b.drop_last(), client_sender);
        assert((a + b).drop_last() =~= a + b.drop_last());
        assert(announced(a + b, client_sender) =~= announced(a, client_sender) + announced(
            b,
            client_sender,
        ));
    }
}

/// The same names, in the same order, at the table and in the game.
pub open spec fn seats_agree(game: TableView, g: GameView) -> bool {
    &&& game.users.len() == g.users.len()
    &&& forall|i: int|
        0 <= i < game.users.len() ==> (#[trigger] game.users[i]).name == g.users[i].name
}

/// The game after the messages among the effects that go to its channel have arrived.
pub open spec fn after_hearing(
    g: GameView,
    effects: Seq<EffectView>,
    client_sender: u64,
) -> GameView
    decreases effects.len(),
{
    if effects.len() == 0 {
        g
    } else {
        let before = after_hearing(g, effects.drop_last(), client_sender);
        match effects.last() {
            EffectView::ToGame(to, m) => if to == client_sender {
                before.receive(m).0
            } else {
                before
            },
            _ => before,
        }
    }
}

/// A player has the same number at the table and in the game: whoever registers, the seats agree
/// once the game has heard of it, provided that it still waits for players or the table knows that
/// it has started. A new game, which has nobody in it, is no exception.
pub proof fn law_seats_agree(
    games: Tables,
    connection: Connection,
    id: Seq<char>,
    name: Seq<char>,
    password: Seq<char>,
    client_sender: u64,
    drawn_id: Seq<char>,
    g: GameView,
)
    requires
        tidy(games),
        id.len() > 0,
        games.contains_key(id) ==> seats_agree(games[id], g) && (g.state
            == justone::State::WaitingForPlayers || games[id].started),
        !games.contains_key(id) ==> g.users.len() == 0 && g.state
            == justone::State::WaitingForPlayers,
    ensures
        ({
            let outcome = handled(
                games,
                connection,
                registration(id, name, password),
                client_sender,
                drawn_id,
            );
            let game = outcome.games[id];
            seats_agree(game, after_hearing(g, outcome.effects, game.client_sender))
        }),
{
    reveal_with_fuel(after_hearing, 3);
    if games.contains_key(id) {
        assert(tidy_table(games[id]));
        lemma_seat_of(games[id].users, name);
    }
}

/// A message of a browser changes no table but that of the game it registers for.
pub proof fn law_other_games_are_left_alone(
    games: Tables,
    connection: Connection,
    m: ClientMessageView,
    client_sender: u64,
    drawn_id: Seq<char>,
    other: Seq<char>,
)
    requires
        possible(games, Incident::Received { connection, m, client_sender, drawn_id }),
        games.contains_key(other),
        m matches ClientMessageView::Register { game_id, .. } ==> game_id != other,
    ensures
        handled(games, connection, m, client_sender, drawn_id).games.contains_key(other),
        handled(games, connection, m, client_sender, drawn_id).games[other] == games[other],
{
}

/// The message speaks for the player at place `i`, or starts the game, which only the first player
/// can do.
pub open spec fn speaks_for(m: justone::ClientMessageView, i: usize) -> bool {
    match m {
        justone::ClientMessageView::WordSubmissionResponse(user, _) => user == i,
        justone::ClientMessageView::ManualDuplicateEliminationResponse(user, _) => user == i,
        justone::ClientMessageView::WordGuessResponse(user, _) => user == i,
        justone::ClientMessageView::AcceptGuessResponse(user, _) => user == i,
        justone::ClientMessageView::StartGame => i == 0,
        _ => false,
    }
}

/// A browser speaks to no game but the one it has turned to last, and under no number but that of
/// its place. Only under the first number can it start the game, and it can never stop it.
pub proof fn law_browsers_speak_under_their_numbers(
    connection: Connection,
    m: ClientMessageView,
    k: int,
)
    requires
        connection.wf(),
        0 <= k < relayed(connection, m).len(),
    ensures
        connection.client_id is Some,
        relayed(connection, m)[k] matches EffectView::ToGame(to, message) && Some(to)
            == connection.client_sender && speaks_for(message, connection.client_id->0),
{
}

/// The browser has a place in the game `id`, and this is the game it has turned to.
pub open spec fn has_place(games: Tables, connection: Connection, id: Seq<char>) -> bool {
    &&& games.contains_key(id)
    &&& connection.client_sender == Some(games[id].client_sender)
    &&& connection.client_id matches Some(i) && i < games[id].users.len()
}

/// Whether a registration is accepted: the game is new, or the player is known by name and
/// password, or new to a game that has not started.
pub open spec fn is_accepted(
    games: Tables,
    id: Seq<char>,
    name: Seq<char>,
    password: Seq<char>,
) -> bool {
    games.contains_key(id) ==> match seat_of(games[id].users, name) {
        Some(i) => games[id].users[i as int].password == password,
        None => !games[id].started,
    }
}

/// A registration that is accepted gives a place in the game, under the name and the password of
/// the registration, and the messages for that place go to this browser.
pub proof fn law_accepted_players_have_a_place(
    games: Tables,
    connection: Connection,
    id: Seq<char>,
    name: Seq<char>,
    password: Seq<char>,
    client_sender: u64,
    drawn_id: Seq<char>,
)
    requires
        tidy(games),
        countable(
            handled(
                games,
                connection,
                registration(id, name, password),
                client_sender,
                drawn_id,
            ).games,
        ),
        id.len() > 0,
        is_accepted(games, id, name, password),
    ensures
        ({
            let outcome = handled(
                games,
                connection,
                registration(id, name, password),
                client_sender,
                drawn_id,
            );
            &&& has_place(outcome.games, outcome.connection, id)
            &&& outcome.games[id].users[outcome.connection.client_id->0 as int] == UserView {
                name,
                password,
                tx: connection.tx,
            }
        }),
{
    if games.contains_key(id) {
        assert(tidy_table(games[id]));
        lemma_seat_of(games[id].users, name);
    }
}

/// A place is kept until the game ends, whatever else happens at the server.
pub proof fn law_places_are_kept(
    games: Tables,
    connection: Connection,
    id: Seq<char>,
    incidents: Seq<Incident>,
)
    requires
        tidy(games),
        has_place(games, connection, id),
        all_possible(games, incidents),
        !incidents.contains(Incident::Removed { game_id: id }),
    ensures
        has_place(games_after_all(games, incidents), connection, id),
{
    law_places_last(games, incidents, id);
}

/// A player whose last registration was accepted speaks for themselves: what the browser sends goes
/// to the game at whose table the player has a place, and speaks for that place alone. Only the
/// first player can start the game, and nobody but the server can stop it.
pub proof fn law_players_speak_for_themselves(
    games: Tables,
    connection: Connection,
    id: Seq<char>,
    m: ClientMessageView,
    k: int,
)
    requires
        has_place(games, connection, id),
        0 <= k < relayed(connection, m).len(),
    ensures
        relayed(connection, m)[k] matches EffectView::ToGame(to, message) && to
            == games[id].client_sender && speaks_for(message, connection.client_id->0),
        connection.client_id->0 < games[id].users.len(),
{
}

/// A browser without a place in a game is not listened to: unless it registers, nothing happens.
pub proof fn law_strangers_are_not_heard(
    games: Tables,
    connection: Connection,
    m: ClientMessageView,
    client_sender: u64,
    drawn_id: Seq<char>,
)
    requires
        connection.client_id is None,
        m !is Register,
    ensures
        handled(games, connection, m, client_sender, drawn_id).games == games,
        handled(games, connection, m, client_sender, drawn_id).connection == connection,
        handled(games, connection, m, client_sender, drawn_id).effects.len() == 0,
{
}

/// Whoever gets a place gets the messages of the game that are meant for it.
pub proof fn law_messages_reach_the_player(
    games: Tables,
    connection: Connection,
    id: Seq<char>,
    name: Seq<char>,
    password: Seq<char>,
    client_sender: u64,
    drawn_id: Seq<char>,
    m: ServerMessageView,
)
    requires
        tidy(games),
        countable(
            handled(
                games,
                connection,
                registration(id, name, password),
                client_sender,
                drawn_id,
            ).games,
        ),
        id.len() > 0,
        connection.client_id is None,
        handled(
            games,
            connection,
            registration(id, name, password),
            client_sender,
            drawn_id,
        ).connection.client_id == Some(m.recipient()),
    ensures
        ({
            let outcome = handled(
                games,
                connection,
                registration(id, name, password),
                client_sender,
                drawn_id,
            );
            forwarded(outcome.games[id], id, m) matches Some((tx, _)) && tx == connection.tx
        }),
{
    if games.contains_key(id) {
        assert(tidy_table(games[id]));
        lemma_seat_of(games[id].users, name);
    }
}

} // verus!
