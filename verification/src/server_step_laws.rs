//! What each message does at a server: to the tables, to the browser that sent it, and to the
//! games.
use vstd::prelude::*;

use crate::chance::is_drawn_id;
use crate::justone;
use crate::justone::GameView;
use crate::messages::ServerMessageView;
use crate::server::draws_id;
use crate::server::forwarded;
use crate::server::handled;
use crate::server::is_first_free;
use crate::server::table_after;
use crate::server::too_late;
use crate::server::wrong_password;
use crate::server::ClientMessageView;
use crate::server::Connection;
use crate::server::EffectView;
use crate::server::TableView;
use crate::server::Tables;
use crate::server::UserView;
use crate::server_laws::registration;
use crate::server_laws::tidy;
use crate::server_laws::tidy_table;
use crate::server_laws::unknown;
use crate::wire::json_text;
use crate::wire::message_members;

verus! {

/// The message goes to the game that the browser has turned to, alone, and nothing else happens.
pub open spec fn passes_on(
    games: Tables,
    connection: Connection,
    m: ClientMessageView,
    message: justone::ClientMessageView,
) -> bool {
    forall|client_sender: u64, drawn_id: Seq<char>|
        {
            let outcome = #[trigger] handled(games, connection, m, client_sender, drawn_id);
            &&& outcome.games == games
            &&& outcome.connection == connection
            &&& outcome.effects.len() == 1
            &&& outcome.effects[0] == EffectView::ToGame(connection.client_sender->0, message)
        }
}

/// What a player sends reaches the game as it was sent, under the player's number: the word of a
/// hint or a guess, the hints that are picked, and the verdict.
pub proof fn law_the_game_hears_what_was_sent(
    games: Tables,
    connection: Connection,
    i: usize,
    word: Seq<char>,
    ids: Seq<usize>,
    accept: bool,
)
    requires
        connection.client_id == Some(i),
        connection.wf(),
    ensures
        passes_on(
            games,
            connection,
            ClientMessageView::WordSubmission { word },
            justone::ClientMessageView::WordSubmissionResponse(i, word),
        ),
        passes_on(
            games,
            connection,
            ClientMessageView::ManualDuplicateElimination { ids },
            justone::ClientMessageView::ManualDuplicateEliminationResponse(i, ids),
        ),
        passes_on(
            games,
            connection,
            ClientMessageView::WordGuess { word },
            justone::ClientMessageView::WordGuessResponse(i, word),
        ),
        passes_on(
            games,
            connection,
            ClientMessageView::AcceptGuess { accept },
            justone::ClientMessageView::AcceptGuessResponse(i, accept),
        ),
        i == 0 ==> passes_on(
            games,
            connection,
            ClientMessageView::StartGame,
            justone::ClientMessageView::StartGame,
        ),
{
}

/// Nobody but the first player starts the game: from others the wish goes nowhere.
pub proof fn law_others_cannot_start_the_game(
    games: Tables,
    connection: Connection,
    client_sender: u64,
    drawn_id: Seq<char>,
)
    requires
        connection.client_id != Some(0usize),
    ensures
        ({
            let outcome = handled(
                games,
                connection,
                ClientMessageView::StartGame,
                client_sender,
                drawn_id,
            );
            outcome.games == games && outcome.connection == connection && outcome.effects.len() == 0
        }),
{
}

/// The verdict that the deciding player's browser sends is the verdict that the game counts: only
/// an accepted guess brings a point.
pub proof fn law_verdicts_reach_the_game(
    games: Tables,
    connection: Connection,
    accept: bool,
    client_sender: u64,
    drawn_id: Seq<char>,
    g: GameView,
)
    requires
        connection.wf(),
        connection.client_id == Some(g.decision_user),
        g.wf(),
        g.state == justone::State::AcceptGuess,
        g.words_left >= 1,
    ensures
        ({
            let effects = handled(
                games,
                connection,
                ClientMessageView::AcceptGuess { accept },
                client_sender,
                drawn_id,
            ).effects;
            effects[0] matches EffectView::ToGame(_, message) && g.receive(message).0.score
                == g.score + (if accept {
                1int
            } else {
                0
            })
        }),
{
}

/// The table of a game that was just opened.
pub open spec fn first_table(
    game: TableView,
    client_sender: u64,
    name: Seq<char>,
    password: Seq<char>,
    tx: u64,
) -> bool {
    &&& !game.started
    &&& game.client_sender == client_sender
    &&& game.users.len() == 1
    &&& game.users[0].name == name
    &&& game.users[0].password == password
    &&& game.users[0].tx == tx
}

/// Registering for a game that is not there, or for none, opens one: under the id that was asked
/// for or drawn, over the channel that was offered, with the player as its first. The game is
/// started and then told of the player, and no other table changes.
pub proof fn law_games_are_opened(
    games: Tables,
    connection: Connection,
    asked_for: Seq<char>,
    name: Seq<char>,
    password: Seq<char>,
    client_sender: u64,
    drawn_id: Seq<char>,
)
    requires
        asked_for.len() == 0 || !games.contains_key(asked_for),
    ensures
        ({
            let id = if asked_for.len() == 0 {
                drawn_id
            } else {
                asked_for
            };
            let outcome = handled(
                games,
                connection,
                registration(asked_for, name, password),
                client_sender,
                drawn_id,
            );
            &&& outcome.games.contains_key(id)
            &&& first_table(outcome.games[id], client_sender, name, password, connection.tx)
            &&& outcome.games.remove(id) == games.remove(id)
            &&& outcome.connection.tx == connection.tx
            &&& outcome.connection.client_sender == Some(client_sender)
            &&& outcome.connection.client_id == Some(0usize)
            &&& outcome.effects.len() == 2
            &&& outcome.effects[0] == EffectView::OpenGame { game_id: id, client_sender }
            &&& outcome.effects[1] == EffectView::ToGame(
                client_sender,
                justone::ClientMessageView::NewPlayer(name),
            )
        }),
{
    let id = if asked_for.len() == 0 {
        drawn_id
    } else {
        asked_for
    };
    let outcome = handled(
        games,
        connection,
        registration(asked_for, name, password),
        client_sender,
        drawn_id,
    );
    assert(outcome.games.remove(id) =~= games.remove(id));
}

/// A newcomer to a game that has not started gets the next place, under their name and password,
/// and the game is told. Nothing else at the table changes, and no other table does.
pub proof fn law_newcomers_get_the_next_place(
    games: Tables,
    connection: Connection,
    id: Seq<char>,
    name: Seq<char>,
    password: Seq<char>,
    client_sender: u64,
    drawn_id: Seq<char>,
)
    requires
        tidy(games),
        games.contains_key(id),
        !games[id].started,
        unknown(games[id].users, name),
        games[id].users.len() < usize::MAX,
    ensures
        ({
            let game = games[id];
            let n = game.users.len();
            let outcome = handled(
                games,
                connection,
                registration(id, name, password),
                client_sender,
                drawn_id,
            );
            let now = outcome.games[id];
            &&& outcome.games.contains_key(id)
            &&& outcome.games.remove(id) == games.remove(id)
            &&& now.started == game.started && now.client_sender == game.client_sender
            &&& now.users.len() == n + 1
            &&& now.users.take(n as int) == game.users
            &&& now.users[n as int] == (UserView { name, password, tx: connection.tx })
            &&& outcome.connection == (Connection {
                tx: connection.tx,
                client_sender: Some(game.client_sender),
                client_id: Some(n as usize),
            })
            &&& outcome.effects.len() == 1
            &&& outcome.effects[0] == EffectView::ToGame(
                game.client_sender,
                justone::ClientMessageView::NewPlayer(name),
            )
        }),
{
    let game = games[id];
    let outcome = handled(
        games,
        connection,
        registration(id, name, password),
        client_sender,
        drawn_id,
    );
    assert(tidy_table(game));
    crate::server_laws::lemma_seat_of(game.users, name);
    assert(outcome.games.remove(id) =~= games.remove(id));
    assert(outcome.games[id].users.take(game.users.len() as int) =~= game.users);
}

/// Who is turned away is told why.
pub proof fn law_rejections_say_why()
    ensures
        wrong_password() == "the password does not match the existing player's"@,
        too_late() == "the game has already started"@,
{
}

/// An id is drawn for a game exactly if a player registers without one.
pub proof fn law_ids_are_drawn_where_none_is_given(m: ClientMessageView)
    ensures
        draws_id(m) <==> (m matches ClientMessageView::Register { game_id, .. } && game_id
            == Seq::<char>::empty()),
{
    match m {
        ClientMessageView::Register { game_id, .. } => {
            if game_id.len() == 0 {
                assert(game_id =~= Seq::empty());
            }
        },
        _ => {},
    }
}

/// A drawn id has five characters, each a letter or a digit of ASCII.
pub proof fn law_drawn_ids_are_short_and_plain(id: Seq<char>)
    ensures
        is_drawn_id(id) <==> id.len() == 5 && forall|i: int|
            0 <= i < 5 ==> {
                ||| 'a' <= #[trigger] id[i] <= 'z'
                ||| 'A' <= id[i] <= 'Z'
                ||| '0' <= id[i] <= '9'
            },
{
    if is_drawn_id(id) {
        assert forall|i: int| 0 <= i < 5 implies {
            ||| 'a' <= #[trigger] id[i] <= 'z'
            ||| 'A' <= id[i] <= 'Z'
            ||| '0' <= id[i] <= '9'
        } by {
            assert(crate::chance::is_alphanumeric(id[i]));
        }
    }
}

/// Of a list of ids at most one place is that of the first free one.
pub proof fn law_there_is_one_first_free_id(
    games: Tables,
    ids: Seq<Seq<char>>,
    a: Option<usize>,
    b: Option<usize>,
)
    requires
        is_first_free(games, ids, a),
        is_first_free(games, ids, b),
    ensures
        a == b,
        a is Some ==> !games.contains_key(ids[a->0 as int]),
        a is None ==> forall|j: int| 0 <= j < ids.len() ==> games.contains_key(#[trigger] ids[j]),
{
    if a is Some && b is Some {
        if a->0 < b->0 {
            assert(games.contains_key(ids[a->0 as int]));
        }
        if b->0 < a->0 {
            assert(games.contains_key(ids[b->0 as int]));
        }
    } else if a is Some {
        assert(games.contains_key(ids[a->0 as int]));
    } else if b is Some {
        assert(games.contains_key(ids[b->0 as int]));
    }
}

/// The first round, and nothing but a round, closes a table to newcomers; players and channels
/// stay.
pub proof fn law_rounds_close_the_table(game: TableView, m: ServerMessageView)
    ensures
        table_after(game, m).started <==> game.started || m is RoundStart,
        table_after(game, m).users == game.users,
        table_after(game, m).client_sender == game.client_sender,
{
}

/// A message of a game goes to the browser of the player it is meant for, as the text of the object
/// that describes it; if nobody has that place it goes nowhere.
pub proof fn law_messages_go_to_the_place_they_name(
    game: TableView,
    game_id: Seq<char>,
    m: ServerMessageView,
)
    ensures
        forwarded(game, game_id, m) is Some <==> m.recipient() < game.users.len(),
        forwarded(game, game_id, m) matches Some((tx, text)) ==> tx
            == game.users[m.recipient() as int].tx && text == json_text(
            message_members(game_id, m),
        ),
{
}

} // verus!
