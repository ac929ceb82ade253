//! What a call of each operation brings, and that it can be made wherever it has a meaning.
use vstd::prelude::*;

use crate::chance::draw_game_id;
use crate::chance::draw_word;
use crate::cli::displayed;
use crate::cli::parsed_command;
use crate::cli::Command;
use crate::cli::JustOneCLI;
use crate::justone;
use crate::justone::JustOneGame;
use crate::justone::WordList;
use crate::logic;
use crate::logic::delivered;
use crate::logic::Logic;
use crate::messages::ServerMessage;
use crate::server::handled;
use crate::server::ClientMessage;
use crate::server::Connection;
use crate::server::Effect;
use crate::server::ServerState;
use crate::server::Tables;
use crate::wire::json_text;
use crate::wire::message_members;
use crate::wire::message_text;
use crate::wire::reconnecting_members;
use crate::wire::reconnecting_text;
use crate::wire::rejected_members;
use crate::wire::rejected_text;

verus! {

/// The texts of a list, in order.
pub open spec fn texts(list: Seq<String>) -> Seq<Seq<char>> {
    list.map(|i: int, t: String| t@)
}

/// The messages of a list, in order.
pub open spec fn contents(list: Seq<ServerMessage>) -> Seq<crate::messages::ServerMessageView> {
    list.map(|i: int, m: ServerMessage| m@)
}

/// Any word list makes a game, with all its words still to guess.
pub proof fn law_calling_new_game(words: Vec<String>, word_count: usize, r: JustOneGame)
    requires
        call_ensures(JustOneGame::new_game, (words, word_count), r),
    ensures
        call_requires(JustOneGame::new_game, (words, word_count)),
        r@.wf(),
        r@.words == texts(words@),
        r@.words_left == word_count,
        r@ == justone::fresh_game(texts(words@), word_count),
{
    assert(crate::chance::vocabulary(words@) =~= texts(words@));
}

/// Any word list with a word in it makes a game on a terminal, about one of its words.
pub proof fn law_calling_new_game_cli(num_users: usize, words: Vec<String>, r: JustOneGame)
    requires
        call_ensures(JustOneGame::new_game_cli, (num_users, words), r),
        words@.len() > 0,
    ensures
        call_requires(JustOneGame::new_game_cli, (num_users, words)),
        r@.wf(),
        exists|i: int|
            0 <= i < words@.len() && r@ == #[trigger] justone::terminal_game(
                num_users as nat,
                texts(words@),
                texts(words@)[i],
            ),
{
    assert(crate::chance::vocabulary(words@) =~= texts(words@));
}

/// A game on a terminal can be about any given word.
pub proof fn law_calling_new_game_cli_about(
    num_users: usize,
    words: Vec<String>,
    word: String,
    r: JustOneGame,
)
    requires
        call_ensures(JustOneGame::new_game_cli_about, (num_users, words, word), r),
    ensures
        call_requires(JustOneGame::new_game_cli_about, (num_users, words, word)),
        r@.wf(),
        r@ == justone::terminal_game(num_users as nat, texts(words@), word@),
{
    assert(crate::chance::vocabulary(words@) =~= texts(words@));
}

/// A game tells its state, what it awaits, its score and the words left as they are.
pub proof fn law_calling_the_getters(
    game: &JustOneGame,
    awaiting: justone::Awaiting,
    state: justone::State,
    score: usize,
    words_left: usize,
)
    requires
        call_ensures(JustOneGame::awaiting, (game,), awaiting),
        call_ensures(JustOneGame::state, (game,), state),
        call_ensures(JustOneGame::score, (game,), score),
        call_ensures(JustOneGame::words_left, (game,), words_left),
    ensures
        awaiting == game@.awaiting,
        state == game@.state,
        score == game@.score,
        words_left == game@.words_left,
{
}

/// The replay for a player is what the player is told on asking for the state of the game.
pub proof fn law_calling_send_full_game_state(
    game: &JustOneGame,
    user: usize,
    r: Vec<ServerMessage>,
)
    requires
        call_ensures(JustOneGame::send_full_game_state, (game, user), r),
        game@.state == justone::State::AcceptGuess ==> game@.guess_user < game@.users.len(),
    ensures
        call_requires(JustOneGame::send_full_game_state, (game, user)),
        contents(r@) == game@.after(
            justone::EventView::Message(justone::ClientMessageView::ResendGameState(user)),
            Seq::empty(),
        ).1.messages,
{
    assert(crate::messages::messages_view(r@) =~= contents(r@));
}

/// A game can be asked whether it is ready for any event, and answers truly.
pub proof fn law_calling_can_process(game: &JustOneGame, event: &justone::Event, r: bool)
    requires
        call_ensures(JustOneGame::can_process, (game, event), r),
    ensures
        call_requires(JustOneGame::can_process, (game, event)),
        r <==> game@.accepts(event@),
{
}

/// A game that is ready for an event tells what it will say, whatever word is drawn.
pub proof fn law_calling_outbox(
    game: &JustOneGame,
    event: &justone::Event,
    word: Seq<char>,
    r: justone::Outbox,
)
    requires
        call_ensures(JustOneGame::outbox, (game, event), r),
        game@.wf(),
        game@.accepts(event@),
    ensures
        call_requires(JustOneGame::outbox, (game, event)),
        contents(r.messages@) == game@.after(event@, word).1.messages,
        r.required == game@.after(event@, word).1.required,
{
    assert(crate::messages::messages_view(r.messages@) =~= contents(r.messages@));
}

/// A game that is ready for an event takes the step, with the given word or one of its list, and
/// says what belongs to it.
pub proof fn law_calling_process_state(
    game: &mut JustOneGame,
    other: &mut JustOneGame,
    event: justone::Event,
    word: String,
    r: justone::Outbox,
    s: justone::Outbox,
)
    requires
        call_ensures(JustOneGame::process_state_about, (game, event, word), r),
        call_ensures(JustOneGame::process_state, (other, event), s),
        old(game)@.wf(),
        old(game)@.accepts(event@),
        old(other)@.wf(),
        old(other)@.accepts(event@),
    ensures
        call_requires(JustOneGame::process_state_about, (game, event, word)),
        call_requires(JustOneGame::process_state, (other, event)),
        final(game)@.wf(),
        final(other)@.wf(),
        final(game)@ == old(game)@.after(event@, word@).0,
        contents(r.messages@) == old(game)@.after(event@, word@).1.messages,
        r.required == old(game)@.after(event@, word@).1.required,
        exists|w: Seq<char>|
            {
                &&& old(other)@.draws(event@) ==> old(other)@.words.contains(w)
                &&& final(other)@ == (#[trigger] old(other)@.after(event@, w)).0
                &&& contents(s.messages@) == old(other)@.after(event@, w).1.messages
                &&& s.required == old(other)@.after(event@, w).1.required
            },
{
    assert(crate::messages::messages_view(r.messages@) =~= contents(r.messages@));
    assert(crate::messages::messages_view(s.messages@) =~= contents(s.messages@));
    let g = old(other)@;
    if g.draws(event@) {
        let i = choose|i: int|
            0 <= i < g.words.len() && (final(other)@, s@) == #[trigger] g.after(
                event@,
                g.words[i],
            );
        assert(g.words.contains(g.words[i]));
        assert(final(other)@ == g.after(event@, g.words[i]).0);
    } else {
        assert(final(other)@ == g.after(event@, Seq::empty()).0);
    }
}

/// A game that cannot send one of the messages it depends on ends on the spot.
pub proof fn law_calling_interrupt(game: &mut JustOneGame, event: justone::Event, k: usize)
    requires
        call_ensures(JustOneGame::interrupt, (game, event, k), ()),
        old(game)@.wf(),
        old(game)@.accepts(event@),
        old(game)@.after(event@, Seq::empty()).1.required,
        k < old(game)@.after(event@, Seq::empty()).1.messages.len(),
    ensures
        call_requires(JustOneGame::interrupt, (game, event, k)),
        final(game)@ == old(game)@.interrupted(event@, k as int),
{
}

/// Every language has a file of its own.
pub proof fn law_calling_file_name(
    e: &'static str,
    h: &'static str,
    i: &'static str,
    g: &'static str,
)
    requires
        call_ensures(WordList::file_name, (WordList::English,), e),
        call_ensures(WordList::file_name, (WordList::Hungarian,), h),
        call_ensures(WordList::file_name, (WordList::Italian,), i),
        call_ensures(WordList::file_name, (WordList::German,), g),
    ensures
        e@ == "include/words_en.txt"@,
        h@ == "include/words_hu.txt"@,
        i@ == "include/words_it.txt"@,
        g@ == "include/words_de.txt"@,
{
}

/// Any word list makes a game with channels.
pub proof fn law_calling_new_logic(words: Vec<String>, r: Logic)
    requires
        call_ensures(Logic::new_game, (words,), r),
    ensures
        call_requires(Logic::new_game, (words,)),
        r@.wf(),
        r@ == logic::fresh_logic(texts(words@)),
{
    assert(crate::chance::vocabulary(words@) =~= texts(words@));
}

/// Any word list with a word in it makes a game with channels on a terminal, about one of its words
/// or a given one.
pub proof fn law_calling_new_logic_cli(
    num_users: usize,
    channel: u64,
    words: Vec<String>,
    word: String,
    r: Logic,
    s: Logic,
)
    requires
        call_ensures(Logic::new_game_cli, (num_users, channel, words), r),
        call_ensures(Logic::new_game_cli_about, (num_users, channel, words, word), s),
        words@.len() > 0,
    ensures
        call_requires(Logic::new_game_cli, (num_users, channel, words)),
        call_requires(Logic::new_game_cli_about, (num_users, channel, words, word)),
        r@.wf(),
        s@.wf(),
        exists|i: int|
            0 <= i < words@.len() && r@ == #[trigger] logic::terminal_logic(
                num_users as nat,
                channel,
                texts(words@),
                texts(words@)[i],
            ),
        s@ == logic::terminal_logic(num_users as nat, channel, texts(words@), word@),
{
    assert(crate::chance::vocabulary(words@) =~= texts(words@));
}

/// A game with channels tells its state, what it awaits, its score and the words left as they are,
/// and whether it is ready for any event.
pub proof fn law_calling_the_logic_getters(
    game: &Logic,
    event: &logic::Event,
    awaiting: justone::Awaiting,
    state: logic::State,
    score: usize,
    words_left: usize,
    ready: bool,
)
    requires
        call_ensures(Logic::awaiting, (game,), awaiting),
        call_ensures(Logic::state, (game,), state),
        call_ensures(Logic::score, (game,), score),
        call_ensures(Logic::words_left, (game,), words_left),
        call_ensures(Logic::can_process, (game, event), ready),
    ensures
        awaiting == game@.awaiting,
        state == game@.state,
        score == game@.score,
        words_left == game@.words_left,
        call_requires(Logic::can_process, (game, event)),
        ready <==> game@.accepts(event@),
{
}

/// The deliveries of a list, in order.
pub open spec fn carried(list: Seq<logic::Delivery>) -> Seq<logic::DeliveryView> {
    list.map(|i: int, d: logic::Delivery| d@)
}

/// A game with channels that is ready for an event takes the step, with the given word or one of
/// its list, and delivers what it says to the players who are then at the table.
pub proof fn law_calling_logic_process_state(
    game: &mut Logic,
    other: &mut Logic,
    event: logic::Event,
    word: String,
    r: Vec<logic::Delivery>,
    s: Vec<logic::Delivery>,
)
    requires
        call_ensures(Logic::process_state_about, (game, event, word), r),
        call_ensures(Logic::process_state, (other, event), s),
        old(game)@.wf(),
        old(game)@.accepts(event@),
        old(other)@.wf(),
        old(other)@.accepts(event@),
    ensures
        call_requires(Logic::process_state_about, (game, event, word)),
        call_requires(Logic::process_state, (other, event)),
        final(game)@.wf(),
        final(other)@.wf(),
        final(game)@ == old(game)@.after(event@, word@).0,
        carried(r@) == delivered(final(game)@.channels, old(game)@.after(event@, word@).1),
        exists|w: Seq<char>|
            {
                &&& old(other)@.draws(event@) ==> old(other)@.words.contains(w)
                &&& final(other)@ == (#[trigger] old(other)@.after(event@, w)).0
                &&& carried(s@) == delivered(
                    final(other)@.channels,
                    old(other)@.after(event@, w).1,
                )
            },
{
    assert(logic::deliveries_view(r@) =~= carried(r@));
    assert(logic::deliveries_view(s@) =~= carried(s@));
    let g = old(other)@;
    if g.draws(event@) {
        let i = choose|i: int|
            0 <= i < g.words.len() && ({
                let (next, messages) = #[trigger] g.after(event@, g.words[i]);
                final(other)@ == next && logic::deliveries_view(s@) == delivered(
                    next.channels,
                    messages,
                )
            });
        assert(g.words.contains(g.words[i]));
        assert(final(other)@ == g.after(event@, g.words[i]).0);
    } else {
        assert(final(other)@ == g.after(event@, Seq::empty()).0);
    }
}

/// A line that is typed is read as the command it stands for, or as none.
pub proof fn law_calling_process_input(line: &str, r: Option<Command>)
    requires
        call_ensures(JustOneCLI::process_input, (line,), r),
    ensures
        call_requires(JustOneCLI::process_input, (line,)),
        r is Some <==> parsed_command(line@) is Some,
        r is Some ==> parsed_command(line@) == Some(r->0@),
{
}

/// A message is written out in the lines that tell it.
pub proof fn law_calling_display_request(request: &ServerMessage, r: Vec<String>)
    requires
        call_ensures(JustOneCLI::display_request, (request,), r),
    ensures
        call_requires(JustOneCLI::display_request, (request,)),
        texts(r@) == displayed(request@),
{
    assert(crate::cli::lines_view(r@) =~= texts(r@));
}

/// A command becomes the message it stands for, for either kind of game.
pub proof fn law_calling_from_command(
    command: Command,
    r: justone::ClientMessage,
    s: logic::ClientMessage,
)
    requires
        call_ensures(justone::ClientMessage::from_command, (command,), r),
        call_ensures(logic::ClientMessage::from_command, (command,), s),
    ensures
        r@ == justone::ClientMessage::of_command(command@),
        s@ == logic::ClientMessage::of_command(command@),
{
}

/// The texts for browsers are those of the objects that describe what they say.
pub proof fn law_calling_the_texts(
    game_id: &str,
    m: &ServerMessage,
    i: usize,
    reason: &str,
    r: String,
    s: String,
    t: String,
)
    requires
        call_ensures(message_text, (game_id, m), r),
        call_ensures(reconnecting_text, (i,), s),
        call_ensures(rejected_text, (reason,), t),
    ensures
        r@ == json_text(message_members(game_id@, m@)),
        s@ == json_text(reconnecting_members(i)),
        t@ == json_text(rejected_members(reason@)),
{
}

/// A word is drawn from the list, and an id is drawn as ids are.
pub proof fn law_calling_the_draws(words: &Vec<String>, word: String, id: String)
    requires
        call_ensures(draw_word, (words,), word),
        call_ensures(draw_game_id, (), id),
        words@.len() > 0,
    ensures
        call_requires(draw_word, (words,)),
        texts(words@).contains(word@),
        crate::chance::is_drawn_id(id@),
{
    assert(crate::chance::vocabulary(words@) =~= texts(words@));
}

/// A server starts without games, and a browser without a game or a place.
pub proof fn law_calling_new_server(r: ServerState, tx: u64, c: Connection)
    requires
        call_ensures(ServerState::new, (), r),
        call_ensures(Connection::new, (tx,), c),
    ensures
        forall|id: Seq<char>| !#[trigger] r@.contains_key(id),
        c.tx == tx && c.client_sender is None && c.client_id is None,
        c.wf(),
{
}

/// A server knows which games it has.
pub proof fn law_calling_has_game(server: &ServerState, id: &str, r: bool)
    requires
        call_ensures(ServerState::has_game, (server, id), r),
    ensures
        r <==> server@.contains_key(id@),
{
}

/// The effects of a list, in order.
pub open spec fn to_do(list: Seq<Effect>) -> Seq<crate::server::EffectView> {
    list.map(|i: int, e: Effect| e@)
}

/// A call has brought the tables, the connection and the effects that the message brings.
pub open spec fn has_handled(
    before: Tables,
    connection: Connection,
    m: &ClientMessage,
    client_sender: u64,
    id: Seq<char>,
    after: Tables,
    now: Connection,
    effects: Seq<Effect>,
) -> bool {
    let outcome = handled(before, connection, m@, client_sender, id);
    &&& after == outcome.games
    &&& now == outcome.connection
    &&& to_do(effects) == outcome.effects
}

/// Games and browsers are in order whenever their counters and numbers make sense, and no more is
/// asked of them.
pub proof fn law_being_in_order(g: justone::GameView, h: logic::LogicView, c: Connection)
    ensures
        g.wf() <==> {
            &&& g.users.len() <= usize::MAX
            &&& g.guess_user == 0 || g.guess_user < g.users.len()
            &&& g.score + g.words_left <= usize::MAX
        },
        h.wf() <==> {
            &&& h.users.len() <= usize::MAX
            &&& h.channels.len() == h.users.len()
            &&& h.current_user == 0 || h.current_user < h.users.len()
            &&& h.score + h.words_left <= usize::MAX
        },
        c.wf() <==> (c.client_sender is None ==> c.client_id is None),
{
}

/// A message is acted on with an id that is free, if it needs one.
pub proof fn law_calling_handle_about(
    server: &mut ServerState,
    connection: &mut Connection,
    m: &ClientMessage,
    client_sender: u64,
    id: &String,
    r: Vec<Effect>,
)
    requires
        call_ensures(ServerState::handle_about, (server, connection, m, client_sender, id), r),
        old(connection).wf(),
        crate::server::draws_id(m@) ==> !old(server)@.contains_key(id@),
    ensures
        call_requires(ServerState::handle_about, (server, connection, m, client_sender, id)),
        final(connection).wf(),
        has_handled(
            old(server)@,
            *old(connection),
            m,
            client_sender,
            id@,
            final(server)@,
            *final(connection),
            r@,
        ),
{
    assert(crate::server::effects_view(r@) =~= to_do(r@));
}

/// A player is registered as by a message of the browser.
pub proof fn law_calling_register(
    server: &mut ServerState,
    connection: &mut Connection,
    game_id: &String,
    name: &String,
    password: &String,
    client_sender: u64,
    id: &String,
    r: Vec<Effect>,
)
    requires
        call_ensures(
            ServerState::register,
            (server, connection, game_id, name, password, client_sender, id),
            r,
        ),
        game_id@.len() == 0 ==> !old(server)@.contains_key(id@),
    ensures
        call_requires(
            ServerState::register,
            (server, connection, game_id, name, password, client_sender, id),
        ),
        final(connection).wf(),
        ({
            let outcome = handled(
                old(server)@,
                *old(connection),
                crate::server_laws::registration(game_id@, name@, password@),
                client_sender,
                id@,
            );
            &&& final(server)@ == outcome.games
            &&& *final(connection) == outcome.connection
            &&& to_do(r@) == outcome.effects
        }),
{
    assert(crate::server::effects_view(r@) =~= to_do(r@));
}

/// A message is acted on with any list of drawn ids. It fails only if it needs an id and all of the
/// list are taken, and then nothing changes; otherwise the first free one counts.
pub proof fn law_calling_handle_drawn(
    server: &mut ServerState,
    connection: &mut Connection,
    m: &ClientMessage,
    client_sender: u64,
    drawn: &Vec<String>,
    r: Option<Vec<Effect>>,
)
    requires
        call_ensures(ServerState::handle_drawn, (server, connection, m, client_sender, drawn), r),
        old(connection).wf(),
    ensures
        call_requires(ServerState::handle_drawn, (server, connection, m, client_sender, drawn)),
        final(connection).wf(),
        r is None ==> {
            &&& crate::server::draws_id(m@)
            &&& forall|j: int|
                0 <= j < drawn@.len() ==> old(server)@.contains_key((#[trigger] drawn@[j])@)
            &&& final(server)@ == old(server)@
            &&& *final(connection) == *old(connection)
        },
        r is Some ==> exists|id: Seq<char>| #[trigger]
            handled(old(server)@, *old(connection), m@, client_sender, id).games == final(server)@
                && (crate::server::draws_id(m@) ==> !old(server)@.contains_key(id) && texts(
                drawn@,
            ).contains(id)) && has_handled(
                old(server)@,
                *old(connection),
                m,
                client_sender,
                id,
                final(server)@,
                *final(connection),
                r->0@,
            ),
{
    let ids = crate::server::ids_view(drawn@);
    assert(ids =~= texts(drawn@));
    if r is Some {
        assert(crate::server::effects_view(r->0@) =~= to_do(r->0@));
    }
    if crate::server::draws_id(m@) {
        let k = choose|k: Option<usize>| #[trigger]
            crate::server::is_first_free(old(server)@, ids, k) && match k {
                Some(k) => r is Some && (crate::server::Outcome {
                    games: final(server)@,
                    connection: *final(connection),
                    effects: crate::server::effects_view(r->0@),
                }) == handled(
                    old(server)@,
                    *old(connection),
                    m@,
                    client_sender,
                    ids[k as int],
                ),
                None => r is None,
            };
        if k is Some {
            let id = ids[k->0 as int];
            assert(texts(drawn@).contains(id));
            assert(handled(old(server)@, *old(connection), m@, client_sender, id).games
                == final(server)@);
        } else {
            assert forall|j: int| 0 <= j < drawn@.len() implies old(server)@.contains_key(
                (#[trigger] drawn@[j])@,
            ) by {
                assert(old(server)@.contains_key(ids[j]));
            }
        }
    } else {
        assert(handled(old(server)@, *old(connection), m@, client_sender, Seq::empty()).games
            == final(server)@);
    }
}

/// A message is acted on, with an id that is drawn and free if it needs one. It fails only if it
/// needs one and some id of that kind is taken, and then nothing changes.
pub proof fn law_calling_handle(
    server: &mut ServerState,
    connection: &mut Connection,
    m: &ClientMessage,
    client_sender: u64,
    r: Option<Vec<Effect>>,
)
    requires
        call_ensures(ServerState::handle, (server, connection, m, client_sender), r),
        old(connection).wf(),
    ensures
        call_requires(ServerState::handle, (server, connection, m, client_sender)),
        final(connection).wf(),
        r is None ==> {
            &&& crate::server::draws_id(m@)
            &&& exists|id: Seq<char>|
                crate::chance::is_drawn_id(id) && #[trigger] old(server)@.contains_key(id)
            &&& final(server)@ == old(server)@
            &&& *final(connection) == *old(connection)
        },
        r is Some ==> exists|id: Seq<char>| #[trigger]
            handled(old(server)@, *old(connection), m@, client_sender, id).games == final(server)@
                && (crate::server::draws_id(m@) ==> !old(server)@.contains_key(id)
                && crate::chance::is_drawn_id(id)) && has_handled(
                old(server)@,
                *old(connection),
                m,
                client_sender,
                id,
                final(server)@,
                *final(connection),
                r->0@,
            ),
{
    if r is Some {
        assert(crate::server::effects_view(r->0@) =~= to_do(r->0@));
        if crate::server::draws_id(m@) {
            let id = choose|id: Seq<char>|
                crate::chance::is_drawn_id(id) && !old(server)@.contains_key(id) && (
                crate::server::Outcome {
                    games: final(server)@,
                    connection: *final(connection),
                    effects: crate::server::effects_view(r->0@),
                }) == #[trigger] handled(
                    old(server)@,
                    *old(connection),
                    m@,
                    client_sender,
                    id,
                );
            assert(handled(old(server)@, *old(connection), m@, client_sender, id).games
                == final(server)@);
        } else {
            assert(handled(old(server)@, *old(connection), m@, client_sender, Seq::empty()).games
                == final(server)@);
        }
    }
}

/// The first free id of a list is found wherever there is one, and ids are drawn up to the first
/// free one or up to the limit.
pub proof fn law_calling_the_search_for_ids(
    server: &ServerState,
    drawn: &Vec<String>,
    k: Option<usize>,
    limit: usize,
    r: Vec<String>,
)
    requires
        call_ensures(ServerState::first_free, (server, drawn), k),
        call_ensures(ServerState::draw_until_free, (server, limit), r),
    ensures
        k is Some ==> {
            &&& k->0 < drawn@.len()
            &&& !server@.contains_key(drawn@[k->0 as int]@)
            &&& forall|j: int| 0 <= j < k->0 ==> server@.contains_key((#[trigger] drawn@[j])@)
        },
        k is None ==> forall|j: int|
            0 <= j < drawn@.len() ==> server@.contains_key((#[trigger] drawn@[j])@),
        forall|j: int| 0 <= j < r@.len() ==> crate::chance::is_drawn_id((#[trigger] r@[j])@),
        forall|j: int| 0 <= j < r@.len() - 1 ==> server@.contains_key((#[trigger] r@[j])@),
        r@.len() != limit ==> r@.len() > 0 && !server@.contains_key(r@.last()@),
{
    let ids = crate::server::ids_view(drawn@);
    assert forall|j: int| 0 <= j < drawn@.len() implies ids[j] == (#[trigger] drawn@[j])@ by {}
    if k is Some {
        assert forall|j: int| 0 <= j < k->0 implies server@.contains_key(
            (#[trigger] drawn@[j])@,
        ) by {
            assert(server@.contains_key(ids[j]));
        }
    } else {
        assert forall|j: int| 0 <= j < drawn@.len() implies server@.contains_key(
            (#[trigger] drawn@[j])@,
        ) by {
            assert(server@.contains_key(ids[j]));
        }
    }
    let tried = crate::server::ids_view(r@);
    assert(r@.len() == r.len());
    assert forall|j: int| 0 <= j < r@.len() implies crate::chance::is_drawn_id(
        (#[trigger] r@[j])@,
    ) by {
        assert(crate::chance::is_drawn_id(tried[j]));
    }
    assert forall|j: int| 0 <= j < r@.len() - 1 implies server@.contains_key(
        (#[trigger] r@[j])@,
    ) by {
        assert(server@.contains_key(tried[j]));
    }
}

/// A message of a game that is open finds its browser and its text. It can close the table to
/// newcomers, and changes nothing else there and no other table.
pub proof fn law_calling_forward_server_message(
    server: &mut ServerState,
    game_id: &String,
    m: &ServerMessage,
    r: Option<(u64, String)>,
)
    requires
        call_ensures(ServerState::forward_server_message, (server, game_id, m), r),
        old(server)@.contains_key(game_id@),
    ensures
        call_requires(ServerState::forward_server_message, (server, game_id, m)),
        final(server)@.contains_key(game_id@),
        final(server)@.remove(game_id@) == old(server)@.remove(game_id@),
        final(server)@[game_id@].users == old(server)@[game_id@].users,
        final(server)@[game_id@].client_sender == old(server)@[game_id@].client_sender,
        final(server)@[game_id@].started <==> old(server)@[game_id@].started
            || m@ is RoundStart,
        r is Some <==> m@.recipient() < old(server)@[game_id@].users.len(),
        r matches Some((tx, text)) ==> tx == old(server)@[game_id@].users[
        m@.recipient() as int].tx && text@ == json_text(message_members(game_id@, m@)),
{
    assert(final(server)@.remove(game_id@) =~= old(server)@.remove(game_id@));
}

/// Removing a game tells whether it was there, leaves it out, and leaves every other game in.
pub proof fn law_calling_remove_game(server: &mut ServerState, game_id: &str, r: bool)
    requires
        call_ensures(ServerState::remove_game, (server, game_id), r),
    ensures
        r <==> old(server)@.contains_key(game_id@),
        !final(server)@.contains_key(game_id@),
        forall|other: Seq<char>|
            other != game_id@ ==> (#[trigger] final(server)@.contains_key(other)
                <==> old(server)@.contains_key(other)) && (old(server)@.contains_key(other)
                ==> final(server)@[other] == old(server)@[other]),
{
}

} // verus!
