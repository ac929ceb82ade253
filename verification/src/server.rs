//! The games of a server, and the players who connect to them.
use vstd::hash_map::StringHashMap;
use vstd::prelude::*;

use crate::chance::draw_game_id;
use crate::chance::is_drawn_id;
use crate::justone;
use crate::justone::ServerMessage;
use crate::messages::ServerMessageView;
use crate::wire::json_text;
use crate::wire::message_members;
use crate::wire::message_text;
use crate::wire::reconnecting_members;
use crate::wire::reconnecting_text;
use crate::wire::rejected_members;
use crate::wire::rejected_text;

verus! {

/// After so many seconds a game counts as abandoned, and is told to stop.
pub const ABANDONED_AFTER: u64 = 5400;

/// So many ids are drawn before they are set aside, if none of them is free.
pub const DRAWS_AT_A_TIME: usize = 64;

/// A player at a table. `tx` numbers the channel to the player's browser.
#[derive(Debug, PartialEq)]
pub struct User {
    pub name: String,
    pub password: String,
    pub tx: u64,
}

/// The mathematical content of a [`User`].
#[verifier::ext_equal]
pub struct UserView {
    pub name: Seq<char>,
    pub password: Seq<char>,
    pub tx: u64,
}

impl View for User {
    type V = UserView;

    open spec fn view(&self) -> UserView {
        UserView { name: self.name@, password: self.password@, tx: self.tx }
    }
}

/// The content of a list of users.
pub open spec fn users_view(users: Seq<User>) -> Seq<UserView> {
    Seq::new(users.len(), |i: int| users[i]@)
}

/// A table: the players in the order of their ids. `client_sender` numbers the channel to the game.
#[derive(Debug, PartialEq)]
pub struct Game {
    /// New players are no longer accepted.
    pub started: bool,
    pub client_sender: u64,
    pub users: Vec<User>,
}

/// The mathematical content of a [`Game`].
#[verifier::ext_equal]
pub struct TableView {
    pub started: bool,
    pub client_sender: u64,
    pub users: Seq<UserView>,
}

impl View for Game {
    type V = TableView;

    open spec fn view(&self) -> TableView {
        TableView {
            started: self.started,
            client_sender: self.client_sender,
            users: users_view(self.users@),
        }
    }
}

/// A message of a browser.
#[derive(Debug, PartialEq)]
pub enum ClientMessage {
    Register { game_id: String, name: String, password: String },
    WordSubmission { word: String },
    ManualDuplicateElimination { ids: Vec<usize> },
    WordGuess { word: String },
    AcceptGuess { accept: bool },
    StartGame,
}

/// The mathematical content of a [`ClientMessage`].
#[verifier::ext_equal]
pub enum ClientMessageView {
    Register { game_id: Seq<char>, name: Seq<char>, password: Seq<char> },
    WordSubmission { word: Seq<char> },
    ManualDuplicateElimination { ids: Seq<usize> },
    WordGuess { word: Seq<char> },
    AcceptGuess { accept: bool },
    StartGame,
}

impl View for ClientMessage {
    type V = ClientMessageView;

    open spec fn view(&self) -> ClientMessageView {
        match self {
            ClientMessage::Register { game_id, name, password } => ClientMessageView::Register {
                game_id: game_id@,
                name: name@,
                password: password@,
            },
            ClientMessage::WordSubmission { word } => ClientMessageView::WordSubmission {
                word: word@,
            },
            ClientMessage::ManualDuplicateElimination { ids } =>
                ClientMessageView::ManualDuplicateElimination { ids: ids@ },
            ClientMessage::WordGuess { word } => ClientMessageView::WordGuess { word: word@ },
            ClientMessage::AcceptGuess { accept } => ClientMessageView::AcceptGuess {
                accept: *accept,
            },
            ClientMessage::StartGame => ClientMessageView::StartGame,
        }
    }
}

/// A browser that is connected. `tx` numbers the channel to it, `client_sender` the channel to the
/// game it has turned to last, and `client_id` is the player's place in a game.
#[derive(Debug, Clone, Copy, PartialEq, Eq, Structural)]
pub struct Connection {
    pub tx: u64,
    pub client_sender: Option<u64>,
    pub client_id: Option<usize>,
}

impl Connection {
    /// A player with a place has a game.
    pub open spec fn wf(self) -> bool {
        self.client_id is Some ==> self.client_sender is Some
    }

    /// A browser that has just connected.
    pub fn new(tx: u64) -> (r: Connection)
        ensures
            r == (Connection { tx, client_sender: None, client_id: None }),
            r.wf(),
    {
        Connection { tx, client_sender: None, client_id: None }
    }
}

/// Something that the server has to do.
#[derive(Debug, PartialEq)]
pub enum Effect {
    /// Start a game, forward what it sends, and tell it to stop once it counts as abandoned.
    OpenGame { game_id: String, client_sender: u64 },
    /// Send a message to a game.
    ToGame(u64, justone::ClientMessage),
    /// Send a text to a browser.
    ToClient(u64, String),
}

/// The mathematical content of an [`Effect`].
#[verifier::ext_equal]
pub enum EffectView {
    OpenGame { game_id: Seq<char>, client_sender: u64 },
    ToGame(u64, justone::ClientMessageView),
    ToClient(u64, Seq<char>),
}

impl View for Effect {
    type V = EffectView;

    open spec fn view(&self) -> EffectView {
        match self {
            Effect::OpenGame { game_id, client_sender } => EffectView::OpenGame {
                game_id: game_id@,
                client_sender: *client_sender,
            },
            Effect::ToGame(client_sender, m) => EffectView::ToGame(*client_sender, m@),
            Effect::ToClient(tx, text) => EffectView::ToClient(*tx, text@),
        }
    }
}

/// The content of a list of effects.
pub open spec fn effects_view(effects: Seq<Effect>) -> Seq<EffectView> {
    Seq::new(effects.len(), |i: int| effects[i]@)
}

/// The tables of a server, by the ids of the games.
pub type Tables = Map<Seq<char>, TableView>;

/// What comes of a message of a browser.
#[verifier::ext_equal]
pub struct Outcome {
    pub games: Tables,
    pub connection: Connection,
    pub effects: Seq<EffectView>,
}

/// The place of the first user with this name.
pub open spec fn seat_of(users: Seq<UserView>, name: Seq<char>) -> Option<usize>
    decreases users.len(),
{
    if users.len() == 0 {
        None
    } else {
        match seat_of(users.drop_last(), name) {
            Some(i) => Some(i),
            None => if users.last().name == name {
                Some((users.len() - 1) as usize)
            } else {
                None
            },
        }
    }
}

/// Why a player with the wrong password is turned away.
pub open spec fn wrong_password() -> Seq<char> {
    "the password does not match the existing player's"@
}

/// Why a new player is turned away once the game has started.
pub open spec fn too_late() -> Seq<char> {
    "the game has already started"@
}

/// A player opens a game with the id `game_id`.
pub open spec fn opened(
    games: Tables,
    connection: Connection,
    game_id: Seq<char>,
    name: Seq<char>,
    password: Seq<char>,
    client_sender: u64,
) -> Outcome {
    Outcome {
        games: games.insert(
            game_id,
            TableView {
                started: false,
                client_sender,
                users: seq![UserView { name, password, tx: connection.tx }],
            },
        ),
        connection: Connection {
            tx: connection.tx,
            client_sender: Some(client_sender),
            client_id: Some(0),
        },
        effects: seq![
            EffectView::OpenGame { game_id, client_sender },
            EffectView::ToGame(client_sender, justone::ClientMessageView::NewPlayer(name)),
        ],
    }
}

/// A player turns to the game with the id `game_id`, which is open. Someone with the name and the
/// password of a player takes that player's place; someone new gets a place at the end, unless the
/// game has started; anyone else is turned away.
pub open spec fn joined(
    games: Tables,
    connection: Connection,
    game_id: Seq<char>,
    name: Seq<char>,
    password: Seq<char>,
) -> Outcome {
    let game = games[game_id];
    let turned = Connection { client_sender: Some(game.client_sender), ..connection };
    match seat_of(game.users, name) {
        Some(i) => if game.users[i as int].password == password {
            let user = UserView { tx: connection.tx, ..game.users[i as int] };
            Outcome {
                games: games.insert(
                    game_id,
                    TableView { users: game.users.update(i as int, user), ..game },
                ),
                connection: Connection { client_id: Some(i), ..turned },
                effects: seq![
                    EffectView::ToClient(connection.tx, json_text(reconnecting_members(i))),
                    EffectView::ToGame(
                        game.client_sender,
                        justone::ClientMessageView::ResendGameState(i),
                    ),
                ],
            }
        } else {
            rejected(games, turned, wrong_password())
        },
        None => if game.started {
            rejected(games, turned, too_late())
        } else {
            let user = UserView { name, password, tx: connection.tx };
            Outcome {
                games: games.insert(game_id, TableView { users: game.users.push(user), ..game }),
                connection: Connection { client_id: Some(game.users.len() as usize), ..turned },
                effects: seq![
                    EffectView::ToGame(
                        game.client_sender,
                        justone::ClientMessageView::NewPlayer(name),
                    ),
                ],
            }
        },
    }
}

/// A player is turned away.
pub open spec fn rejected(games: Tables, connection: Connection, reason: Seq<char>) -> Outcome {
    Outcome {
        games,
        connection,
        effects: seq![EffectView::ToClient(connection.tx, json_text(rejected_members(reason)))],
    }
}

/// A player registers. `drawn_id` is the id for a game that was not given one, and `client_sender`
/// is the channel of the game if one is opened.
pub open spec fn registered(
    games: Tables,
    connection: Connection,
    game_id: Seq<char>,
    name: Seq<char>,
    password: Seq<char>,
    client_sender: u64,
    drawn_id: Seq<char>,
) -> Outcome {
    if game_id.len() == 0 {
        opened(games, connection, drawn_id, name, password, client_sender)
    } else if !games.contains_key(game_id) {
        opened(games, connection, game_id, name, password, client_sender)
    } else {
        joined(games, connection, game_id, name, password)
    }
}

/// The message to the game that a message of the player at place `i` stands for. Only the first
/// player can start the game.
pub open spec fn game_message(
    m: ClientMessageView,
    i: usize,
) -> Option<justone::ClientMessageView> {
    match m {
        ClientMessageView::Register { .. } => None,
        ClientMessageView::WordSubmission { word } => Some(
            justone::ClientMessageView::WordSubmissionResponse(i, word),
        ),
        ClientMessageView::ManualDuplicateElimination { ids } => Some(
            justone::ClientMessageView::ManualDuplicateEliminationResponse(i, ids),
        ),
        ClientMessageView::WordGuess { word } => Some(
            justone::ClientMessageView::WordGuessResponse(i, word),
        ),
        ClientMessageView::AcceptGuess { accept } => Some(
            justone::ClientMessageView::AcceptGuessResponse(i, accept),
        ),
        ClientMessageView::StartGame => if i == 0 {
            Some(justone::ClientMessageView::StartGame)
        } else {
            None
        },
    }
}

/// The messages to the games that a message of a browser stands for. Without a place in a game
/// there are none.
pub open spec fn relayed(connection: Connection, m: ClientMessageView) -> Seq<EffectView> {
    match connection.client_id {
        Some(i) => match game_message(m, i) {
            Some(message) => seq![EffectView::ToGame(connection.client_sender->0, message)],
            None => Seq::empty(),
        },
        None => Seq::empty(),
    }
}

/// What comes of a message of a browser.
pub open spec fn handled(
    games: Tables,
    connection: Connection,
    m: ClientMessageView,
    client_sender: u64,
    drawn_id: Seq<char>,
) -> Outcome {
    match m {
        ClientMessageView::Register { game_id, name, password } => registered(
            games,
            connection,
            game_id,
            name,
            password,
            client_sender,
            drawn_id,
        ),
        _ => Outcome { games, connection, effects: relayed(connection, m) },
    }
}

/// A message of a browser opens a game whose id is left to chance.
pub open spec fn draws_id(m: ClientMessageView) -> bool {
    m matches ClientMessageView::Register { game_id, .. } && game_id.len() == 0
}

/// The content of a list of ids.
pub open spec fn ids_view(ids: Seq<String>) -> Seq<Seq<char>> {
    Seq::new(ids.len(), |i: int| ids[i]@)
}

/// `r` is the place of the first of the ids that no game has, or nothing if games have them all.
pub open spec fn is_first_free(games: Tables, ids: Seq<Seq<char>>, r: Option<usize>) -> bool {
    match r {
        Some(i) => {
            &&& i < ids.len()
            &&& !games.contains_key(ids[i as int])
            &&& forall|j: int| 0 <= j < i ==> games.contains_key(#[trigger] ids[j])
        },
        None => forall|j: int| 0 <= j < ids.len() ==> games.contains_key(#[trigger] ids[j]),
    }
}

/// No game has an id that could be drawn.
pub open spec fn all_ids_free(games: Tables) -> bool {
    forall|id: Seq<char>| is_drawn_id(id) ==> !#[trigger] games.contains_key(id)
}

/// The table once the game has sent `m`: the first round starts the game.
pub open spec fn table_after(game: TableView, m: ServerMessageView) -> TableView {
    if m is RoundStart {
        TableView { started: true, ..game }
    } else {
        game
    }
}

/// Where a message of the game `game_id` goes, and as what text. A message to nobody at the table
/// goes nowhere.
pub open spec fn forwarded(
    game: TableView,
    game_id: Seq<char>,
    m: ServerMessageView,
) -> Option<(u64, Seq<char>)> {
    if m.recipient() < game.users.len() {
        Some((game.users[m.recipient() as int].tx, json_text(message_members(game_id, m))))
    } else {
        None
    }
}

/// Finds the place of the first user with this name.
fn find_seat(users: &Vec<User>, name: &String) -> (r: Option<usize>)
    ensures
        r == seat_of(users_view(users@), name@),
        r is Some ==> r->0 < users@.len(),
{
    let ghost all = users_view(users@);
    assert(all.take(0) =~= Seq::empty());
    for i in 0..users.len()
        invariant
            all == users_view(users@),
            seat_of(all.take(i as int), name@) is None,
    {
        assert(all.take(i + 1).drop_last() =~= all.take(i as int));
        if users[i].name == *name {
            proof {
                lemma_first_seat(all, name@, i as int + 1);
            }
            return Some(i);
        }
    }
    assert(all.take(users@.len() as int) =~= all);
    None
}

/// The first seat among some of the users is the first seat among all of them.
proof fn lemma_first_seat(users: Seq<UserView>, name: Seq<char>, n: int)
    requires
        0 <= n <= users.len(),
        seat_of(users.take(n), name) is Some,
    ensures
        seat_of(users, name) == seat_of(users.take(n), name),
    decreases users.len(),
{
    if n == users.len() {
        assert(users.take(n) =~= users);
    } else {
        assert(users.drop_last().take(n) =~= users.take(n));
        lemma_first_seat(users.drop_last(), name, n);
    }
}

/// Copies a list of users.
fn copy_users(users: &Vec<User>) -> (r: Vec<User>)
    ensures
        users_view(r@) == users_view(users@),
{
    let mut r: Vec<User> = Vec::new();
    for i in 0..users.len()
        invariant
            r@.len() == i,
            forall|j: int| 0 <= j < i ==> (#[trigger] r@[j])@ == users@[j]@,
    {
        r.push(
            User {
                name: users[i].name.clone(),
                password: users[i].password.clone(),
                tx: users[i].tx,
            },
        );
    }
    assert(users_view(r@) =~= users_view(users@));
    r
}

/// The games of a server.
pub struct ServerState {
    games: StringHashMap<Game>,
}

impl View for ServerState {
    type V = Tables;

    closed spec fn view(&self) -> Tables {
        self.games@.map_values(|game: Game| game@)
    }
}

impl ServerState {
    /// A server without games.
    pub fn new() -> (r: ServerState)
        ensures
            r@ == Map::<Seq<char>, TableView>::empty(),
    {
        let r = ServerState { games: StringHashMap::new() };
        assert(r@ =~= Map::<Seq<char>, TableView>::empty());
        r
    }

    /// Whether there is a game with this id.
    pub fn has_game(&self, game_id: &str) -> (r: bool)
        ensures
            r == self@.contains_key(game_id@),
    {
        self.games.contains_key(game_id)
    }

    /// Puts a table in the place of the one with the id `game_id`, or adds it.
    fn put_game(&mut self, game_id: String, game: Game)
        ensures
            final(self)@ == old(self)@.insert(game_id@, game@),
    {
        self.games.insert(game_id, game);
        assert(self@ =~= old(self)@.insert(game_id@, game@));
    }

    /// Opens a game with the id `game_id`.
    fn open_game(
        &mut self,
        connection: &mut Connection,
        game_id: &String,
        name: &String,
        password: &String,
        client_sender: u64,
    ) -> (r: Vec<Effect>)
        ensures
            (Outcome {
                games: final(self)@,
                connection: *final(connection),
                effects: effects_view(r@),
            }) == opened(
                old(self)@,
                *old(connection),
                game_id@,
                name@,
                password@,
                client_sender,
            ),
    {
        let user = User { name: name.clone(), password: password.clone(), tx: connection.tx };
        let game = Game { started: false, client_sender, users: vec![user] };
        assert(game@.users =~= seq![
            UserView { name: name@, password: password@, tx: connection.tx },
        ]);
        self.put_game(game_id.clone(), game);
        connection.client_sender = Some(client_sender);
        connection.client_id = Some(0);
        let r: Vec<Effect> = vec![
            Effect::OpenGame { game_id: game_id.clone(), client_sender },
            Effect::ToGame(client_sender, justone::ClientMessage::NewPlayer(name.clone())),
        ];
        assert(effects_view(r@) =~= seq![
            EffectView::OpenGame { game_id: game_id@, client_sender },
            EffectView::ToGame(client_sender, justone::ClientMessageView::NewPlayer(name@)),
        ]);
        r
    }

    /// Turns to the game with the id `game_id`, which is open.
    fn join_game(
        &mut self,
        connection: &mut Connection,
        game_id: &String,
        name: &String,
        password: &String,
    ) -> (r: Vec<Effect>)
        requires
            old(self)@.contains_key(game_id@),
        ensures
            (Outcome {
                games: final(self)@,
                connection: *final(connection),
                effects: effects_view(r@),
            }) == joined(old(self)@, *old(connection), game_id@, name@, password@),
    {
        let ghost before = self@;
        let game = match self.games.get(game_id.as_str()) {
            Some(game) => game,
            None => {
                assert(false);
                return Vec::new();
            },
        };
        let ghost table = game@;
        assert(before[game_id@] == table);
        let mut users: Vec<User> = copy_users(&game.users);
        let started = game.started;
        let client_sender: u64 = game.client_sender;
        connection.client_sender = Some(client_sender);
        let r: Vec<Effect>;
        match find_seat(&users, name) {
            Some(i) => {
                if users[i].password == *password {
                    users[i].tx = connection.tx;
                    connection.client_id = Some(i);
                    let seated = Game { started, client_sender, users };
                    assert(seated@.users =~= table.users.update(
                        i as int,
                        UserView { tx: connection.tx, ..table.users[i as int] },
                    ));
                    self.put_game(game_id.clone(), seated);
                    r =
                    vec![
                        Effect::ToClient(connection.tx, reconnecting_text(i)),
                        Effect::ToGame(client_sender, justone::ClientMessage::ResendGameState(i)),
                    ];
                } else {
                    r =
                    vec![
                        Effect::ToClient(
                            connection.tx,
                            rejected_text("the password does not match the existing player's"),
                        ),
                    ];
                }
            },
            None => {
                if started {
                    r =
                    vec![
                        Effect::ToClient(
                            connection.tx,
                            rejected_text("the game has already started"),
                        ),
                    ];
                } else {
                    connection.client_id = Some(users.len());
                    users.push(
                        User { name: name.clone(), password: password.clone(), tx: connection.tx },
                    );
                    let seated = Game { started, client_sender, users };
                    assert(seated@.users =~= table.users.push(
                        UserView { name: name@, password: password@, tx: connection.tx },
                    ));
                    self.put_game(game_id.clone(), seated);
                    r =
                    vec![
                        Effect::ToGame(
                            client_sender,
                            justone::ClientMessage::NewPlayer(name.clone()),
                        ),
                    ];
                }
            },
        }
        assert(effects_view(r@) =~= joined(
            before,
            *old(connection),
            game_id@,
            name@,
            password@,
        ).effects);
        r
    }

    /// Registers a player. `drawn_id` is the id for a game that was not given one, and
    /// `client_sender` is the channel of the game if one is opened.
    pub fn register(
        &mut self,
        connection: &mut Connection,
        game_id: &String,
        name: &String,
        password: &String,
        client_sender: u64,
        drawn_id: &String,
    ) -> (r: Vec<Effect>)
        requires
            game_id@.len() == 0 ==> !old(self)@.contains_key(drawn_id@),
        ensures
            (Outcome {
                games: final(self)@,
                connection: *final(connection),
                effects: effects_view(r@),
            }) == registered(
                old(self)@,
                *old(connection),
                game_id@,
                name@,
                password@,
                client_sender,
                drawn_id@,
            ),
            final(connection).wf(),
    {
        if game_id.as_str().is_empty() {
            self.open_game(connection, drawn_id, name, password, client_sender)
        } else if !self.has_game(game_id.as_str()) {
            self.open_game(connection, game_id, name, password, client_sender)
        } else {
            self.join_game(connection, game_id, name, password)
        }
    }

    /// Acts on a message of a browser. `drawn_id` is the id for a game that was not given one, and
    /// `client_sender` is the channel of the game if one is opened.
    pub fn handle_about(
        &mut self,
        connection: &mut Connection,
        m: &ClientMessage,
        client_sender: u64,
        drawn_id: &String,
    ) -> (r: Vec<Effect>)
        requires
            old(connection).wf(),
            draws_id(m@) ==> !old(self)@.contains_key(drawn_id@),
        ensures
            (Outcome {
                games: final(self)@,
                connection: *final(connection),
                effects: effects_view(r@),
            }) == handled(old(self)@, *old(connection), m@, client_sender, drawn_id@),
            final(connection).wf(),
    {
        match m {
            ClientMessage::Register { game_id, name, password } => self.register(
                connection,
                game_id,
                name,
                password,
                client_sender,
                drawn_id,
            ),
            _ => relay(connection, m),
        }
    }

    /// Finds the first of the drawn ids that is free.
    pub fn first_free(&self, drawn: &Vec<String>) -> (r: Option<usize>)
        ensures
            is_first_free(self@, ids_view(drawn@), r),
    {
        for i in 0..drawn.len()
            invariant
                forall|j: int| 0 <= j < i ==> self@.contains_key(#[trigger] ids_view(drawn@)[j]),
        {
            if !self.has_game(drawn[i].as_str()) {
                return Some(i);
            }
        }
        None
    }

    /// Draws ids until one is free, but no more than `limit` of them, and lists them all: it stops
    /// at the first free one, and not before `limit` without one.
    pub fn draw_until_free(&self, limit: usize) -> (r: Vec<String>)
        ensures
            forall|j: int| 0 <= j < r@.len() ==> is_drawn_id(#[trigger] ids_view(r@)[j]),
            ({
                ||| r@.len() > 0 && is_first_free(
                    self@,
                    ids_view(r@),
                    Some((r@.len() - 1) as usize),
                )
                ||| r@.len() == limit && is_first_free(self@, ids_view(r@), None)
            }),
    {
        let mut r: Vec<String> = Vec::new();
        for i in 0..limit
            invariant
                r@.len() == i,
                forall|j: int|
                    0 <= j < i ==> is_drawn_id(#[trigger] ids_view(r@)[j]) && self@.contains_key(
                        ids_view(r@)[j],
                    ),
        {
            let id = draw_game_id();
            let free = !self.has_game(id.as_str());
            let ghost before = ids_view(r@);
            r.push(id);
            assert(ids_view(r@) =~= before.push(id@));
            if free {
                return r;
            }
        }
        r
    }

    /// Acts on a message of a browser. A game that was not given an id gets the first of the drawn
    /// ids that is free; if there is none, nothing is done and nothing returned. `client_sender` is
    /// the channel of the game if one is opened.
    pub fn handle_drawn(
        &mut self,
        connection: &mut Connection,
        m: &ClientMessage,
        client_sender: u64,
        drawn: &Vec<String>,
    ) -> (r: Option<Vec<Effect>>)
        requires
            old(connection).wf(),
        ensures
            !draws_id(m@) ==> r is Some && (Outcome {
                games: final(self)@,
                connection: *final(connection),
                effects: effects_view(r->0@),
            }) == handled(old(self)@, *old(connection), m@, client_sender, Seq::empty()),
            draws_id(m@) ==> exists|k: Option<usize>| #[trigger]
                is_first_free(old(self)@, ids_view(drawn@), k) && match k {
                    Some(k) => r is Some && (Outcome {
                        games: final(self)@,
                        connection: *final(connection),
                        effects: effects_view(r->0@),
                    }) == handled(
                        old(self)@,
                        *old(connection),
                        m@,
                        client_sender,
                        ids_view(drawn@)[k as int],
                    ),
                    None => r is None,
                },
            r is None ==> final(self)@ == old(self)@ && *final(connection) == *old(connection),
            final(connection).wf(),
    {
        if needs_id(m) {
            match self.first_free(drawn) {
                Some(k) => {
                    let r = self.handle_about(connection, m, client_sender, &drawn[k]);
                    assert(is_first_free(old(self)@, ids_view(drawn@), Some(k)));
                    Some(r)
                },
                None => {
                    assert(is_first_free(old(self)@, ids_view(drawn@), None));
                    None
                },
            }
        } else {
            Some(self.handle_about(connection, m, client_sender, &String::new()))
        }
    }

    /// Acts on a message of a browser. `client_sender` is the channel of the game if one is opened.
    /// For a game that was not given an id, ids are drawn until one is free: nothing is done, and
    /// nothing returned, only after more draws than can be counted, and never on a server where no
    /// game has an id of the kind that is drawn.
    pub fn handle(
        &mut self,
        connection: &mut Connection,
        m: &ClientMessage,
        client_sender: u64,
    ) -> (r: Option<Vec<Effect>>)
        requires
            old(connection).wf(),
        ensures
            !draws_id(m@) ==> r is Some && (Outcome {
                games: final(self)@,
                connection: *final(connection),
                effects: effects_view(r->0@),
            }) == handled(old(self)@, *old(connection), m@, client_sender, Seq::empty()),
            draws_id(m@) && r is Some ==> exists|id: Seq<char>|
                is_drawn_id(id) && !old(self)@.contains_key(id) && (Outcome {
                    games: final(self)@,
                    connection: *final(connection),
                    effects: effects_view(r->0@),
                }) == #[trigger] handled(old(self)@, *old(connection), m@, client_sender, id),
            draws_id(m@) && all_ids_free(old(self)@) ==> r is Some,
            r is None ==> final(self)@ == old(self)@ && *final(connection) == *old(connection),
            final(connection).wf(),
    {
        for i in 0..usize::MAX
            invariant
                self@ == old(self)@,
                *connection == *old(connection),
                connection.wf(),
                !draws_id(m@) || all_ids_free(old(self)@) ==> i == 0,
        {
            let drawn: Vec<String> = if needs_id(m) {
                self.draw_until_free(DRAWS_AT_A_TIME)
            } else {
                Vec::new()
            };
            let ghost ids = ids_view(drawn@);
            assert(drawn@.len() > 0 ==> is_drawn_id(ids[0]));
            let r = self.handle_drawn(connection, m, client_sender, &drawn);
            if r.is_some() {
                proof {
                    if draws_id(m@) {
                        let k = choose|k: Option<usize>| #[trigger]
                            is_first_free(old(self)@, ids, k) && (k is Some <==> r is Some) && (
                            k is Some ==> (Outcome {
                                games: self@,
                                connection: *connection,
                                effects: effects_view(r->0@),
                            }) == handled(
                                old(self)@,
                                *old(connection),
                                m@,
                                client_sender,
                                ids[k->0 as int],
                            ));
                        assert(is_drawn_id(ids[k->0 as int]));
                    }
                }
                return r;
            }
        }
        None
    }

    /// Finds out where a message of the game `game_id` goes, and as what text. The first round
    /// starts the game.
    pub fn forward_server_message(&mut self, game_id: &String, m: &ServerMessage) -> (r: Option<
        (u64, String),
    >)
        requires
            old(self)@.contains_key(game_id@),
        ensures
            final(self)@ == old(self)@.insert(game_id@, table_after(old(self)@[game_id@], m@)),
            match r {
                Some((tx, text)) => forwarded(old(self)@[game_id@], game_id@, m@) == Some(
                    (tx, text@),
                ),
                None => forwarded(old(self)@[game_id@], game_id@, m@) is None,
            },
    {
        let ghost before = self@;
        let game = match self.games.get(game_id.as_str()) {
            Some(game) => game,
            None => {
                assert(false);
                return None;
            },
        };
        assert(before[game_id@] == game@);
        let i: usize = m.recipient();
        let r = if i < game.users.len() {
            Some((game.users[i].tx, message_text(game_id.as_str(), m)))
        } else {
            None
        };
        match m {
            ServerMessage::RoundStart(..) => {
                let started = Game {
                    started: true,
                    client_sender: game.client_sender,
                    users: copy_users(&game.users),
                };
                self.put_game(game_id.clone(), started);
            },
            _ => {
                assert(self@ =~= before.insert(game_id@, table_after(before[game_id@], m@)));
            },
        }
        r
    }

    /// Removes the game `game_id`. Returns whether there was one.
    pub fn remove_game(&mut self, game_id: &str) -> (r: bool)
        ensures
            final(self)@ == old(self)@.remove(game_id@),
            r == old(self)@.contains_key(game_id@),
    {
        let r = self.has_game(game_id);
        self.games.remove(game_id);
        assert(self@ =~= old(self)@.remove(game_id@));
        r
    }
}

/// Tells whether a message of a browser opens a game whose id is left to chance.
fn needs_id(m: &ClientMessage) -> (r: bool)
    ensures
        r == draws_id(m@),
{
    match m {
        ClientMessage::Register { game_id, .. } => game_id.as_str().is_empty(),
        _ => false,
    }
}

/// Lists the messages to the games that a message of a browser stands for.
fn relay(connection: &Connection, m: &ClientMessage) -> (r: Vec<Effect>)
    requires
        connection.wf(),
    ensures
        effects_view(r@) == relayed(*connection, m@),
{
    let mut r: Vec<Effect> = Vec::new();
    match (connection.client_id, connection.client_sender) {
        (Some(i), Some(client_sender)) => {
            match game_message_of(m, i) {
                Some(message) => {
                    r.push(Effect::ToGame(client_sender, message));
                },
                None => {},
            }
        },
        _ => {},
    }
    assert(effects_view(r@) =~= relayed(*connection, m@));
    r
}

/// Makes the message to the game that a message of the player at place `i` stands for.
fn game_message_of(m: &ClientMessage, i: usize) -> (r: Option<justone::ClientMessage>)
    ensures
        match r {
            Some(message) => game_message(m@, i) == Some(message@),
            None => game_message(m@, i) is None,
        },
{
    match m {
        ClientMessage::Register { .. } => None,
        ClientMessage::WordSubmission { word } => Some(
            justone::ClientMessage::WordSubmissionResponse(i, word.clone()),
        ),
        ClientMessage::ManualDuplicateElimination { ids } => {
            let copied: Vec<usize> = ids.clone();
            assert(copied@ =~= ids@);
            Some(justone::ClientMessage::ManualDuplicateEliminationResponse(i, copied))
        },
        ClientMessage::WordGuess { word } => Some(
            justone::ClientMessage::WordGuessResponse(i, word.clone()),
        ),
        ClientMessage::AcceptGuess { accept } => Some(
            justone::ClientMessage::AcceptGuessResponse(i, *accept),
        ),
        ClientMessage::StartGame => if i == 0 {
            Some(justone::ClientMessage::StartGame)
        } else {
            None
        },
    }
}

} // verus!
