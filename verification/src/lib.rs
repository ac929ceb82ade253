//! Rules and state of the word game *Just One*.
pub mod announce;
pub mod call_laws;
pub mod chance;
pub mod cli;
pub mod cli_laws;
pub mod hint_laws;
pub mod justone;
pub mod laws;
pub mod logic;
pub mod logic_laws;
pub mod logic_round_laws;
pub mod messages;
pub mod players;
pub mod round_laws;
pub mod rounds;
pub mod server;
pub mod server_laws;
pub mod server_step_laws;
pub mod text;
pub mod text_laws;
pub mod view_laws;
pub mod wire;
pub mod wire_laws;
