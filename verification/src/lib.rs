//! A typing-speed trainer: the per-word input state machine, the keystroke
//! log, the session engine and the statistics replay, with every item proved
//! against its contract.

pub mod game;
pub mod history;
pub mod input;
pub mod key;
pub mod replay;
pub mod statistics;
pub mod vocabulary;

pub use game::Action;
pub use game::Game;
pub use game::GameMode;
pub use game::Status;
pub use history::History;
pub use input::Input;
pub use input::Span;
pub use input::Style;
pub use key::Key;
pub use statistics::Ratio;
pub use statistics::Statistics;
