//! A conversation session with a chat-completion provider: the transcript of
//! turns, the check of the provider credentials, the request built from the
//! transcript, and the loop that reads a prompt, streams the answer and
//! records both, as a state machine driven by events.

pub mod credentials;
pub mod provider;
pub mod session;
pub mod text;
pub mod transcript;
pub mod turn;

pub use credentials::{Credentials, CredentialsError};
pub use provider::{request_for, to_message};
pub use session::{Action, Event, Phase, Session, BANNER, DEFAULT_TURN_LIMIT, ERROR_PREFIX, MODEL};
pub use text::trim_trailing;
pub use transcript::{Transcript, SYSTEM_PROMPT};
pub use turn::{Role, Turn};
