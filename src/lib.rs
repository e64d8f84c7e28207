//! An embeddable mail-submission protocol engine for exercising mail clients
//! against a real endpoint.
//!
//! The library holds the per-connection session state machine, the command
//! parser and dispatcher, the data-phase collector, the reply model and the
//! error-to-reply mapping. Accepting connections and moving bytes is left to
//! the caller.

pub mod commands;
pub mod delivery;
pub mod email;
pub mod error;
pub mod response;
pub mod server;
pub mod session;
pub mod text;

pub use commands::SmtpCommandHandler;
pub use email::Email;
pub use error::{SmtpError, SmtpLimits};
pub use response::{reply_wire, SmtpResponse};
pub use server::{LineOutcome, SmtpServer};
pub use session::{SmtpSession, SmtpState};
