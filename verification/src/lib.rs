//! An inbound SMTP protocol engine: a line-driven state machine that turns
//! the commands and data lines of one mail transaction into structured
//! events, with the replies that each step owes the peer.

pub mod address;
pub mod dialog;
pub mod email;
pub mod event;
pub mod handler;
pub mod non_empty_vec;
pub mod parser;
pub mod text;
pub mod theorems;
pub mod transaction;
pub mod wellformed;

pub use address::{AddressError, Mailbox};
pub use dialog::MessageParserState;
pub use email::NewEmail;
pub use event::{Message, MessageParserError, MessageParserEvent};
pub use handler::{HandlerAction, Reply, SmtpHandler};
pub use non_empty_vec::NonEmptyVec;
pub use parser::MessageParser;
pub use transaction::Transaction;
