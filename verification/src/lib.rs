//! The rules of a desktop chat application: a store of conversations and
//! messages, the turn that takes a user's message to a model and stores the
//! reply, the exchange with the model endpoint, and the reading of an
//! external tool's output line by line.
//!
//! The library does no input or output. It takes the time, the answer of the
//! endpoint and the end of a process as values, and it says what to store,
//! what to send and what to report.
//!
//! - [`store`] holds the conversations, messages and settings; [`store_model`]
//!   says what each operation makes of them, and [`store_laws`] what holds of
//!   that.
//! - [`turn`] is one turn of a conversation, in the two parts between which
//!   the model is called.
//! - [`chat`] and [`status`] say what a chat completion sends and what its
//!   answer means.
//! - [`lines`] splits the output of a process into lines.
//! - [`ollama`] and [`modelfile`] hold the rules around the external model
//!   tool and its description files.
//! - [`models`], [`error`] and [`text`] hold the records, the failures and
//!   the handling of text that the others share.
//! - [`trusted`] holds the few calls into code that is not verified here.

pub mod chat;
pub mod error;
pub mod lines;
pub mod modelfile;
pub mod models;
pub mod ollama;
pub mod status;
pub mod store;
pub mod store_laws;
pub mod store_model;
pub mod text;
pub mod trusted;
pub mod turn;
