//! Thank-you notes for command line tools.
//!
//! A note names a tool and may carry a few words. This library holds what a
//! service that collects such notes has to get right, and proves it:
//!
//! - `message` and `validation`: the values on the wire and the rules a
//!   note has to meet;
//! - `table` and `store`: the table the notes are kept in, as a mathematical
//!   value and as a structure in memory, with the count of a tool, the
//!   leaderboard and the notes of a tool;
//! - `routes`, `api` and `reply`: where a request goes, what is to be done
//!   for it, and what it is answered with;
//! - `client` and `spa`: what the command line client and the page in the
//!   browser decide on their side;
//! - `decimal`: numbers written out as text.
//!
//! Reading sockets, talking to a database and drawing a page are left to the
//! programs that use the library.

pub mod api;
pub mod client;
pub mod decimal;
mod leaderboard;
pub mod message;
pub mod reply;
pub mod routes;
pub mod spa;
pub mod store;
pub mod table;
pub mod validation;

pub use message::{ThankYouDetail, ThankYouMessage, ThankYouStats};
