//! The error type of the library.
use vstd::prelude::*;

verus! {

/// `std::io::Error`, carried through unchanged.
#[verifier::external_type_specification]
#[verifier::external_body]
pub struct ExIoError(std::io::Error);

/// `mongodb::error::Error`, carried through unchanged.
#[verifier::external_type_specification]
#[verifier::external_body]
pub struct ExMongoError(mongodb::error::Error);

/// `log::SetLoggerError`, carried through unchanged.
#[verifier::external_type_specification]
#[verifier::external_body]
pub struct ExSetLoggerError(log::SetLoggerError);

/// Everything that can go wrong in a run or a query.
#[derive(Debug)]
pub enum BlessError {
    /// I/O failure.
    Io(std::io::Error),
    /// MongoDB failure.
    Mongo(mongodb::error::Error),
    /// The global logger could not be installed.
    Logger(log::SetLoggerError),
    /// A request the library refuses, with the message shown to the user.
    Config(String),
    /// A remote-session failure, with its message.
    Rpc(String),
}

/// The message of a `Config` error, if it is one.
pub open spec fn config_message(e: BlessError) -> Option<Seq<char>> {
    match e {
        BlessError::Config(m) => Some(m@),
        _ => None,
    }
}

} // verus!
