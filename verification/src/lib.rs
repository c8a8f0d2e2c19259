//! Core logic of `bless`: argument grammar, log-target naming, run-file
//! discovery and lookup, storage selection and session bookkeeping.
pub mod text;
pub mod cli;
pub mod logger;
pub mod storage_backends;
pub mod error;
pub mod query;
pub mod mongo_query;
pub mod rpc;
pub mod run;
pub mod db;
