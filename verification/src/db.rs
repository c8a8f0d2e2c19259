//! Reading the MongoDB connection string.
use vstd::prelude::*;
use crate::error::{config_message, BlessError};
use crate::text::{chars_of, is_prefix, starts_with};

verus! {

/// The refusal when no connection string is configured.
pub open spec fn missing_uri_message() -> Seq<char> {
    "MONGODB_URI environment variable not set"@
}

/// A connection string and whether it names an SRV record
/// (`mongodb+srv://...`), which is resolved through a public DNS resolver.
#[derive(Clone, Debug)]
pub struct MongoUri {
    pub uri: String,
    pub srv: bool,
}

/// The connection string taken from the value of `MONGODB_URI`; a `Config`
/// error when the variable is not set.
pub fn mongodb_uri(var: Option<&str>) -> (r: Result<MongoUri, BlessError>)
    ensures
        match r {
            Ok(u) => var matches Some(v) && u.uri@ == v@ && u.srv == is_prefix(v@, "mongodb+srv"@),
            Err(e) => var is None && config_message(e) == Some(missing_uri_message()),
        },
{
    match var {
        None => Err(BlessError::Config("MONGODB_URI environment variable not set".to_owned())),
        Some(v) => {
            let c = chars_of(v);
            let p = chars_of("mongodb+srv");
            Ok(MongoUri { uri: v.to_owned(), srv: starts_with(&c, &p) })
        },
    }
}

} // verus!
