//! Installed packages, as the application lists them.

use vstd::prelude::*;

verus! {

/// One installed package: what its application data says of it.
#[derive(Clone, Debug)]
pub struct FpRef {
    pub name: String,
    pub summary: String,
    pub version: String,
}

/// The text that is there, or the empty text.
pub open spec fn text_or_empty(text: Option<String>) -> Seq<char> {
    match text {
        Some(s) => s@,
        None => Seq::empty(),
    }
}

impl FpRef {
    /// The entry for a package whose application data gives the name, the
    /// summary and the version, as far as it gives them. What is missing is
    /// empty.
    pub fn from_appdata(name: Option<String>, summary: Option<String>, version: Option<String>) -> (entry:
        FpRef)
        ensures
            entry.name@ == text_or_empty(name),
            entry.summary@ == text_or_empty(summary),
            entry.version@ == text_or_empty(version),
    {
        FpRef {
            name: match name {
                Some(s) => s,
                None => String::new(),
            },
            summary: match summary {
                Some(s) => s,
                None => String::new(),
            },
            version: match version {
                Some(s) => s,
                None => String::new(),
            },
        }
    }
}

} // verus!
