//! References to source objects such as `file:/roms/game.bin` or
//! `zip:/roms/set.zip#game.bin`.
use vstd::prelude::*;

use crate::model::error::IoError;
use crate::text::{after_last, find_last, last_index_of, string_from_range, chars_of, IntoText};

verus! {

/// A textual reference to a source object.
#[derive(Debug, PartialEq, Eq, Hash)]
pub struct SourceRef(pub String);

/// The file name a reference designates: the entry after `#` when there is one,
/// then the last `/`-separated segment; a reference with neither drops its scheme.
pub open spec fn spec_file_name(s: Seq<char>) -> Seq<char> {
    let t = after_last(s, '#');
    if last_index_of(s, '#') == -1 && last_index_of(t, '/') == -1 {
        after_last(s, ':')
    } else {
        after_last(t, '/')
    }
}

impl Clone for SourceRef {
    fn clone(&self) -> (r: Self)
        ensures
            r == *self,
    {
        SourceRef(self.0.clone())
    }
}

impl SourceRef {
    pub fn new<S: IntoText>(value: S) -> (r: Self)
        ensures
            r.0@ == value.text(),
    {
        SourceRef(value.into_text())
    }

    pub open spec fn view(&self) -> Seq<char> {
        self.0@
    }

    /// Whether two references are the same text.
    pub fn same(&self, other: &SourceRef) -> (r: bool)
        ensures
            r == (self.0@ == other.0@),
    {
        self.0 == other.0
    }

    pub fn file_name(&self) -> (r: String)
        ensures
            r@ == spec_file_name(self.0@),
    {
        let chars = chars_of(self.0.as_str());
        let n = chars.len();
        let hash = find_last(&chars, '#');
        let start: usize = match hash {
            Some(i) => i + 1,
            None => 0,
        };
        let tail = string_from_range(&chars, start, chars.len());
        let tail_chars = chars_of(tail.as_str());
        let slash = find_last(&tail_chars, '/');
        match (hash, slash) {
            (None, None) => {
                assert(tail_chars@ == after_last(self.0@, '#'));
        let colon = find_last(&chars, ':');
                let from: usize = match colon {
                    Some(i) => i + 1,
                    None => 0,
                };
                string_from_range(&chars, from, chars.len())
            },
            _ => {
                let from: usize = match slash {
                    Some(i) => i + 1,
                    None => 0,
                };
                string_from_range(&tail_chars, from, tail_chars.len())
            },
        }
    }

    /// The reference text.
    pub fn to_string(&self) -> (r: String)
        ensures
            r@ == self.0@,
    {
        self.0.clone()
    }
}

/// Resolves source references against the world outside the library (files, archives).
pub trait SourceResolver {
    /// The length in bytes of the object that `source` designates.
    fn source_len(&self, source: &SourceRef) -> Result<u64, IoError>;
}

} // verus!
