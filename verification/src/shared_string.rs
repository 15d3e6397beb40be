//! The shared-string table: an ordered pool of interned strings that cell
//! records reference by zero-based position.

use vstd::prelude::*;

verus! {

/// One interned string; an absent text reads as the empty string.
#[derive(Debug, Clone, Default)]
pub struct SharedString {
    pub t: Option<String>,
}

impl SharedString {
    /// The text this entry holds.
    pub open spec fn spec_str(&self) -> Seq<char> {
        match self.t {
            Some(s) => s@,
            None => Seq::empty(),
        }
    }

    /// The stored text, the empty string where none was stored.
    pub fn as_str(&self) -> (r: &str)
        ensures
            r@ == self.spec_str(),
    {
        match &self.t {
            Some(s) => s.as_str(),
            None => {
                let e = "";
                proof {
                    reveal_strlit("");
                    assert(e@ =~= Seq::<char>::empty());
                }
                e
            },
        }
    }
}

/// The table of shared strings of one document.
#[derive(Debug, Clone, Default)]
pub struct SharedStringsPart {
    pub count: usize,
    pub unique_count: usize,
    pub strings: Option<Vec<SharedString>>,
}

impl SharedStringsPart {
    /// The text at `idx`, or nothing when `idx` lies outside the table.
    pub open spec fn spec_get(&self, idx: int) -> Option<Seq<char>> {
        match self.strings {
            Some(v) => if 0 <= idx < v@.len() {
                Some(v@[idx].spec_str())
            } else {
                None
            },
            None => None,
        }
    }

    /// The stored text at `idx`: exactly the table entry when the index is
    /// in range, nothing otherwise.
    pub fn get_shared_string(&self, idx: usize) -> (r: Option<&str>)
        ensures
            r is Some <==> self.spec_get(idx as int) is Some,
            r matches Some(s) ==> self.spec_get(idx as int) == Some(s@),
    {
        match &self.strings {
            Some(v) => {
                if idx < v.len() {
                    Some(v[idx].as_str())
                } else {
                    None
                }
            },
            None => None,
        }
    }
}


} // verus!
