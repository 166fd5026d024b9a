use vstd::prelude::*;
use vstd::string::StrSliceExecFns;

verus! {

/// The kinds of directory entry that a search can select.
#[derive(Debug, PartialEq, Eq, Structural, Clone, Copy)]
pub enum EntryType {
    Dir,
    File,
    Link,
}

/// The entry type that a one-letter type flag names: `d`, `f` or `l`.
pub open spec fn flag_type(s: Seq<char>) -> Option<EntryType> {
    if s == seq!['d'] {
        Some(EntryType::Dir)
    } else if s == seq!['f'] {
        Some(EntryType::File)
    } else if s == seq!['l'] {
        Some(EntryType::Link)
    } else {
        None
    }
}

impl EntryType {
    /// Reads a type flag; `None` for anything but `d`, `f` or `l`.
    pub fn from_flag(s: &str) -> (r: Option<EntryType>)
        ensures
            r == flag_type(s@),
    {
        if s.unicode_len() != 1 {
            proof {
                assert(s@ != seq!['d'] && s@ != seq!['f'] && s@ != seq!['l']);
            }
            return None;
        }
        let c = s.get_char(0);
        proof {
            assert(s@ =~= seq![c]);
        }
        if c == 'd' {
            Some(EntryType::Dir)
        } else if c == 'f' {
            Some(EntryType::File)
        } else if c == 'l' {
            Some(EntryType::Link)
        } else {
            proof {
                assert(seq![c] != seq!['d'] && seq![c] != seq!['f'] && seq![c] != seq!['l']) by {
                    assert(seq![c][0] == c);
                    assert(seq!['d'][0] == 'd');
                    assert(seq!['f'][0] == 'f');
                    assert(seq!['l'][0] == 'l');
                }
            }
            None
        }
    }
}

} // verus!
