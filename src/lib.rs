//! Verified cores of small Unix text tools: collapsing runs of equal lines,
//! counting lines, words, bytes and characters, reading positive counts,
//! numbering lines, and the report formats that go with them.

use vstd::prelude::*;

pub mod catr;
pub mod findr;
pub mod headr;
pub mod layout;
pub mod uniqr;
pub mod wcr;

verus! {

} // verus!
