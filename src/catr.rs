use vstd::prelude::*;
use vstd::string::{StrSliceExecFns, StringExecFns};
use crate::layout::{decimal, pad_left, right_aligned};

verus! {

/// The inputs to print (`-` for standard input) and how to number their lines.
#[derive(Debug)]
pub struct Config {
    pub files: Vec<String>,
    pub number_lines: bool,
    pub number_nonblank_lines: bool,
}

/// A line after its number, right-aligned in six characters, and a tab.
pub open spec fn numbered(n: nat, line: Seq<char>) -> Seq<char> {
    pad_left(decimal(n), 6) + seq!['\t'] + line
}

/// Formats the line at zero-based position `line_num` of its input.
/// `last_num` is the number given to the last non-blank line; it advances
/// when a non-blank line is numbered.
pub fn format_line(config: &Config, line_num: usize, last_num: &mut usize, line: &str) -> (r:
    String)
    requires
        config.number_lines ==> line_num < usize::MAX,
        !config.number_lines && config.number_nonblank_lines ==> *old(last_num) < usize::MAX,
    ensures
        config.number_lines ==> r@ == numbered((line_num + 1) as nat, line@) && *final(last_num) == *old(
            last_num,
        ),
        !config.number_lines && config.number_nonblank_lines && line@.len() == 0 ==> r@
            == Seq::<char>::empty() && *final(last_num) == *old(last_num),
        !config.number_lines && config.number_nonblank_lines && line@.len() > 0 ==> r@
            == numbered((*old(last_num) + 1) as nat, line@) && *final(last_num) == *old(last_num) + 1,
        !config.number_lines && !config.number_nonblank_lines ==> r@ == line@ && *final(last_num)
            == *old(last_num),
{
    proof {
        reveal_strlit("\t");
    }
    if config.number_lines {
        let mut out = right_aligned(line_num + 1, 6);
        out.append("\t");
        out.append(line);
        out
    } else if config.number_nonblank_lines {
        if line.is_empty() {
            String::new()
        } else {
            *last_num = *last_num + 1;
            let mut out = right_aligned(*last_num, 6);
            out.append("\t");
            out.append(line);
            out
        }
    } else {
        String::from_str(line)
    }
}

} // verus!
