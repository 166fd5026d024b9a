use vstd::prelude::*;
use vstd::std_specs::iter::IteratorSpec;
use vstd::string::{StrSliceExecFns, StringExecFns, StringSliceAdditionalSpecFns};
use crate::layout::{decimal, diagnostic, pad_left, right_aligned};

verus! {

broadcast use vstd::string::axiom_spec_iter;

/// The four counts of one input: lines, whitespace-separated words, bytes of
/// its UTF-8 encoding, and characters.
#[derive(Debug, PartialEq, Eq, Structural)]
pub struct FileInfo {
    pub num_lines: usize,
    pub num_words: usize,
    pub num_bytes: usize,
    pub num_chars: usize,
}

/// The characters with the Unicode White_Space property.
pub open spec fn is_space(c: char) -> bool {
    let u = c as u32;
    ||| 0x9 <= u <= 0xD
    ||| u == 0x20
    ||| u == 0x85
    ||| u == 0xA0
    ||| u == 0x1680
    ||| 0x2000 <= u <= 0x200A
    ||| u == 0x2028
    ||| u == 0x2029
    ||| u == 0x202F
    ||| u == 0x205F
    ||| u == 0x3000
}

/// Whether `c` is white space, as `char::is_whitespace` decides it.
pub fn is_space_char(c: char) -> (r: bool)
    ensures
        r == is_space(c),
{
    let u = c as u32;
    (0x9 <= u && u <= 0xD) || u == 0x20 || u == 0x85 || u == 0xA0 || u == 0x1680 || (0x2000 <= u
        && u <= 0x200A) || u == 0x2028 || u == 0x2029 || u == 0x202F || u == 0x205F || u == 0x3000
}

/// Whether position `i` of `s` starts a word: a non-space character that is
/// first or follows a space.
pub open spec fn starts_word(s: Seq<char>, i: int) -> bool {
    !is_space(s[i]) && (i == 0 || is_space(s[i - 1]))
}

/// The number of maximal runs of non-space characters in `s`.
pub open spec fn word_count(s: Seq<char>) -> nat
    decreases s.len(),
{
    if s.len() == 0 {
        0
    } else {
        word_count(s.drop_last()) + if starts_word(s, s.len() - 1) {
            1nat
        } else {
            0nat
        }
    }
}

/// The number of line feeds in `s`.
pub open spec fn newline_count(s: Seq<char>) -> nat
    decreases s.len(),
{
    if s.len() == 0 {
        0
    } else {
        newline_count(s.drop_last()) + if s.last() == '\n' {
            1nat
        } else {
            0nat
        }
    }
}

/// The number of lines of `s`: each line feed ends one, and text after the
/// last line feed makes one more.
pub open spec fn line_count(s: Seq<char>) -> nat {
    newline_count(s) + if s.len() > 0 && s.last() != '\n' {
        1nat
    } else {
        0nat
    }
}

proof fn lemma_counts_bounded(s: Seq<char>)
    ensures
        word_count(s) <= s.len(),
        newline_count(s) <= s.len(),
    decreases s.len(),
{
    if s.len() > 0 {
        lemma_counts_bounded(s.drop_last());
    }
}

/// Counts the lines, words, bytes and characters of a text.
pub fn count(text: &str) -> (r: FileInfo)
    ensures
        r.num_lines == line_count(text@),
        r.num_words == word_count(text@),
        r.num_bytes == text.spec_bytes().len(),
        r.num_chars == text@.len(),
{
    let num_chars = text.unicode_len();
    let num_bytes = text.as_bytes().len();
    let ghost s = text@;
    let mut num_words: usize = 0;
    let mut num_newlines: usize = 0;
    let mut prev_space = true;
    let mut last_is_newline = false;
    let mut i: usize = 0;
    let mut it = text.chars();
    while i < num_chars
        invariant
            num_chars == s.len(),
            i <= s.len(),
            it.remaining() == s.skip(i as int),
            num_words == word_count(s.take(i as int)),
            num_newlines == newline_count(s.take(i as int)),
            prev_space == (i == 0 || is_space(s[i - 1])),
            last_is_newline == (i > 0 && s[i - 1] == '\n'),
            it.obeys_prophetic_iter_laws(),
        decreases s.len() - i,
    {
        let ghost t = s.take(i + 1);
        proof {
            assert(t.drop_last() =~= s.take(i as int));
            lemma_counts_bounded(s.take(i as int));
            assert(s.take(i as int).len() == i);
        }
        let next = it.next();
        let c = match next {
            Some(c) => c,
            None => {
                proof {
                    assert(false);
                }
                ' '
            },
        };
        assert(c == s[i as int]);
        let space = is_space_char(c);
        if !space && prev_space {
            num_words = num_words + 1;
        }
        if c == '\n' {
            num_newlines = num_newlines + 1;
        }
        proof {
            assert(s.skip(i as int).drop_first() =~= s.skip(i + 1));
            assert(t.last() == c);
            if i > 0 {
                assert(t[i - 1] == s[i - 1]);
            }
        }
        prev_space = space;
        last_is_newline = c == '\n';
        i = i + 1;
    }
    proof {
        assert(s.take(i as int) =~= s);
        if s.len() > 0 {
            lemma_counts_bounded(s.drop_last());
        }
    }
    let num_lines = if num_chars > 0 && !last_is_newline {
        num_newlines + 1
    } else {
        num_newlines
    };
    FileInfo { num_lines, num_words, num_bytes, num_chars }
}

/// What to report: the inputs to count, and which of the four counts to show.
#[derive(Debug)]
pub struct Config {
    pub files: Vec<String>,
    pub lines: bool,
    pub words: bool,
    pub bytes: bool,
    pub chars: bool,
}

impl Config {
    /// The selection asked for; when no count is asked for, lines, words and
    /// bytes.
    pub fn new(files: Vec<String>, lines: bool, words: bool, bytes: bool, chars: bool) -> (r:
        Config)
        ensures
            r.files@ == files@,
            !lines && !words && !bytes && !chars ==> r.lines && r.words && r.bytes && !r.chars,
            lines || words || bytes || chars ==> r.lines == lines && r.words == words && r.bytes
                == bytes && r.chars == chars,
    {
        if !lines && !words && !bytes && !chars {
            Config { files, lines: true, words: true, bytes: true, chars: false }
        } else {
            Config { files, lines, words, bytes, chars }
        }
    }
}

impl FileInfo {
    /// The counts of two inputs added together, or `None` where a sum would
    /// not fit in a `usize`.
    pub fn add(&self, other: &FileInfo) -> (r: Option<FileInfo>)
        ensures
            match r {
                Some(t) => t.num_lines == self.num_lines + other.num_lines && t.num_words
                    == self.num_words + other.num_words && t.num_bytes == self.num_bytes
                    + other.num_bytes && t.num_chars == self.num_chars + other.num_chars,
                None => self.num_lines + other.num_lines > usize::MAX || self.num_words
                    + other.num_words > usize::MAX || self.num_bytes + other.num_bytes
                    > usize::MAX || self.num_chars + other.num_chars > usize::MAX,
            },
    {
        if self.num_lines > usize::MAX - other.num_lines || self.num_words > usize::MAX
            - other.num_words || self.num_bytes > usize::MAX - other.num_bytes || self.num_chars
            > usize::MAX - other.num_chars {
            None
        } else {
            Some(
                FileInfo {
                    num_lines: self.num_lines + other.num_lines,
                    num_words: self.num_words + other.num_words,
                    num_bytes: self.num_bytes + other.num_bytes,
                    num_chars: self.num_chars + other.num_chars,
                },
            )
        }
    }
}

/// One count in its report column: right-aligned in eight characters.
pub open spec fn column(n: usize) -> Seq<char> {
    pad_left(decimal(n as nat), 8)
}

/// The report line for one input: the selected counts in the order lines,
/// words, then characters or else bytes, followed by a space and the name,
/// except for standard input (`-`).
pub open spec fn report_line(info: FileInfo, lines: bool, words: bool, bytes: bool, chars: bool, name: Seq<char>) -> Seq<char> {
    (if lines { column(info.num_lines) } else { Seq::empty() })
    + (if words { column(info.num_words) } else { Seq::empty() })
    + (if chars { column(info.num_chars) } else if bytes { column(info.num_bytes) } else { Seq::empty() })
    + (if name != seq!['-'] { seq![' '] + name } else { Seq::empty() })
}

/// Formats the report line for one input (without its line break).
pub fn render(info: &FileInfo, config: &Config, filename: &str) -> (r: String)
    ensures
        r@ == report_line(*info, config.lines, config.words, config.bytes, config.chars, filename@),
{
    let mut out = String::new();
    let ghost empty = Seq::<char>::empty();
    if config.lines {
        out.append(right_aligned(info.num_lines, 8).as_str());
    }
    let ghost a = out@;
    if config.words {
        out.append(right_aligned(info.num_words, 8).as_str());
    }
    let ghost b = out@;
    if config.chars {
        out.append(right_aligned(info.num_chars, 8).as_str());
    } else if config.bytes {
        out.append(right_aligned(info.num_bytes, 8).as_str());
    }
    let ghost c = out@;
    let stdin = filename.unicode_len() == 1 && filename.get_char(0) == '-';
    proof {
        if filename@.len() == 1 {
            assert(stdin == (filename@ =~= seq!['-']));
        } else {
            assert(filename@ != seq!['-']);
        }
    }
    if !stdin {
        proof {
            reveal_strlit(" ");
        }
        out.append(" ");
        out.append(filename);
        proof {
            assert(out@ =~= c + (seq![' '] + filename@));
        }
    } else {
        proof {
            assert(out@ =~= c + empty);
        }
    }
    proof {
        assert(a =~= (if config.lines { column(info.num_lines) } else { empty }));
        assert(b =~= a + (if config.words { column(info.num_words) } else { empty }));
    }
    out
}

/// The closing line of a report: the totals under the name `total`, written
/// only when more than one input was named.
pub fn render_total(total: &FileInfo, config: &Config) -> (r: Option<String>)
    ensures
        r is Some <==> config.files@.len() > 1,
        r is Some ==> r->0@ == report_line(
            *total,
            config.lines,
            config.words,
            config.bytes,
            config.chars,
            seq!['t', 'o', 't', 'a', 'l'],
        ),
{
    if config.files.len() > 1 {
        proof {
            reveal_strlit("total");
        }
        Some(render(total, config, "total"))
    } else {
        None
    }
}

/// The counts that `count` gives for a text.
pub open spec fn counts_of(text: Seq<char>) -> FileInfo {
    FileInfo {
        num_lines: line_count(text) as usize,
        num_words: word_count(text) as usize,
        num_bytes: vstd::utf8::encode_utf8(text).len() as usize,
        num_chars: text.len() as usize,
    }
}

/// A line of output: a report line for standard output, or a diagnostic for
/// the error channel.
#[derive(Debug, PartialEq, Eq)]
pub enum Emit {
    Report(String),
    Diagnostic(String),
}

/// Handles one named input: either its text, or the reason it could not be
/// opened or read. A failure gives a diagnostic that names the input and
/// leaves the totals as they were, so the next input is handled as usual.
/// Text gives its report line and adds its counts to the totals; `None` where
/// a total would not fit in a `usize`.
pub fn process_input(config: &Config, total: &FileInfo, name: &str, input: &Result<String, String>)
    -> (r: Option<(FileInfo, Emit)>)
    ensures
        match input {
            Err(reason) => r is Some && (r->0).0 == *total && (r->0).1 is Diagnostic
                && (r->0).1->Diagnostic_0@ == name@ + seq![':', ' '] + reason@,
            Ok(text) => {
                let c = counts_of(text@);
                &&& r is None <==> (total.num_lines + c.num_lines > usize::MAX || total.num_words
                    + c.num_words > usize::MAX || total.num_bytes + c.num_bytes > usize::MAX
                    || total.num_chars + c.num_chars > usize::MAX)
                &&& r is Some ==> {
                    &&& (r->0).0.num_lines == total.num_lines + c.num_lines
                    &&& (r->0).0.num_words == total.num_words + c.num_words
                    &&& (r->0).0.num_bytes == total.num_bytes + c.num_bytes
                    &&& (r->0).0.num_chars == total.num_chars + c.num_chars
                    &&& (r->0).1 is Report
                    &&& (r->0).1->Report_0@ == report_line(
                        c,
                        config.lines,
                        config.words,
                        config.bytes,
                        config.chars,
                        name@,
                    )
                }
            },
        },
{
    match input {
        Err(reason) => {
            let d = diagnostic(name, reason.as_str());
            Some((FileInfo { ..*total }, Emit::Diagnostic(d)))
        },
        Ok(text) => {
            let info = count(text.as_str());
            match total.add(&info) {
                Some(t) => Some((t, Emit::Report(render(&info, config, name)))),
                None => None,
            }
        },
    }
}

} // verus!
