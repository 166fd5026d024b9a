use vstd::prelude::*;
use vstd::string::StringExecFns;
use crate::layout::{decimal, pad_left, right_aligned};

verus! {

/// A maximal block of consecutive identical lines: the line and how many
/// times it occurred in a row.
#[derive(Debug)]
pub struct Run {
    pub line: String,
    pub count: usize,
}

impl Run {
    pub open spec fn view(&self) -> (Seq<char>, nat) {
        (self.line@, self.count as nat)
    }
}

/// The text of each line of a sequence.
pub open spec fn line_views(v: Seq<String>) -> Seq<Seq<char>> {
    v.map_values(|s: String| s@)
}

/// The (line, count) pairs of a sequence of runs.
pub open spec fn run_views(v: Seq<Run>) -> Seq<(Seq<char>, nat)> {
    v.map_values(|r: Run| r@)
}

/// The runs of `lines`: one (line, count) pair per maximal block of
/// consecutive equal lines, in input order.
pub open spec fn runs_of(lines: Seq<Seq<char>>) -> Seq<(Seq<char>, nat)>
    decreases lines.len(),
{
    if lines.len() == 0 {
        Seq::empty()
    } else {
        let prev = runs_of(lines.drop_last());
        let l = lines.last();
        if prev.len() > 0 && prev.last().0 == l {
            prev.update(prev.len() - 1, (l, prev.last().1 + 1))
        } else {
            prev.push((l, 1nat))
        }
    }
}

/// The sum of the counts of a sequence of runs.
pub open spec fn total_count(rs: Seq<(Seq<char>, nat)>) -> nat
    decreases rs.len(),
{
    if rs.len() == 0 {
        0
    } else {
        total_count(rs.drop_last()) + rs.last().1
    }
}

/// The representative line of each run, in order.
pub open spec fn representatives(rs: Seq<(Seq<char>, nat)>) -> Seq<Seq<char>> {
    rs.map_values(|r: (Seq<char>, nat)| r.0)
}

/// No two neighbouring lines are equal.
pub open spec fn no_adjacent_equal(s: Seq<Seq<char>>) -> bool {
    forall|i: int| 0 < i < s.len() ==> #[trigger] s[i] != s[i - 1]
}

/// Each line taken as a run of its own, with count one.
pub open spec fn singletons(s: Seq<Seq<char>>) -> Seq<(Seq<char>, nat)> {
    s.map_values(|l: Seq<char>| (l, 1nat))
}

/// Every run has a positive count and no two neighbouring runs share their line.
pub open spec fn maximal(rs: Seq<(Seq<char>, nat)>) -> bool {
    &&& forall|i: int| 0 <= i < rs.len() ==> #[trigger] rs[i].1 > 0
    &&& forall|i: int| 0 < i < rs.len() ==> #[trigger] rs[i].0 != rs[i - 1].0
}

/// The counts of the runs add up to the number of input lines.
pub proof fn lemma_counts_sum_to_lines(lines: Seq<Seq<char>>)
    ensures
        total_count(runs_of(lines)) == lines.len(),
    decreases lines.len(),
{
    if lines.len() > 0 {
        let prev = runs_of(lines.drop_last());
        lemma_counts_sum_to_lines(lines.drop_last());
        let l = lines.last();
        if prev.len() > 0 && prev.last().0 == l {
            let cur = prev.update(prev.len() - 1, (l, prev.last().1 + 1));
            assert(cur.drop_last() =~= prev.drop_last());
        } else {
            assert(prev.push((l, 1nat)).drop_last() =~= prev);
        }
    }
}

/// The runs are maximal: each count is positive and no two consecutive runs
/// have the same line.
pub proof fn lemma_runs_maximal(lines: Seq<Seq<char>>)
    ensures
        maximal(runs_of(lines)),
    decreases lines.len(),
{
    if lines.len() > 0 {
        lemma_runs_maximal(lines.drop_last());
    }
}

/// The runs of a sequence that has no two equal neighbours are its lines,
/// each with count one.
pub proof fn lemma_runs_of_distinct_neighbours(s: Seq<Seq<char>>)
    requires
        no_adjacent_equal(s),
    ensures
        runs_of(s) == singletons(s),
    decreases s.len(),
{
    if s.len() > 0 {
        let d = s.drop_last();
        assert(no_adjacent_equal(d)) by {
            assert forall|i: int| 0 < i < d.len() implies #[trigger] d[i] != d[i - 1] by {
                assert(s[i] != s[i - 1]);
            }
        }
        lemma_runs_of_distinct_neighbours(d);
        if d.len() > 0 {
            assert(s[s.len() - 1] != s[s.len() - 2]);
        }
        assert(singletons(d).push((s.last(), 1nat)) =~= singletons(s));
    }
}

/// Collapsing the representatives of the runs once more gives one run of
/// count one per representative.
pub proof fn lemma_collapse_idempotent(lines: Seq<Seq<char>>)
    ensures
        runs_of(representatives(runs_of(lines))) == singletons(representatives(runs_of(lines))),
{
    let reps = representatives(runs_of(lines));
    lemma_runs_maximal(lines);
    assert(no_adjacent_equal(reps)) by {
        assert forall|i: int| 0 < i < reps.len() implies #[trigger] reps[i] != reps[i - 1] by {
            assert(runs_of(lines)[i].0 != runs_of(lines)[i - 1].0);
        }
    }
    lemma_runs_of_distinct_neighbours(reps);
}

/// No input gives no run; one line gives one run of count one.
pub proof fn lemma_empty_and_single(l: Seq<char>)
    ensures
        runs_of(Seq::empty()) == Seq::<(Seq<char>, nat)>::empty(),
        runs_of(seq![l]) == seq![(l, 1nat)],
{
    assert(seq![l].drop_last() =~= Seq::<Seq<char>>::empty());
    assert(runs_of(seq![l].drop_last()).len() == 0);
    assert(Seq::<(Seq<char>, nat)>::empty().push((l, 1nat)) =~= seq![(l, 1nat)]);
}

/// The streaming collapser: it is fed lines one at a time, hands back each run
/// as soon as a different line closes it, and hands back the last open run when
/// the input ends.
pub struct Collapser {
    current: Option<String>,
    count: usize,
    seen: Ghost<Seq<Seq<char>>>,
    emitted: Ghost<Seq<(Seq<char>, nat)>>,
}

/// A run that may or may not have been handed out, as a sequence of at most one.
pub open spec fn opt_run(r: Option<Run>) -> Seq<(Seq<char>, nat)> {
    match r {
        Some(x) => seq![x@],
        None => Seq::empty(),
    }
}

impl Collapser {
    /// The lines fed so far.
    pub closed spec fn seen(&self) -> Seq<Seq<char>> {
        self.seen@
    }

    /// The runs handed out so far.
    pub closed spec fn emitted(&self) -> Seq<(Seq<char>, nat)> {
        self.emitted@
    }

    /// The run still open, if any line was fed.
    pub closed spec fn open_run(&self) -> Option<(Seq<char>, nat)> {
        match self.current {
            Some(c) => Some((c@, self.count as nat)),
            None => None,
        }
    }

    /// The runs handed out, then the open run, are the runs of the lines fed.
    pub closed spec fn wf(&self) -> bool {
        &&& self.count <= self.seen@.len()
        &&& match self.current {
            None => self.seen@.len() == 0 && self.emitted@.len() == 0,
            Some(c) => self.count > 0 && runs_of(self.seen@) == self.emitted@.push(
                (c@, self.count as nat),
            ),
        }
    }

    /// What well-formedness says of the open run and the runs handed out.
    pub proof fn lemma_open_run(&self)
        requires
            self.wf(),
        ensures
            self.seen().len() == 0 <==> self.open_run() is None,
            self.open_run() is None ==> self.emitted().len() == 0,
            self.open_run() is Some ==> runs_of(self.seen()) == self.emitted().push(
                self.open_run()->0,
            ),
            self.open_run() is Some ==> (self.open_run()->0).1 <= self.seen().len(),
    {
    }

    /// A collapser that has seen no line.
    pub fn new() -> (r: Collapser)
        ensures
            r.wf(),
            r.seen() == Seq::<Seq<char>>::empty(),
            r.emitted() == Seq::<(Seq<char>, nat)>::empty(),
            r.open_run() is None,
    {
        Collapser { current: None, count: 0, seen: Ghost(Seq::empty()), emitted: Ghost(Seq::empty()) }
    }

    /// How many lines the open run holds so far (zero before the first line).
    pub fn open_count(&self) -> (r: usize)
        requires
            self.wf(),
        ensures
            r == self.open_count_spec(),
    {
        if self.current.is_some() {
            self.count
        } else {
            0
        }
    }

    /// Feeds one line. Returns the run that this line closes, if it differs
    /// from the open run's line.
    pub fn push(&mut self, line: String) -> (r: Option<Run>)
        requires
            old(self).wf(),
            old(self).open_count_spec() < usize::MAX,
        ensures
            final(self).wf(),
            final(self).seen() == old(self).seen().push(line@),
            final(self).emitted() == old(self).emitted() + opt_run(r),
            r is Some <==> (old(self).open_run() is Some && (old(self).open_run()->0).0 != line@),
            r is Some ==> r->0@ == old(self).open_run()->0,
            (final(self).open_run()->0).0 == line@,
            (final(self).open_run()->0).1 == if r is None && old(self).open_run() is Some {
                (old(self).open_run()->0).1 + 1
            } else {
                1
            },
    {
        let ghost old_seen = self.seen@;
        proof {
            assert(old_seen.push(line@).drop_last() =~= old_seen);
        }
        let same = match &self.current {
            Some(c) => *c == line,
            None => false,
        };
        if self.current.is_none() {
            self.current = Some(line);
            self.count = 1;
            self.seen = Ghost(old_seen.push(line@));
            proof {
                assert(runs_of(old_seen).len() == 0);
                assert(self.emitted@ =~= Seq::<(Seq<char>, nat)>::empty());
                assert(Seq::<(Seq<char>, nat)>::empty().push((line@, 1nat)) =~= runs_of(self.seen@));
            }
            None
        } else if same {
            self.count = self.count + 1;
            self.seen = Ghost(old_seen.push(line@));
            proof {
                let e = self.emitted@;
                let prev = runs_of(old_seen);
                assert(prev.last().0 == line@);
                assert(prev.last().1 == (self.count - 1) as nat);
                assert(runs_of(self.seen@) == prev.update(prev.len() - 1, (line@, prev.last().1 + 1)));
                assert(runs_of(old_seen).update(runs_of(old_seen).len() - 1, (line@, (self.count - 1) as nat + 1))
                    =~= e.push((line@, self.count as nat)));
            }
            None
        } else {
            let ghost old_emitted = self.emitted@;
            let n = self.count;
            let mut prev = Some(line);
            std::mem::swap(&mut prev, &mut self.current);
            self.count = 1;
            self.seen = Ghost(old_seen.push(line@));
            match prev {
                Some(p) => {
                    let run = Run { line: p, count: n };
                    self.emitted = Ghost(old_emitted.push(run@));
                    proof {
                        assert(old_emitted + opt_run(Some(run)) =~= old_emitted.push(run@));
                        assert(runs_of(old_seen) == old_emitted.push(run@));
                        assert(runs_of(old_seen).last().0 != line@);
                        assert(runs_of(self.seen@) == runs_of(old_seen).push((line@, 1nat)));
                    }
                    Some(run)
                },
                None => None,
            }
        }
    }

    /// The count of the open run, zero before the first line.
    pub closed spec fn open_count_spec(&self) -> nat {
        match self.current {
            Some(_) => self.count as nat,
            None => 0,
        }
    }

    /// Ends the input: hands back the open run, if any line was fed.
    pub fn finish(self) -> (r: Option<Run>)
        requires
            self.wf(),
        ensures
            self.emitted() + opt_run(r) == runs_of(self.seen()),
            r is Some <==> self.seen().len() > 0,
            r is Some ==> r->0@ == self.open_run()->0,
    {
        match self.current {
            Some(c) => {
                let run = Run { line: c, count: self.count };
                proof {
                    assert(self.emitted@ + opt_run(Some(run)) =~= self.emitted@.push(run@));
                }
                Some(run)
            },
            None => {
                proof {
                    assert(self.emitted@ + opt_run(None) =~= self.emitted@);
                    assert(runs_of(self.seen@) =~= Seq::<(Seq<char>, nat)>::empty());
                }
                None
            },
        }
    }
}

/// Collapses a whole sequence of lines into its runs.
pub fn collapse(lines: &Vec<String>) -> (r: Vec<Run>)
    ensures
        run_views(r@) == runs_of(line_views(lines@)),
{
    let mut c = Collapser::new();
    let mut out: Vec<Run> = Vec::new();
    let mut i: usize = 0;
    while i < lines.len()
        invariant
            i <= lines.len(),
            c.wf(),
            c.seen() == line_views(lines@.take(i as int)),
            run_views(out@) == c.emitted(),
        decreases lines.len() - i,
    {
        proof {
            c.lemma_open_run();
        }
        let line = lines[i].clone();
        let r = c.push(line);
        match r {
            Some(run) => {
                out.push(run);
            },
            None => {},
        }
        proof {
            assert(line_views(lines@.take(i as int)).push(lines@[i as int]@)
                =~= line_views(lines@.take(i + 1)));
            assert(run_views(out@) =~= c.emitted());
        }
        i = i + 1;
    }
    let last = c.finish();
    match last {
        Some(run) => {
            out.push(run);
        },
        None => {},
    }
    proof {
        assert(lines@.take(lines@.len() as int) =~= lines@);
        assert(run_views(out@) =~= runs_of(line_views(lines@)));
    }
    out
}

/// The input to read (`-` for standard input), where to write the runs (`None`
/// for standard output), and whether to show each run's count.
#[derive(Debug)]
pub struct Config {
    pub in_file: String,
    pub out_file: Option<String>,
    pub count: bool,
}

/// How a run is written: its line once, after its count right-aligned in four
/// characters and a space when counts are shown.
pub open spec fn run_text(line: Seq<char>, count: nat, show_count: bool) -> Seq<char> {
    if show_count {
        pad_left(decimal(count), 4) + seq![' '] + line
    } else {
        line
    }
}

/// Formats one run for output.
pub fn format_run(run: &Run, show_count: bool) -> (r: String)
    ensures
        r@ == run_text(run.line@, run.count as nat, show_count),
{
    if show_count {
        let mut out = right_aligned(run.count, 4);
        proof {
            reveal_strlit(" ");
        }
        out.append(" ");
        out.append(run.line.as_str());
        out
    } else {
        run.line.clone()
    }
}

} // verus!
