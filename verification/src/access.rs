//! Accessibility ids of the runs of a laid-out text.
//!
//! Each run of each line gets an accessibility node id. A run keeps its id from
//! one accessibility pass to the next for as long as its position (line, run)
//! exists; runs that appear take fresh ids from a counter, and runs that
//! disappear lose theirs.

use crate::runs::{character_lengths, grapheme_clusters, run_lengths, word_lengths};
use vstd::prelude::*;
use vstd::string::StringSliceAdditionalSpecFns;
use vstd::utf8::*;

verus! {

broadcast use vstd::utf8::group_utf8_lib;

/// The accessibility record of one run: its node id and its character lengths.
#[derive(Debug)]
pub struct RunAccess {
    id: u64,
    character_lengths: Vec<u8>,
}

impl View for RunAccess {
    type V = (u64, Seq<u8>);

    closed spec fn view(&self) -> (u64, Seq<u8>) {
        (self.id, self.character_lengths@)
    }
}

/// A node of role "inline text box" to hand to the accessibility tree.
pub struct InlineTextBox {
    pub id: u64,
    pub value: String,
    pub character_lengths: Vec<u8>,
    pub word_lengths: Vec<u8>,
    pub previous_on_line: Option<u64>,
    pub next_on_line: Option<u64>,
}

/// The accessibility records of the runs of a layout, line by line.
#[derive(Debug)]
pub struct AccessIds {
    runs: Vec<Vec<RunAccess>>,
}

/// Records as plain values: `v[l][r]` is the (id, character lengths) of run `r` of line `l`.
pub type AccessView = Seq<Seq<(u64, Seq<u8>)>>;

/// The byte range of every run, line by line.
pub type RunRanges = Seq<Seq<(usize, usize)>>;

/// Whether `(l, r)` names a run of `v`.
pub open spec fn has_run(v: AccessView, l: int, r: int) -> bool {
    0 <= l < v.len() && 0 <= r < v[l].len()
}

/// No two runs share an id.
pub open spec fn ids_distinct(v: AccessView) -> bool {
    forall|l1: int, r1: int, l2: int, r2: int|
        has_run(v, l1, r1) && has_run(v, l2, r2) && #[trigger] v[l1][r1].0 == #[trigger] v[l2][r2].0
            ==> l1 == l2 && r1 == r2
}

/// Every id is below `bound`.
pub open spec fn ids_below(v: AccessView, bound: u64) -> bool {
    forall|l: int, r: int| has_run(v, l, r) ==> #[trigger] v[l][r].0 < bound
}

/// The ids by run path (line, run).
pub open spec fn ids_by_run_path(v: AccessView) -> Map<(usize, usize), u64> {
    Map::new(
        |p: (usize, usize)| has_run(v, p.0 as int, p.1 as int),
        |p: (usize, usize)| v[p.0 as int][p.1 as int].0,
    )
}

/// The run path (line, run) of each id.
pub open spec fn run_paths_by_id(v: AccessView) -> Map<u64, (usize, usize)> {
    Map::new(
        |id: u64|
            exists|p: (usize, usize)| #[trigger]
                ids_by_run_path(v).contains_key(p) && ids_by_run_path(v)[p] == id,
        |id: u64|
            choose|p: (usize, usize)| #[trigger]
                ids_by_run_path(v).contains_key(p) && ids_by_run_path(v)[p] == id,
    )
}

/// The character lengths of the run of each id.
pub open spec fn character_lengths_by_id(v: AccessView) -> Map<u64, Seq<u8>> {
    run_paths_by_id(v).map_values(|p: (usize, usize)| v[p.0 as int][p.1 as int].1)
}

/// Whether every run range lies on character boundaries of `text`.
pub open spec fn valid_run_ranges(text: Seq<char>, lines: RunRanges) -> bool {
    forall|l: int, r: int|
        0 <= l < lines.len() && 0 <= r < lines[l].len() ==> {
            let range = #[trigger] lines[l][r];
            &&& range.0 <= range.1 <= encode_utf8(text).len()
            &&& is_char_boundary(encode_utf8(text), range.0 as int)
            &&& is_char_boundary(encode_utf8(text), range.1 as int)
        }
}

/// The text of the run with the given byte range.
pub open spec fn run_text(text: Seq<char>, range: (usize, usize)) -> Seq<char> {
    decode_utf8(encode_utf8(text).subrange(range.0 as int, range.1 as int))
}

/// The number of runs of line `l` in `v` (zero past the last line).
pub open spec fn line_len(v: AccessView, l: int) -> int {
    if 0 <= l < v.len() {
        v[l].len() as int
    } else {
        0
    }
}

/// The number of runs of line `l` of `lines` that `v` has no record for.
pub open spec fn missing_in_line(v: AccessView, lines: RunRanges, l: int) -> int {
    if lines[l].len() <= line_len(v, l) {
        0
    } else {
        lines[l].len() - line_len(v, l)
    }
}

/// The number of runs of the lines before `l` that `v` has no record for.
pub open spec fn missing_before(v: AccessView, lines: RunRanges, l: int) -> int
    decreases l,
{
    if l <= 0 {
        0
    } else {
        missing_before(v, lines, l - 1) + missing_in_line(v, lines, l - 1)
    }
}

/// The number of fresh ids that a pass over `lines` takes.
pub open spec fn fresh_count(v: AccessView, lines: RunRanges) -> int {
    missing_before(v, lines, lines.len() as int)
}

/// The id of run `r` of line `l` after a pass over `lines` that starts from the
/// records `v` and the counter value `next`: its old id if it had one, else the
/// next fresh id in line-major order.
pub open spec fn run_id(v: AccessView, lines: RunRanges, next: u64, l: int, r: int) -> u64 {
    if r < line_len(v, l) {
        v[l][r].0
    } else {
        (next + missing_before(v, lines, l) + (r - line_len(v, l))) as u64
    }
}

/// The node that a pass hands out for run `r` of line `l`.
pub open spec fn box_matches(
    b: InlineTextBox,
    v: AccessView,
    text: Seq<char>,
    lines: RunRanges,
    next: u64,
    l: int,
    r: int,
) -> bool {
    let gs = grapheme_clusters(run_text(text, lines[l][r]), true);
    &&& b.id == run_id(v, lines, next, l, r)
    &&& b.value@ == run_text(text, lines[l][r])
    &&& b.character_lengths@ == character_lengths(gs)
    &&& b.word_lengths@ == word_lengths(gs)
    &&& b.previous_on_line == if r > 0 {
        Some(run_id(v, lines, next, l, r - 1))
    } else {
        None
    }
    &&& b.next_on_line == if r + 1 < lines[l].len() {
        Some(run_id(v, lines, next, l, r + 1))
    } else {
        None
    }
}

/// The records after a pass over `lines` that starts from `v` and `next`.
pub open spec fn records_after(
    v: AccessView,
    text: Seq<char>,
    lines: RunRanges,
    next: u64,
    w: AccessView,
) -> bool {
    &&& w.len() == lines.len()
    &&& forall|l: int| 0 <= l < lines.len() ==> #[trigger] w[l].len() == lines[l].len()
    &&& forall|l: int, r: int|
        has_run(w, l, r) ==> #[trigger] w[l][r] == (
            run_id(v, lines, next, l, r),
            character_lengths(grapheme_clusters(run_text(text, lines[l][r]), true)),
        )
}

proof fn lemma_missing_before_monotone(v: AccessView, lines: RunRanges, a: int, b: int)
    requires
        0 <= a <= b,
    ensures
        missing_before(v, lines, a) <= missing_before(v, lines, b),
    decreases b - a,
{
    if a < b {
        lemma_missing_before_monotone(v, lines, a, b - 1);
    }
}

proof fn lemma_fresh_ids_ordered(
    v: AccessView,
    lines: RunRanges,
    next: u64,
    l1: int,
    r1: int,
    l2: int,
    r2: int,
)
    requires
        0 <= l1 < l2 <= lines.len(),
        line_len(v, l1) <= r1 < lines[l1].len(),
    ensures
        missing_before(v, lines, l1) + (r1 - line_len(v, l1)) < missing_before(v, lines, l2),
{
    lemma_missing_before_monotone(v, lines, l1 + 1, l2);
}

/// Takes the part of `text` between two character boundaries.
fn byte_slice<'a>(text: &'a str, start: usize, end: usize) -> (s: &'a str)
    requires
        start <= end <= text.spec_bytes().len(),
        is_char_boundary(text.spec_bytes(), start as int),
        is_char_boundary(text.spec_bytes(), end as int),
    ensures
        s@ == decode_utf8(text.spec_bytes().subrange(start as int, end as int)),
{
    let ghost bytes = text.spec_bytes();
    let (_, tail) = text.split_at(start);
    let ghost tail_bytes = tail.spec_bytes();
    proof {
        assert(valid_utf8(bytes));
        assert(valid_utf8(tail_bytes));
        if end < bytes.len() {
            assert(tail_bytes[end - start] == bytes[end as int]);
            assert(is_char_boundary(bytes, end as int) <==> !is_continuation_byte(
                bytes[end as int],
            ));
            assert(is_char_boundary(tail_bytes, end - start) <==> !is_continuation_byte(
                tail_bytes[end - start],
            ));
        } else {
            assert(is_char_boundary(tail_bytes, tail_bytes.len() as int));
        }
    }
    let (mid, _) = tail.split_at(end - start);
    proof {
        assert(mid.spec_bytes() =~= bytes.subrange(start as int, end as int));
        assert(decode_utf8(encode_utf8(mid@)) == mid@);
    }
    mid
}

/// The byte ranges of the runs, line by line, as plain values.
pub open spec fn ranges_of(lines: Seq<Vec<(usize, usize)>>) -> RunRanges {
    lines.map_values(|line: Vec<(usize, usize)>| line@)
}

proof fn lemma_fresh_id_in_range(v: AccessView, lines: RunRanges, l: int, r: int)
    requires
        0 <= l < lines.len(),
        line_len(v, l) <= r < lines[l].len(),
    ensures
        0 <= missing_before(v, lines, l) + (r - line_len(v, l)) < fresh_count(v, lines),
{
    lemma_missing_before_monotone(v, lines, 0, l);
    lemma_missing_before_monotone(v, lines, l + 1, lines.len() as int);
}

proof fn lemma_run_ids_distinct(
    v: AccessView,
    lines: RunRanges,
    next: u64,
    l1: int,
    r1: int,
    l2: int,
    r2: int,
)
    requires
        ids_distinct(v),
        ids_below(v, next),
        next + fresh_count(v, lines) <= u64::MAX,
        0 <= l1 < lines.len(),
        0 <= r1 < lines[l1].len(),
        0 <= l2 < lines.len(),
        0 <= r2 < lines[l2].len(),
        run_id(v, lines, next, l1, r1) == run_id(v, lines, next, l2, r2),
    ensures
        l1 == l2 && r1 == r2,
{
    let o1 = line_len(v, l1);
    let o2 = line_len(v, l2);
    if r1 < o1 && r2 < o2 {
        assert(has_run(v, l1, r1) && has_run(v, l2, r2));
        assert(v[l1][r1].0 == v[l2][r2].0);
    } else if r1 < o1 {
        assert(has_run(v, l1, r1));
        assert(v[l1][r1].0 < next);
        lemma_fresh_id_in_range(v, lines, l2, r2);
    } else if r2 < o2 {
        assert(has_run(v, l2, r2));
        assert(v[l2][r2].0 < next);
        lemma_fresh_id_in_range(v, lines, l1, r1);
    } else {
        lemma_fresh_id_in_range(v, lines, l1, r1);
        lemma_fresh_id_in_range(v, lines, l2, r2);
        if l1 < l2 {
            lemma_fresh_ids_ordered(v, lines, next, l1, r1, l2, r2);
            lemma_missing_before_monotone(v, lines, l2, l2);
        } else if l2 < l1 {
            lemma_fresh_ids_ordered(v, lines, next, l2, r2, l1, r1);
        }
    }
}

/// The run paths (line, run) of the runs of `lines`.
pub open spec fn run_paths(lines: RunRanges) -> Set<(usize, usize)> {
    Set::new(|p: (usize, usize)| 0 <= p.0 < lines.len() && 0 <= p.1 < lines[p.0 as int].len())
}

/// After a pass, there is a record for exactly the runs of the layout.
pub proof fn lemma_records_cover_runs(
    v: AccessView,
    text: Seq<char>,
    lines: RunRanges,
    next: u64,
    w: AccessView,
)
    requires
        records_after(v, text, lines, next, w),
    ensures
        ids_by_run_path(w).dom() == run_paths(lines),
{
    assert(ids_by_run_path(w).dom() =~= run_paths(lines));
}

/// A run that had an id before a pass and still exists after it keeps its id.
pub proof fn lemma_pass_keeps_ids(
    v: AccessView,
    text: Seq<char>,
    lines: RunRanges,
    next: u64,
    w: AccessView,
    p: (usize, usize),
)
    requires
        records_after(v, text, lines, next, w),
        ids_by_run_path(v).contains_key(p),
        ids_by_run_path(w).contains_key(p),
    ensures
        ids_by_run_path(w)[p] == ids_by_run_path(v)[p],
{
    assert(has_run(w, p.0 as int, p.1 as int));
    assert(line_len(v, p.0 as int) == v[p.0 as int].len());
}

/// A run that had no id before a pass takes an id that no run had: one at or
/// above the counter value the pass started from.
pub proof fn lemma_new_runs_fresh_ids(
    v: AccessView,
    text: Seq<char>,
    lines: RunRanges,
    next: u64,
    w: AccessView,
    p: (usize, usize),
)
    requires
        records_after(v, text, lines, next, w),
        ids_below(v, next),
        next + fresh_count(v, lines) <= u64::MAX,
        !ids_by_run_path(v).contains_key(p),
        ids_by_run_path(w).contains_key(p),
    ensures
        next <= ids_by_run_path(w)[p],
        !run_paths_by_id(v).contains_key(ids_by_run_path(w)[p]),
{
    let (l, r) = (p.0 as int, p.1 as int);
    assert(has_run(w, l, r));
    assert(r >= line_len(v, l));
    lemma_fresh_id_in_range(v, lines, l, r);
    lemma_missing_before_monotone(v, lines, 0, l);
    let id = ids_by_run_path(w)[p];
    if run_paths_by_id(v).contains_key(id) {
        let q = choose|q: (usize, usize)| #[trigger]
            ids_by_run_path(v).contains_key(q) && ids_by_run_path(v)[q] == id;
        assert(has_run(v, q.0 as int, q.1 as int));
        assert(v[q.0 as int][q.1 as int].0 < next);
    }
}

/// A second pass over the same runs takes no fresh id and keeps every id.
pub proof fn lemma_second_pass_stable(
    v: AccessView,
    text: Seq<char>,
    lines: RunRanges,
    next: u64,
    w: AccessView,
    next2: u64,
)
    requires
        records_after(v, text, lines, next, w),
    ensures
        fresh_count(w, lines) == 0,
        forall|l: int, r: int| has_run(w, l, r) ==> #[trigger] run_id(w, lines, next2, l, r) == w[l][r].0,
{
    assert forall|l: int| 0 <= l <= lines.len() implies #[trigger] missing_before(w, lines, l) == 0 by {
        lemma_missing_before_zero(w, lines, l);
    }
}

/// A second pass over the same runs, after no change to the layout, hands
/// out the same ids in the same order as the first, takes no fresh id, and
/// leaves the records as they were.
pub proof fn lemma_second_pass_same_ids(
    v: AccessView,
    text: Seq<char>,
    lines: RunRanges,
    next: u64,
    w: AccessView,
    next2: u64,
    w2: AccessView,
)
    requires
        records_after(v, text, lines, next, w),
        records_after(w, text, lines, next2, w2),
    ensures
        fresh_count(w, lines) == 0,
        forall|l: int, r: int|
            0 <= l < lines.len() && 0 <= r < lines[l].len() ==> #[trigger] run_id(w, lines, next2, l, r)
                == run_id(v, lines, next, l, r),
        w2 == w,
{
    lemma_second_pass_stable(v, text, lines, next, w, next2);
    assert forall|l: int, r: int| 0 <= l < lines.len() && 0 <= r < lines[l].len() implies #[trigger] run_id(w, lines, next2, l, r)
        == run_id(v, lines, next, l, r) by {
        assert(has_run(w, l, r));
    }
    assert forall|l: int| 0 <= l < w.len() implies #[trigger] w2[l] == w[l] by {
        assert forall|r: int| 0 <= r < w[l].len() implies #[trigger] w2[l][r] == w[l][r] by {
            assert(has_run(w, l, r));
            assert(has_run(w2, l, r));
        }
        assert(w2[l] =~= w[l]);
    }
    assert(w2 =~= w);
}

/// After a pass, the map from run paths to ids and the map from ids to run
/// paths are inverse bijections over exactly the runs of the layout, and the
/// character lengths recorded for each id are those of its run.
pub proof fn lemma_pass_maps(v: AccessView, text: Seq<char>, lines: RunRanges, next: u64, w: AccessView)
    requires
        records_after(v, text, lines, next, w),
        ids_distinct(w),
    ensures
        ids_by_run_path(w).dom() == run_paths(lines),
        forall|p: (usize, usize)| #[trigger] ids_by_run_path(w).contains_key(p) ==> {
            &&& run_paths_by_id(w).contains_key(ids_by_run_path(w)[p])
            &&& run_paths_by_id(w)[ids_by_run_path(w)[p]] == p
            &&& character_lengths_by_id(w)[ids_by_run_path(w)[p]] == character_lengths(
                grapheme_clusters(run_text(text, lines[p.0 as int][p.1 as int]), true),
            )
        },
        forall|id: u64| #[trigger] run_paths_by_id(w).contains_key(id) ==> {
            &&& ids_by_run_path(w).contains_key(run_paths_by_id(w)[id])
            &&& ids_by_run_path(w)[run_paths_by_id(w)[id]] == id
        },
        character_lengths_by_id(w).dom() == run_paths_by_id(w).dom(),
{
    lemma_records_cover_runs(v, text, lines, next, w);
    lemma_id_maps_inverse(w);
    assert forall|p: (usize, usize)| #[trigger] ids_by_run_path(w).contains_key(p) implies character_lengths_by_id(w)[ids_by_run_path(w)[p]] == character_lengths(
        grapheme_clusters(run_text(text, lines[p.0 as int][p.1 as int]), true),
    ) by {
        assert(has_run(w, p.0 as int, p.1 as int));
        assert(run_paths_by_id(w)[ids_by_run_path(w)[p]] == p);
    }
}

proof fn lemma_missing_before_zero(w: AccessView, lines: RunRanges, l: int)
    requires
        w.len() == lines.len(),
        forall|i: int| 0 <= i < lines.len() ==> #[trigger] w[i].len() == lines[i].len(),
        l <= lines.len(),
    ensures
        missing_before(w, lines, l) == 0,
    decreases l,
{
    if l > 0 {
        lemma_missing_before_zero(w, lines, l - 1);
    }
}

/// With distinct ids, the map from ids to run paths inverts the map from run
/// paths to ids, and every id has character lengths.
pub proof fn lemma_id_maps_inverse(v: AccessView)
    requires
        ids_distinct(v),
    ensures
        forall|p: (usize, usize)| #[trigger] ids_by_run_path(v).contains_key(p) ==> {
            &&& run_paths_by_id(v).contains_key(ids_by_run_path(v)[p])
            &&& run_paths_by_id(v)[ids_by_run_path(v)[p]] == p
        },
        forall|id: u64| #[trigger] run_paths_by_id(v).contains_key(id) ==> {
            &&& ids_by_run_path(v).contains_key(run_paths_by_id(v)[id])
            &&& ids_by_run_path(v)[run_paths_by_id(v)[id]] == id
        },
        character_lengths_by_id(v).dom() == run_paths_by_id(v).dom(),
{
    let ids = ids_by_run_path(v);
    assert forall|p: (usize, usize)| #[trigger] ids.contains_key(p) implies {
        &&& run_paths_by_id(v).contains_key(ids[p])
        &&& run_paths_by_id(v)[ids[p]] == p
    } by {
        let id = ids[p];
        assert(ids.contains_key(p) && ids[p] == id);
        let q = choose|q: (usize, usize)| #[trigger] ids.contains_key(q) && ids[q] == id;
        assert(v[q.0 as int][q.1 as int].0 == v[p.0 as int][p.1 as int].0);
    }
}

impl Clone for RunAccess {
    fn clone(&self) -> (r: Self)
        ensures
            r@ == self@,
    {
        let character_lengths = self.character_lengths.clone();
        proof {
            assert(character_lengths@ =~= self.character_lengths@);
        }
        RunAccess { id: self.id, character_lengths }
    }
}

impl Clone for AccessIds {
    /// A copy with the same records.
    fn clone(&self) -> (r: Self)
        ensures
            r@ == self@,
    {
        proof {
            use_type_invariant(self);
        }
        let mut runs: Vec<Vec<RunAccess>> = Vec::new();
        let mut l: usize = 0;
        while l < self.runs.len()
            invariant
                0 <= l <= self.runs@.len(),
                runs@.len() == l,
                forall|i: int| 0 <= i < l ==> (#[trigger] runs@[i])@.len() == self.runs@[i]@.len(),
                forall|i: int, j: int|
                    0 <= i < l && 0 <= j < self.runs@[i]@.len() ==> (#[trigger] runs@[i]@[j])@
                        == self.runs@[i]@[j]@,
            decreases self.runs@.len() - l,
        {
            let line = &self.runs[l];
            let mut copy: Vec<RunAccess> = Vec::new();
            let mut r: usize = 0;
            while r < line.len()
                invariant
                    0 <= r <= line@.len(),
                    copy@.len() == r,
                    forall|j: int| 0 <= j < r ==> (#[trigger] copy@[j])@ == line@[j]@,
                decreases line@.len() - r,
            {
                copy.push(line[r].clone());
                r = r + 1;
            }
            runs.push(copy);
            l = l + 1;
        }
        let ghost w = runs@.map_values(|line: Vec<RunAccess>| line@.map_values(|r: RunAccess| r@));
        proof {
            assert forall|i: int| 0 <= i < w.len() implies #[trigger] w[i] == self@[i] by {
                assert(w[i] =~= self@[i]);
            }
            assert(w =~= self@);
        }
        AccessIds { runs }
    }
}

impl View for AccessIds {
    type V = AccessView;

    closed spec fn view(&self) -> AccessView {
        self.runs@.map_values(|line: Vec<RunAccess>| line@.map_values(|r: RunAccess| r@))
    }
}

impl AccessIds {
    #[verifier::type_invariant]
    closed spec fn inv(&self) -> bool {
        ids_distinct(self@)
    }

    /// No records.
    pub fn new() -> (s: Self)
        ensures
            s@ == Seq::<Seq<(u64, Seq<u8>)>>::empty(),
    {
        let s = AccessIds { runs: Vec::new() };
        proof {
            assert(s@ =~= Seq::<Seq<(u64, Seq<u8>)>>::empty());
        }
        s
    }

    /// The id of run `r` of line `l`, if there is a record for it.
    fn lookup(&self, l: usize, r: usize) -> (res: Option<u64>)
        ensures
            res == if has_run(self@, l as int, r as int) {
                Some(self@[l as int][r as int].0)
            } else {
                None
            },
    {
        if l < self.runs.len() && r < self.runs[l].len() {
            Some(self.runs[l][r].id)
        } else {
            None
        }
    }

    /// Runs an accessibility pass over the runs of a layout of `text`, given
    /// the byte range of every run, line by line. Each run keeps the id it had
    /// at the same (line, run) position; the others take fresh ids from
    /// `next_id` in line-major order; records of runs that are gone are
    /// dropped. Returns the inline text box node of every run, line by line.
    pub fn update(
        &mut self,
        text: &str,
        lines: &Vec<Vec<(usize, usize)>>,
        next_id: &mut u64,
    ) -> (nodes: Vec<Vec<InlineTextBox>>)
        requires
            valid_run_ranges(text@, ranges_of(lines@)),
            ids_below(old(self)@, *old(next_id)),
            *old(next_id) + fresh_count(old(self)@, ranges_of(lines@)) <= u64::MAX,
        ensures
            records_after(old(self)@, text@, ranges_of(lines@), *old(next_id), final(self)@),
            *final(next_id) == *old(next_id) + fresh_count(old(self)@, ranges_of(lines@)),
            ids_distinct(final(self)@),
            ids_below(final(self)@, *final(next_id)),
            nodes@.len() == lines@.len(),
            forall|l: int| 0 <= l < nodes@.len() ==> #[trigger] nodes@[l]@.len() == lines@[l]@.len(),
            forall|l: int, r: int|
                0 <= l < nodes@.len() && 0 <= r < nodes@[l]@.len() ==> box_matches(
                    #[trigger] nodes@[l]@[r],
                    old(self)@,
                    text@,
                    ranges_of(lines@),
                    *old(next_id),
                    l,
                    r,
                ),
            forall|l: int, r: int|
                0 <= l < nodes@.len() && 0 < r < nodes@[l]@.len() ==> (#[trigger] nodes@[l]@[r]).previous_on_line
                    == Some(nodes@[l]@[r - 1].id) && nodes@[l]@[r - 1].next_on_line == Some(
                    nodes@[l]@[r].id,
                ),
            forall|l: int|
                0 <= l < nodes@.len() && nodes@[l]@.len() > 0 ==> (#[trigger] nodes@[l]@[0]).previous_on_line is None
                    && nodes@[l]@.last().next_on_line is None,
    {
        proof {
            use_type_invariant(&*self);
        }
        let ghost v = self@;
        let ghost lv = ranges_of(lines@);
        let ghost next0 = *next_id;
        let mut new_runs: Vec<Vec<RunAccess>> = Vec::new();
        let mut nodes: Vec<Vec<InlineTextBox>> = Vec::new();
        let mut l: usize = 0;
        while l < lines.len()
            invariant
                v == self@,
                lv == ranges_of(lines@),
                valid_run_ranges(text@, lv),
                ids_distinct(v),
                ids_below(v, next0),
                next0 + fresh_count(v, lv) <= u64::MAX,
                0 <= l <= lines@.len(),
                *next_id == next0 + missing_before(v, lv, l as int),
                new_runs@.len() == l,
                nodes@.len() == l,
                forall|i: int| 0 <= i < l ==> (#[trigger] new_runs@[i])@.len() == lv[i].len(),
                forall|i: int| 0 <= i < l ==> (#[trigger] nodes@[i])@.len() == lv[i].len(),
                forall|i: int, j: int|
                    0 <= i < l && 0 <= j < lv[i].len() ==> (#[trigger] new_runs@[i]@[j])@ == (
                        run_id(v, lv, next0, i, j),
                        character_lengths(grapheme_clusters(run_text(text@, lv[i][j]), true)),
                    ),
                forall|i: int, j: int|
                    0 <= i < l && 0 <= j < lv[i].len() ==> box_matches(
                        #[trigger] nodes@[i]@[j],
                        v,
                        text@,
                        lv,
                        next0,
                        i,
                        j,
                    ),
            decreases lines@.len() - l,
        {
            let line = &lines[l];
            let ghost ol = line_len(v, l as int);
            proof {
                assert(line@ == lv[l as int]);
                lemma_missing_before_monotone(v, lv, l + 1, lines@.len() as int);
            }
            let mut ids: Vec<u64> = Vec::new();
            let mut r: usize = 0;
            while r < line.len()
                invariant
                    v == self@,
                    lv == ranges_of(lines@),
                    line@ == lv[l as int],
                    0 <= l < lines@.len(),
                    ol == line_len(v, l as int),
                    next0 + fresh_count(v, lv) <= u64::MAX,
                    missing_before(v, lv, l + 1) <= fresh_count(v, lv),
                    0 <= r <= line@.len(),
                    ids@.len() == r,
                    forall|j: int| 0 <= j < r ==> #[trigger] ids@[j] == run_id(v, lv, next0, l as int, j),
                    *next_id == next0 + missing_before(v, lv, l as int) + if r <= ol {
                        0
                    } else {
                        r - ol
                    },
                decreases line@.len() - r,
            {
                let id = match self.lookup(l, r) {
                    Some(id) => id,
                    None => {
                        let id = *next_id;
                        *next_id = *next_id + 1;
                        id
                    },
                };
                ids.push(id);
                r = r + 1;
            }
            let mut line_runs: Vec<RunAccess> = Vec::new();
            let mut line_nodes: Vec<InlineTextBox> = Vec::new();
            let mut r: usize = 0;
            while r < line.len()
                invariant
                    lv == ranges_of(lines@),
                    line@ == lv[l as int],
                    valid_run_ranges(text@, lv),
                    0 <= l < lines@.len(),
                    ids@.len() == line@.len(),
                    forall|j: int| 0 <= j < ids@.len() ==> #[trigger] ids@[j] == run_id(v, lv, next0, l as int, j),
                    0 <= r <= line@.len(),
                    line_runs@.len() == r,
                    line_nodes@.len() == r,
                    forall|j: int|
                        0 <= j < r ==> (#[trigger] line_runs@[j])@ == (
                            run_id(v, lv, next0, l as int, j),
                            character_lengths(grapheme_clusters(run_text(text@, lv[l as int][j]), true)),
                        ),
                    forall|j: int|
                        0 <= j < r ==> box_matches(#[trigger] line_nodes@[j], v, text@, lv, next0, l as int, j),
                decreases line@.len() - r,
            {
                let (start, end) = line[r];
                proof {
                    assert(lv[l as int][r as int] == (start, end));
                }
                let run = byte_slice(text, start, end);
                let (character_lengths, word_lengths) = run_lengths(run);
                let previous_on_line = if r > 0 {
                    Some(ids[r - 1])
                } else {
                    None
                };
                let next_on_line = if r + 1 < line.len() {
                    Some(ids[r + 1])
                } else {
                    None
                };
                let kept = character_lengths.clone();
                proof {
                    assert(kept@ =~= character_lengths@);
                }
                line_runs.push(RunAccess { id: ids[r], character_lengths: kept });
                let value = run.to_owned();
                line_nodes.push(
                    InlineTextBox {
                        id: ids[r],
                        value,
                        character_lengths,
                        word_lengths,
                        previous_on_line,
                        next_on_line,
                    },
                );
                r = r + 1;
            }
            new_runs.push(line_runs);
            nodes.push(line_nodes);
            l = l + 1;
        }
        let ghost w = new_runs@.map_values(|line: Vec<RunAccess>| line@.map_values(|r: RunAccess| r@));
        proof {
            assert(lv.len() == lines@.len());
            assert(*next_id == next0 + fresh_count(v, lv));
            assert forall|i: int| 0 <= i < lines@.len() implies #[trigger] lv[i] == lines@[i]@ by {}
            assert forall|l1: int, r1: int, l2: int, r2: int|
                has_run(w, l1, r1) && has_run(w, l2, r2) && #[trigger] w[l1][r1].0 == #[trigger] w[l2][r2].0
                implies l1 == l2 && r1 == r2 by {
                assert(w[l1][r1] == new_runs@[l1]@[r1]@);
                assert(w[l2][r2] == new_runs@[l2]@[r2]@);
                lemma_run_ids_distinct(v, lv, next0, l1, r1, l2, r2);
            }
            assert forall|l1: int, r1: int| has_run(w, l1, r1) implies #[trigger] w[l1][r1].0 < *next_id by {
                assert(w[l1][r1] == new_runs@[l1]@[r1]@);
                assert(w[l1].len() == lv[l1].len());
                assert(w[l1][r1].0 == run_id(v, lv, next0, l1, r1));
                if r1 >= line_len(v, l1) {
                    lemma_fresh_id_in_range(v, lv, l1, r1);
                    let off = missing_before(v, lv, l1) + (r1 - line_len(v, l1));
                    assert(run_id(v, lv, next0, l1, r1) == (next0 + off) as u64);
                    assert(next0 + off < *next_id);
                } else {
                    assert(has_run(v, l1, r1));
                    lemma_missing_before_monotone(v, lv, 0, lv.len() as int);
                }
            }
        }
        self.runs = new_runs;
        proof {
            assert(self@ == w);
            assert forall|i: int, j: int| has_run(w, i, j) implies #[trigger] w[i][j] == (
                run_id(v, lv, next0, i, j),
                character_lengths(grapheme_clusters(run_text(text@, lv[i][j]), true)),
            ) by {
                assert(w[i][j] == new_runs@[i]@[j]@);
            }
            assert forall|l: int, r: int|
                0 <= l < nodes@.len() && 0 < r < nodes@[l]@.len() implies (#[trigger] nodes@[l]@[r]).previous_on_line
                    == Some(nodes@[l]@[r - 1].id) && nodes@[l]@[r - 1].next_on_line == Some(
                    nodes@[l]@[r].id,
                ) by {
                assert(box_matches(nodes@[l]@[r], v, text@, lv, next0, l, r));
                assert(box_matches(nodes@[l]@[r - 1], v, text@, lv, next0, l, r - 1));
            }
            assert forall|l: int|
                0 <= l < nodes@.len() && nodes@[l]@.len() > 0 implies (#[trigger] nodes@[l]@[0]).previous_on_line is None
                    && nodes@[l]@.last().next_on_line is None by {
                assert(box_matches(nodes@[l]@[0], v, text@, lv, next0, l, 0));
                let k = nodes@[l]@.len() - 1;
                assert(box_matches(nodes@[l]@[k], v, text@, lv, next0, l, k));
            }
        }
        nodes
    }

    /// Whether every id is below `bound`.
    pub fn all_ids_below(&self, bound: u64) -> (r: bool)
        ensures
            r == ids_below(self@, bound),
    {
        let mut l: usize = 0;
        while l < self.runs.len()
            invariant
                0 <= l <= self.runs@.len(),
                forall|i: int, j: int| 0 <= i < l && has_run(self@, i, j) ==> #[trigger] self@[i][j].0 < bound,
            decreases self.runs@.len() - l,
        {
            let line = &self.runs[l];
            let mut r: usize = 0;
            while r < line.len()
                invariant
                    line == self.runs@[l as int],
                    0 <= l < self.runs@.len(),
                    0 <= r <= line@.len(),
                    forall|i: int, j: int| 0 <= i < l && has_run(self@, i, j) ==> #[trigger] self@[i][j].0 < bound,
                    forall|j: int| 0 <= j < r ==> #[trigger] self@[l as int][j].0 < bound,
                decreases line@.len() - r,
            {
                if line[r].id >= bound {
                    assert(self@[l as int][r as int].0 >= bound);
                    return false;
                }
                r = r + 1;
            }
            l = l + 1;
        }
        true
    }
}

} // verus!
