//! Per-run accessibility data: the byte length of each grapheme cluster and the
//! lengths of the words of a run, counted in grapheme clusters.

use unicode_segmentation::UnicodeSegmentation;
use vstd::prelude::*;
use vstd::string::StrSliceExecFns;
use vstd::utf8::*;

verus! {

broadcast use vstd::utf8::group_utf8_lib;

/// The extended grapheme clusters of `s`, in order, as
/// `unicode_segmentation::UnicodeSegmentation::graphemes` yields them.
pub uninterp spec fn grapheme_clusters(s: Seq<char>, is_extended: bool) -> Seq<Seq<char>>;

/// Whether `c` has the Unicode `Alphabetic` or `Numeric` property, as
/// `char::is_alphanumeric` reports it.
pub uninterp spec fn is_alphanumeric(c: char) -> bool;

/// Calls `UnicodeSegmentation::graphemes` on `s` and collects the clusters.
///
/// Trusted: the clusters are those that `grapheme_clusters` names; the crate's
/// iterator slices `s` from one boundary to the next strictly later one, so no
/// cluster is empty and the clusters, joined in order, give back `s`.
#[verifier::external_body]
fn graphemes<'a>(s: &'a str, is_extended: bool) -> (res: Vec<&'a str>)
    ensures
        res@.map_values(|g: &str| g@) == grapheme_clusters(s@, is_extended),
        forall|i: int| 0 <= i < res@.len() ==> (#[trigger] res@[i])@.len() > 0,
        res@.map_values(|g: &str| g@).flatten() == s@,
{
    s.graphemes(is_extended).collect()
}

/// Calls `char::is_alphanumeric`.
///
/// Trusted: the result is the one that `is_alphanumeric` names.
#[verifier::external_body]
fn char_is_alphanumeric(c: char) -> (r: bool)
    ensures
        r == is_alphanumeric(c),
{
    c.is_alphanumeric()
}

/// The number of bytes of the UTF-8 encoding of `s`, as `str::len` reports it.
pub open spec fn byte_len(s: Seq<char>) -> usize {
    encode_utf8(s).len() as usize
}

/// The character lengths of a run: the UTF-8 length of each grapheme cluster,
/// kept in a byte as accessibility nodes store it.
pub open spec fn character_lengths(gs: Seq<Seq<char>>) -> Seq<u8> {
    Seq::new(gs.len(), |i: int| byte_len(gs[i]) as u8)
}

/// Whether the cluster at `k` begins a word: it starts with an alphanumeric
/// character and the cluster before it does not.
pub open spec fn starts_word(gs: Seq<Seq<char>>, k: int) -> bool {
    &&& 0 < k < gs.len()
    &&& is_alphanumeric(gs[k][0])
    &&& !is_alphanumeric(gs[k - 1][0])
}

/// The positions below `n` at which a word begins, in increasing order.
pub open spec fn word_starts(gs: Seq<Seq<char>>, n: int) -> Seq<int>
    decreases n,
{
    if n <= 0 {
        Seq::empty()
    } else if starts_word(gs, n - 1) {
        word_starts(gs, n - 1).push(n - 1)
    } else {
        word_starts(gs, n - 1)
    }
}

/// The differences between consecutive positions of `b`, each kept in a byte.
pub open spec fn gaps(b: Seq<int>) -> Seq<u8> {
    Seq::new((b.len() - 1) as nat, |i: int| (b[i + 1] - b[i]) as u8)
}

/// The word boundaries of a run: its start, every word start, and its end.
pub open spec fn word_bounds(gs: Seq<Seq<char>>) -> Seq<int> {
    seq![0int] + word_starts(gs, gs.len() as int) + seq![gs.len() as int]
}

/// The word lengths of a run, in grapheme clusters, kept in a byte each.
pub open spec fn word_lengths(gs: Seq<Seq<char>>) -> Seq<u8> {
    gaps(word_bounds(gs))
}

proof fn lemma_word_starts_bounded(gs: Seq<Seq<char>>, n: int)
    ensures
        forall|i: int|
            0 <= i < word_starts(gs, n).len() ==> 0 < #[trigger] word_starts(gs, n)[i] < n,
    decreases n,
{
    if n > 0 {
        lemma_word_starts_bounded(gs, n - 1);
        let w = word_starts(gs, n - 1);
        if starts_word(gs, n - 1) {
            assert(word_starts(gs, n) == w.push(n - 1));
            assert forall|i: int| 0 <= i < w.push(n - 1).len() implies 0 < #[trigger] w.push(
                n - 1,
            )[i] < n by {
                if i < w.len() {
                    assert(w.push(n - 1)[i] == w[i]);
                }
            }
        } else {
            assert(word_starts(gs, n) == w);
        }
    }
}

proof fn lemma_gaps_push(b: Seq<int>, x: int)
    requires
        b.len() >= 1,
    ensures
        gaps(b.push(x)) == gaps(b).push((x - b.last()) as u8),
{
    assert(gaps(b.push(x)) =~= gaps(b).push((x - b.last()) as u8));
}

/// The sum of a sequence of bytes.
pub open spec fn sum_bytes(s: Seq<u8>) -> int
    decreases s.len(),
{
    if s.len() == 0 {
        0
    } else {
        sum_bytes(s.drop_last()) + s.last()
    }
}

proof fn lemma_word_starts_increasing(gs: Seq<Seq<char>>, n: int)
    ensures
        forall|i: int, j: int|
            0 <= i < j < word_starts(gs, n).len() ==> #[trigger] word_starts(gs, n)[i]
                < #[trigger] word_starts(gs, n)[j],
    decreases n,
{
    if n > 0 {
        lemma_word_starts_increasing(gs, n - 1);
        lemma_word_starts_bounded(gs, n - 1);
        let w = word_starts(gs, n - 1);
        if starts_word(gs, n - 1) {
            assert(word_starts(gs, n) == w.push(n - 1));
            assert forall|i: int, j: int| 0 <= i < j < w.push(n - 1).len() implies #[trigger] w.push(
                n - 1,
            )[i] < #[trigger] w.push(n - 1)[j] by {
                assert(w.push(n - 1)[i] == w[i]);
                if j < w.len() {
                    assert(w.push(n - 1)[j] == w[j]);
                }
            }
        } else {
            assert(word_starts(gs, n) == w);
        }
    }
}

proof fn lemma_gaps_telescope(b: Seq<int>)
    requires
        b.len() >= 1,
        forall|i: int| 0 <= i < b.len() - 1 ==> 0 <= #[trigger] b[i] <= b[i + 1] < b[i] + 256,
    ensures
        sum_bytes(gaps(b)) == b.last() - b[0],
    decreases b.len(),
{
    if b.len() == 1 {
        assert(gaps(b).len() == 0);
    } else {
        let front = b.drop_last();
        assert(b == front.push(b.last()));
        lemma_gaps_push(front, b.last());
        assert forall|i: int| 0 <= i < front.len() - 1 implies 0 <= #[trigger] front[i] <= front[i + 1] < front[i] + 256 by {
            assert(front[i] == b[i] && front[i + 1] == b[i + 1]);
        }
        lemma_gaps_telescope(front);
        assert(0 <= b[b.len() - 2] <= b.last() < b[b.len() - 2] + 256);
        assert(gaps(b).drop_last() == gaps(front));
    }
}

/// When every word of a run has fewer than 256 clusters, the word lengths of
/// the run add up to its number of clusters: the words tile the run.
pub proof fn lemma_word_lengths_tile_run(gs: Seq<Seq<char>>)
    requires
        forall|i: int|
            0 <= i < word_bounds(gs).len() - 1 ==> #[trigger] word_bounds(gs)[i + 1]
                - word_bounds(gs)[i] < 256,
    ensures
        sum_bytes(word_lengths(gs)) == gs.len(),
{
    let n = gs.len() as int;
    let st = word_starts(gs, n);
    let b = word_bounds(gs);
    lemma_word_starts_bounded(gs, n);
    lemma_word_starts_increasing(gs, n);
    assert forall|i: int| 0 <= i < b.len() - 1 implies 0 <= #[trigger] b[i] <= b[i + 1] < b[i] + 256 by {
        assert(b[i + 1] - b[i] < 256);
        if i == 0 {
            if st.len() > 0 {
                assert(b[1] == st[0]);
            }
        } else if i < st.len() {
            assert(b[i] == st[i - 1] && b[i + 1] == st[i]);
        } else {
            assert(b[i] == st[i - 1]);
        }
    }
    lemma_gaps_telescope(b);
}

proof fn lemma_encode_utf8_concat(a: Seq<char>, b: Seq<char>)
    ensures
        encode_utf8(a + b) == encode_utf8(a) + encode_utf8(b),
    decreases a.len(),
{
    if a.len() > 0 {
        assert((a + b).drop_first() == a.drop_first() + b);
        lemma_encode_utf8_concat(a.drop_first(), b);
        assert((a + b)[0] == a[0]);
    } else {
        assert(a + b == b);
    }
}

/// When every cluster of a run takes fewer than 256 bytes, the character
/// lengths of the run add up to the byte length of the run.
pub proof fn lemma_character_lengths_tile_run(gs: Seq<Seq<char>>)
    requires
        forall|i: int| 0 <= i < gs.len() ==> encode_utf8(#[trigger] gs[i]).len() < 256,
    ensures
        sum_bytes(character_lengths(gs)) == encode_utf8(gs.flatten()).len(),
    decreases gs.len(),
{
    gs.lemma_flatten_and_flatten_alt_are_equivalent();
    if gs.len() > 0 {
        let front = gs.drop_last();
        lemma_character_lengths_tile_run(front);
        front.lemma_flatten_and_flatten_alt_are_equivalent();
        lemma_encode_utf8_concat(front.flatten_alt(), gs.last());
        assert(character_lengths(gs).drop_last() == character_lengths(front));
        assert(encode_utf8(gs.last()).len() < 256);
    }
}

/// Computes the character lengths and the word lengths of one run of text.
pub fn run_lengths(run_text: &str) -> (res: (Vec<u8>, Vec<u8>))
    ensures
        res.0@ == character_lengths(grapheme_clusters(run_text@, true)),
        res.1@ == word_lengths(grapheme_clusters(run_text@, true)),
        grapheme_clusters(run_text@, true).flatten() == run_text@,
{
    let clusters = graphemes(run_text, true);
    let ghost gs = clusters@.map_values(|g: &str| g@);
    let mut character_lengths: Vec<u8> = Vec::new();
    let mut word_lengths: Vec<u8> = Vec::new();
    let mut was_at_word_end = false;
    let mut last_word_start: usize = 0;
    let n = clusters.len();
    let mut k: usize = 0;
    while k < n
        invariant
            n == clusters@.len(),
            gs == clusters@.map_values(|g: &str| g@),
            forall|i: int| 0 <= i < clusters@.len() ==> (#[trigger] clusters@[i])@.len() > 0,
            0 <= k <= n,
            character_lengths@ =~= Seq::new(k as nat, |i: int| byte_len(gs[i]) as u8),
            was_at_word_end == (k > 0 && !is_alphanumeric(gs[k - 1][0])),
            last_word_start as int == (seq![0int] + word_starts(gs, k as int)).last(),
            word_lengths@ == gaps(seq![0int] + word_starts(gs, k as int)),
            last_word_start <= k,
        decreases n - k,
    {
        let grapheme: &str = clusters[k];
        let c = grapheme.get_char(0);
        let is_word_char = char_is_alphanumeric(c);
        proof {
            lemma_word_starts_bounded(gs, k as int);
            lemma_word_starts_bounded(gs, k + 1);
            assert(gs[k as int] == clusters@[k as int]@);
        }
        if is_word_char && was_at_word_end {
            let len = character_lengths.len() - last_word_start;
            proof {
                lemma_gaps_push(seq![0int] + word_starts(gs, k as int), k as int);
                assert(starts_word(gs, k as int));
                assert(seq![0int] + word_starts(gs, k + 1) =~= (seq![0int] + word_starts(
                    gs,
                    k as int,
                )).push(k as int));
            }
            word_lengths.push(#[verifier::truncate] (len as u8));
            last_word_start = character_lengths.len();
        } else {
            proof {
                assert(!starts_word(gs, k as int));
                assert(word_starts(gs, k + 1) == word_starts(gs, k as int));
            }
        }
        was_at_word_end = !is_word_char;
        character_lengths.push(#[verifier::truncate] (grapheme.len() as u8));
        k = k + 1;
    }
    let tail = character_lengths.len() - last_word_start;
    proof {
        lemma_gaps_push(seq![0int] + word_starts(gs, n as int), n as int);
        assert(seq![0int] + word_starts(gs, n as int) + seq![n as int] =~= (seq![0int]
            + word_starts(gs, n as int)).push(n as int));
    }
    word_lengths.push(#[verifier::truncate] (tail as u8));
    (character_lengths, word_lengths)
}

} // verus!
