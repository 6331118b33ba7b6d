//! Checks of captured tool output against declarative expectations.
use vstd::prelude::*;

verus! {

/// `m` stands in `text` starting at byte `i`.
pub open spec fn occurs_at(text: Seq<u8>, m: Seq<u8>, i: int) -> bool {
    0 <= i && i + m.len() <= text.len() && text.subrange(i, i + m.len()) == m
}

/// How far a count moves past a match: the marker's length, or one byte
/// for the empty marker (which then matches at every position).
pub open spec fn advance(m: Seq<u8>) -> int {
    if m.len() == 0 {
        1
    } else {
        m.len() as int
    }
}

/// Number of non-overlapping occurrences of `m` in `text` at or after `i`,
/// taken left to right, each search resuming at the end of the previous match.
pub open spec fn count_from(text: Seq<u8>, m: Seq<u8>, i: int) -> nat
    decreases text.len() + 1 - i,
{
    if i < 0 || i > text.len() {
        0
    } else if occurs_at(text, m, i) {
        1 + count_from(text, m, i + advance(m))
    } else {
        count_from(text, m, i + 1)
    }
}

/// Number of non-overlapping occurrences of `m` in the whole of `text`.
pub open spec fn count_of(text: Seq<u8>, m: Seq<u8>) -> nat {
    count_from(text, m, 0)
}

/// The markers can be placed in `text` one after another, in the given order,
/// without overlapping, the first at or after position `pos`.
pub open spec fn in_order_from(text: Seq<u8>, markers: Seq<Seq<u8>>, pos: int) -> bool
    decreases markers.len(),
{
    if markers.len() == 0 {
        true
    } else {
        exists|i: int|
            pos <= i && #[trigger] occurs_at(text, markers[0], i) && in_order_from(
                text,
                markers.drop_first(),
                i + markers[0].len(),
            )
    }
}

/// The markers appear in `text` in the given order.
pub open spec fn in_order(text: Seq<u8>, markers: Seq<Seq<u8>>) -> bool {
    in_order_from(text, markers, 0)
}

/// The byte views of a list of markers.
pub open spec fn marker_views(markers: Seq<Vec<u8>>) -> Seq<Seq<u8>> {
    markers.map_values(|m: Vec<u8>| m@)
}

/// Starting later never helps: a placement from `p` is also one from any `q <= p`.
proof fn lemma_in_order_earlier(text: Seq<u8>, markers: Seq<Seq<u8>>, p: int, q: int)
    requires
        q <= p,
        in_order_from(text, markers, p),
    ensures
        in_order_from(text, markers, q),
{
    if markers.len() > 0 {
        let i = choose|i: int|
            p <= i && #[trigger] occurs_at(text, markers[0], i) && in_order_from(
                text,
                markers.drop_first(),
                i + markers[0].len(),
            );
        assert(q <= i);
    }
}

/// Taking the leftmost occurrence of the first marker loses nothing.
proof fn lemma_leftmost_step(text: Seq<u8>, markers: Seq<Seq<u8>>, pos: int, i: int)
    requires
        markers.len() > 0,
        pos <= i,
        occurs_at(text, markers[0], i),
        forall|j: int| pos <= j < i ==> !occurs_at(text, markers[0], j),
    ensures
        in_order_from(text, markers, pos) == in_order_from(
            text,
            markers.drop_first(),
            i + markers[0].len(),
        ),
{
    if in_order_from(text, markers, pos) {
        let j = choose|j: int|
            pos <= j && #[trigger] occurs_at(text, markers[0], j) && in_order_from(
                text,
                markers.drop_first(),
                j + markers[0].len(),
            );
        assert(i <= j);
        lemma_in_order_earlier(text, markers.drop_first(), j + markers[0].len(), i + markers[0].len());
    }
}

/// Whether `m` stands in `text` at position `i`.
pub fn matches_at(text: &[u8], m: &[u8], i: usize) -> (r: bool)
    ensures
        r == occurs_at(text@, m@, i as int),
{
    if i > text.len() || m.len() > text.len() - i {
        return false;
    }
    let mut j: usize = 0;
    while j < m.len()
        invariant
            i + m@.len() <= text@.len(),
            text@.len() <= usize::MAX,
            j <= m@.len(),
            forall|k: int| 0 <= k < j ==> text@[i + k] == m@[k],
        decreases m@.len() - j,
    {
        if text[i + j] != m[j] {
            assert(text@.subrange(i as int, i + m@.len())[j as int] != m@[j as int]);
            return false;
        }
        j = j + 1;
    }
    assert(text@.subrange(i as int, i + m@.len()) =~= m@);
    true
}

/// The leftmost position at or after `start` where `m` stands in `text`.
pub fn find_from(text: &[u8], m: &[u8], start: usize) -> (r: Option<usize>)
    ensures
        r matches Some(i) ==> start <= i && occurs_at(text@, m@, i as int) && forall|j: int|
            start <= j < i ==> !occurs_at(text@, m@, j),
        r is None ==> forall|j: int| start <= j ==> !occurs_at(text@, m@, j),
{
    if start > text.len() {
        return None;
    }
    let mut i: usize = start;
    loop
        invariant
            start <= i <= text@.len(),
            forall|j: int| start <= j < i ==> !occurs_at(text@, m@, j),
        decreases text@.len() - i,
    {
        if matches_at(text, m, i) {
            return Some(i);
        }
        if i == text.len() {
            return None;
        }
        i = i + 1;
    }
}

/// Counts the non-overlapping occurrences of `m` in `text`, left to right.
pub fn count_occurrences(text: &[u8], m: &[u8]) -> (n: usize)
    requires
        text@.len() < usize::MAX,
    ensures
        n == count_of(text@, m@),
{
    let mut n: usize = 0;
    let mut i: usize = 0;
    while i <= text.len()
        invariant
            text@.len() < usize::MAX,
            i <= text@.len() + 1,
            n <= i,
            count_of(text@, m@) == n + count_from(text@, m@, i as int),
        decreases text@.len() + 1 - i,
    {
        if matches_at(text, m, i) {
            n = n + 1;
            if m.len() == 0 {
                i = i + 1;
            } else {
                i = i + m.len();
            }
        } else {
            i = i + 1;
        }
    }
    n
}

/// Looks for the markers one after another, each search starting where the
/// previous match ended. `Ok` when all are found; otherwise `Err(k)`, where the
/// first `k` markers can be found in order and the first `k + 1` cannot.
pub fn check_in_order(text: &[u8], markers: &Vec<Vec<u8>>) -> (r: Result<(), usize>)
    ensures
        r is Ok <==> in_order(text@, marker_views(markers@)),
        r matches Err(k) ==> k < markers@.len() && in_order(
            text@,
            marker_views(markers@).take(k as int),
        ) && !in_order(text@, marker_views(markers@).take(k + 1)),
{
    let ghost ms = marker_views(markers@);
    let tl = text.len();
    let mut pos: usize = 0;
    let mut k: usize = 0;
    while k < markers.len()
        invariant
            ms == marker_views(markers@),
            tl == text@.len(),
            k <= ms.len(),
            pos <= text@.len(),
            in_order(text@, ms.take(k as int)),
            forall|s: Seq<Seq<u8>>|
                #[trigger] in_order(text@, ms.take(k as int) + s) == in_order_from(
                    text@,
                    s,
                    pos as int,
                ),
        decreases ms.len() - k,
    {
        let m = markers[k].as_slice();
        assert(m@ == ms[k as int]);
        match find_from(text, m, pos) {
            None => {
                proof {
                    let s = seq![ms[k as int]];
                    assert(ms.take(k + 1) =~= ms.take(k as int) + s);
                    assert(!in_order_from(text@, s, pos as int));
                    let rest = ms.skip(k as int);
                    assert(ms.take(k as int) + rest =~= ms);
                    assert(rest[0] == ms[k as int]);
                    assert(!in_order_from(text@, rest, pos as int));
                }
                return Err(k);
            },
            Some(i) => {
                proof {
                    assert forall|s: Seq<Seq<u8>>|
                        #[trigger] in_order(text@, ms.take(k + 1) + s) == in_order_from(
                            text@,
                            s,
                            i + m@.len(),
                        ) by {
                        let t = seq![ms[k as int]] + s;
                        assert(ms.take(k + 1) + s =~= ms.take(k as int) + t);
                        assert(t.drop_first() =~= s);
                        lemma_leftmost_step(text@, t, pos as int, i as int);
                    }
                    assert(ms.take(k + 1) + Seq::empty() =~= ms.take(k + 1));
                    assert(in_order_from(text@, Seq::<Seq<u8>>::empty(), i + m@.len()));
                }
                pos = i + m.len();
                k = k + 1;
            },
        }
    }
    proof {
        assert(ms.take(k as int) + Seq::empty() =~= ms);
        assert(in_order_from(text@, Seq::<Seq<u8>>::empty(), pos as int));
    }
    Ok(())
}

/// What captured output is expected to hold.
pub enum Expectation {
    /// Each marker appears, in this order, none overlapping the previous.
    InOrder(Vec<Vec<u8>>),
    /// The marker appears exactly this many times, counted without overlap.
    Count(Vec<u8>, usize),
    /// The marker does not appear at all.
    Absent(Vec<u8>),
}

/// Why an expectation was not met.
#[derive(Debug, PartialEq, Eq)]
pub enum Mismatch {
    /// The markers before `index` were found in order; the one at `index` was not found after them.
    MissingMarker { index: usize },
    /// The marker appeared `found` times where `expected` were wanted.
    CountDiffers { expected: usize, found: usize },
}

/// `e` holds of `text`.
pub open spec fn holds(e: Expectation, text: Seq<u8>) -> bool {
    match e {
        Expectation::InOrder(ms) => in_order(text, marker_views(ms@)),
        Expectation::Count(m, n) => count_of(text, m@) == n,
        Expectation::Absent(m) => count_of(text, m@) == 0,
    }
}

/// `r` is the right explanation of why `e` fails on `text`.
pub open spec fn explains(e: Expectation, text: Seq<u8>, r: Mismatch) -> bool {
    match (e, r) {
        (Expectation::InOrder(ms), Mismatch::MissingMarker { index }) => {
            &&& index < ms@.len()
            &&& in_order(text, marker_views(ms@).take(index as int))
            &&& !in_order(text, marker_views(ms@).take(index + 1))
        },
        (Expectation::Count(m, n), Mismatch::CountDiffers { expected, found }) => {
            expected == n && found == count_of(text, m@) && found != n
        },
        (Expectation::Absent(m), Mismatch::CountDiffers { expected, found }) => {
            expected == 0 && found == count_of(text, m@) && found != 0
        },
        _ => false,
    }
}

/// Checks `text` against `e`: `Ok` when it holds, else the sub-check that failed
/// with what was expected and what was found.
pub fn evaluate(e: &Expectation, text: &[u8]) -> (r: Result<(), Mismatch>)
    requires
        text@.len() < usize::MAX,
    ensures
        r is Ok <==> holds(*e, text@),
        r matches Err(m) ==> explains(*e, text@, m),
{
    match e {
        Expectation::InOrder(ms) => match check_in_order(text, ms) {
            Ok(()) => Ok(()),
            Err(index) => Err(Mismatch::MissingMarker { index }),
        },
        Expectation::Count(m, n) => {
            let found = count_occurrences(text, m.as_slice());
            if found == *n {
                Ok(())
            } else {
                Err(Mismatch::CountDiffers { expected: *n, found })
            }
        },
        Expectation::Absent(m) => {
            let found = count_occurrences(text, m.as_slice());
            if found == 0 {
                Ok(())
            } else {
                Err(Mismatch::CountDiffers { expected: 0, found })
            }
        },
    }
}

} // verus!
