//! Byte-string primitives: search, splitting on a separator, prefixes and
//! decimal rendering.

use vstd::prelude::*;

verus! {

/// `pat` stands in `s` at index `i`.
pub open spec fn occurs_at(s: Seq<u8>, pat: Seq<u8>, i: int) -> bool {
    0 <= i && i + pat.len() <= s.len() && s.subrange(i, i + pat.len()) == pat
}

/// `pat` stands somewhere in `s`.
pub open spec fn occurs_in(s: Seq<u8>, pat: Seq<u8>) -> bool {
    exists|i: int| occurs_at(s, pat, i)
}

/// `i` is the leftmost index at which `pat` stands in `s`.
pub open spec fn is_first_occurrence(s: Seq<u8>, pat: Seq<u8>, i: int) -> bool {
    occurs_at(s, pat, i) && forall|j: int| 0 <= j < i ==> !occurs_at(s, pat, j)
}

/// The leftmost index at which `pat` stands in `s`, if it stands there at all.
pub open spec fn first_occurrence(s: Seq<u8>, pat: Seq<u8>) -> Option<int> {
    if occurs_in(s, pat) {
        Some(choose|i: int| is_first_occurrence(s, pat, i))
    } else {
        None
    }
}

/// A leftmost occurrence is the one that `first_occurrence` names.
pub proof fn lemma_first_occurrence(s: Seq<u8>, pat: Seq<u8>, i: int)
    requires
        is_first_occurrence(s, pat, i),
    ensures
        first_occurrence(s, pat) == Some(i),
{
    let k = choose|k: int| is_first_occurrence(s, pat, k);
    assert(occurs_at(s, pat, i));
    assert(is_first_occurrence(s, pat, k));
    if k < i {
        assert(!occurs_at(s, pat, k));
    }
    if i < k {
        assert(!occurs_at(s, pat, i));
    }
}

/// Whatever `first_occurrence` names is a leftmost occurrence.
pub proof fn lemma_first_occurrence_is_first(s: Seq<u8>, pat: Seq<u8>)
    requires
        occurs_in(s, pat),
    ensures
        first_occurrence(s, pat) is Some,
        is_first_occurrence(s, pat, first_occurrence(s, pat)->0),
{
    let w = choose|i: int| occurs_at(s, pat, i);
    lemma_leftmost_exists(s, pat, w);
}

proof fn lemma_leftmost_exists(s: Seq<u8>, pat: Seq<u8>, w: int)
    requires
        occurs_at(s, pat, w),
    ensures
        exists|i: int| is_first_occurrence(s, pat, i),
    decreases w,
{
    if forall|j: int| 0 <= j < w ==> !occurs_at(s, pat, j) {
        assert(is_first_occurrence(s, pat, w));
    } else {
        let j = choose|j: int| 0 <= j < w && occurs_at(s, pat, j);
        lemma_leftmost_exists(s, pat, j);
    }
}

/// Whether `pat` stands in `s` at index `i`.
pub fn matches_at(s: &[u8], pat: &[u8], i: usize) -> (found: bool)
    ensures
        found == occurs_at(s@, pat@, i as int),
{
    if pat.len() > s.len() || i > s.len() - pat.len() {
        return false;
    }
    let mut k: usize = 0;
    while k < pat.len()
        invariant
            k <= pat.len(),
            i + pat.len() <= s.len(),
            forall|j: int| 0 <= j < k ==> s@[i + j] == pat@[j],
        decreases pat.len() - k,
    {
        if s[i + k] != pat[k] {
            proof {
                assert(s@.subrange(i as int, i + pat.len())[k as int] == s@[i + k]);
            }
            return false;
        }
        k += 1;
    }
    proof {
        assert(s@.subrange(i as int, i + pat.len()) =~= pat@);
    }
    true
}

/// The leftmost index at or after `from` at which `pat` stands in `s`.
pub fn find_from(s: &[u8], pat: &[u8], from: usize) -> (at: Option<usize>)
    ensures
        match at {
            Some(i) => from <= i && occurs_at(s@, pat@, i as int) && forall|j: int|
                from <= j < i ==> !occurs_at(s@, pat@, j),
            None => forall|j: int| from <= j ==> !occurs_at(s@, pat@, j),
        },
{
    if pat.len() > s.len() {
        return None;
    }
    let last: usize = s.len() - pat.len();
    let mut i: usize = from;
    while i <= last
        invariant
            from <= i,
            last == s.len() - pat.len(),
            forall|j: int| from <= j < i ==> !occurs_at(s@, pat@, j),
        decreases last + 1 - i,
    {
        if matches_at(s, pat, i) {
            return Some(i);
        }
        if i == last {
            return None;
        }
        i += 1;
    }
    None
}

/// The pieces of `s` between the occurrences of `sep`, taken leftmost first
/// and without overlap. There is always at least one piece; an empty
/// separator never matches.
pub open spec fn split(s: Seq<u8>, sep: Seq<u8>) -> Seq<Seq<u8>>
    decreases s.len(),
    via split_decreases
{
    match first_occurrence(s, sep) {
        Some(i) => if sep.len() > 0 {
            seq![s.take(i)] + split(s.skip(i + sep.len()), sep)
        } else {
            seq![s]
        },
        None => seq![s],
    }
}

#[via_fn]
proof fn split_decreases(s: Seq<u8>, sep: Seq<u8>) {
    if occurs_in(s, sep) {
        lemma_first_occurrence_is_first(s, sep);
    }
}

/// Splitting always gives at least one piece, and exactly one only where the
/// separator does not match.
pub proof fn lemma_split_pieces(s: Seq<u8>, sep: Seq<u8>)
    ensures
        split(s, sep).len() >= 1,
        split(s, sep).len() == 1 ==> split(s, sep) == seq![s],
    decreases s.len(),
{
    match first_occurrence(s, sep) {
        Some(i) => {
            if sep.len() > 0 {
                lemma_first_occurrence_is_first(s, sep);
                lemma_split_pieces(s.skip(i + sep.len()), sep);
            }
        },
        None => {},
    }
}

/// Where the separator does not stand in `s`, `s` is the only piece.
pub proof fn lemma_split_none(s: Seq<u8>, sep: Seq<u8>)
    requires
        !occurs_in(s, sep),
    ensures
        split(s, sep) == seq![s],
{
}

/// The first piece ends where the separator first stands; the other pieces
/// are those of what follows it.
pub proof fn lemma_split_first(s: Seq<u8>, sep: Seq<u8>, i: int)
    requires
        sep.len() > 0,
        is_first_occurrence(s, sep, i),
    ensures
        split(s, sep) == seq![s.take(i)] + split(s.skip(i + sep.len()), sep),
{
    lemma_first_occurrence(s, sep, i);
}

/// `sep` is not empty and has no border: no proper prefix of it is also a
/// suffix of it. Such a separator cannot begin inside a piece that does not
/// hold it and end inside the separator that follows the piece.
pub open spec fn unbordered(sep: Seq<u8>) -> bool {
    sep.len() > 0 && forall|k: int|
        0 < k < sep.len() ==> #[trigger] sep.subrange(0, k) != sep.subrange(
            sep.len() - k,
            sep.len() as int,
        )
}

/// After a piece that does not hold the separator, the separator that
/// follows is its first occurrence.
pub proof fn lemma_first_after_piece(piece: Seq<u8>, sep: Seq<u8>, rest: Seq<u8>)
    requires
        unbordered(sep),
        !occurs_in(piece, sep),
    ensures
        is_first_occurrence(piece + sep + rest, sep, piece.len() as int),
{
    let s = piece + sep + rest;
    let n = piece.len() as int;
    let width = sep.len() as int;
    assert(s.subrange(n, n + width) =~= sep);
    assert forall|j: int| 0 <= j < n implies !occurs_at(s, sep, j) by {
        if occurs_at(s, sep, j) {
            let found = s.subrange(j, j + width);
            if j + width <= n {
                assert(piece.subrange(j, j + width) =~= found);
                assert(occurs_at(piece, sep, j));
            } else {
                let k = j + width - n;
                assert forall|t: int| 0 <= t < k implies sep.subrange(0, k)[t] == sep.subrange(
                    width - k,
                    width,
                )[t] by {
                    assert(found[width - k + t] == s[n + t]);
                }
                assert(sep.subrange(0, k) =~= sep.subrange(width - k, width));
            }
        }
    }
}

/// Joining a piece that does not hold the separator to anything else by
/// the separator, and splitting again, gives the piece back first.
pub proof fn lemma_split_joined(piece: Seq<u8>, sep: Seq<u8>, rest: Seq<u8>)
    requires
        unbordered(sep),
        !occurs_in(piece, sep),
    ensures
        split(piece + sep + rest, sep) == seq![piece] + split(rest, sep),
{
    let s = piece + sep + rest;
    let n = piece.len() as int;
    lemma_first_after_piece(piece, sep, rest);
    lemma_split_first(s, sep, n);
    assert(s.take(n) =~= piece);
    assert(s.skip(n + sep.len()) =~= rest);
}

/// An occurrence in a suffix of `s` is an occurrence in `s`, shifted.
pub proof fn lemma_occurs_at_skip(s: Seq<u8>, pat: Seq<u8>, start: int, j: int)
    requires
        0 <= start <= s.len(),
        0 <= j,
    ensures
        occurs_at(s.skip(start), pat, j) == occurs_at(s, pat, start + j),
{
    if j + pat.len() <= s.len() - start {
        assert(s.skip(start).subrange(j, j + pat.len()) =~= s.subrange(
            start + j,
            start + j + pat.len(),
        ));
    }
}

/// The byte strings that a list of vectors holds.
pub open spec fn views(list: Seq<Vec<u8>>) -> Seq<Seq<u8>> {
    Seq::new(list.len(), |i: int| list[i]@)
}

/// Copies `s[from..to]`.
pub(crate) fn copy_range(s: &[u8], from: usize, to: usize) -> (out: Vec<u8>)
    requires
        from <= to <= s.len(),
    ensures
        out@ == s@.subrange(from as int, to as int),
{
    let mut out: Vec<u8> = Vec::new();
    out.extend_from_slice(&s[from..to]);
    out
}

/// Splits `s` on `sep`.
pub fn split_on(s: &[u8], sep: &[u8]) -> (parts: Vec<Vec<u8>>)
    ensures
        views(parts@) == split(s@, sep@),
{
    let mut parts: Vec<Vec<u8>> = Vec::new();
    if sep.len() == 0 {
        parts.push(copy_range(s, 0, s.len()));
        proof {
            assert(s@.subrange(0, s@.len() as int) =~= s@);
            assert(views(parts@) =~= seq![s@]);
            assert(first_occurrence(s@, sep@) is Some ==> sep@.len() == 0);
        }
        return parts;
    }
    let mut start: usize = 0;
    proof {
        assert(views(parts@) =~= Seq::<Seq<u8>>::empty());
        assert(s@.skip(0) =~= s@);
    }
    loop
        invariant
            sep.len() > 0,
            start <= s.len(),
            split(s@, sep@) == views(parts@) + split(s@.skip(start as int), sep@),
        decreases s.len() - start,
    {
        let ghost rest = s@.skip(start as int);
        let ghost done = views(parts@);
        match find_from(s, sep, start) {
            Some(i) => {
                let piece = copy_range(s, start, i);
                proof {
                    assert(is_first_occurrence(rest, sep@, i - start)) by {
                        lemma_occurs_at_skip(s@, sep@, start as int, i - start);
                        assert forall|j: int| 0 <= j < i - start implies !occurs_at(
                            rest,
                            sep@,
                            j,
                        ) by {
                            lemma_occurs_at_skip(s@, sep@, start as int, j);
                        }
                    }
                    lemma_first_occurrence(rest, sep@, i - start);
                    assert(rest.take(i - start) =~= piece@);
                    assert(rest.skip(i - start + sep.len()) =~= s@.skip(i + sep.len()));
                }
                parts.push(piece);
                start = i + sep.len();
                proof {
                    assert(views(parts@) =~= done + seq![piece@]);
                }
            },
            None => {
                let piece = copy_range(s, start, s.len());
                proof {
                    assert(!occurs_in(rest, sep@)) by {
                        if occurs_in(rest, sep@) {
                            let j = choose|j: int| occurs_at(rest, sep@, j);
                            lemma_occurs_at_skip(s@, sep@, start as int, j);
                        }
                    }
                    assert(rest =~= piece@);
                }
                parts.push(piece);
                proof {
                    assert(views(parts@) =~= done + seq![piece@]);
                }
                return parts;
            },
        }
    }
}

/// Whether two byte strings are the same.
pub fn equal(a: &[u8], b: &[u8]) -> (same: bool)
    ensures
        same == (a@ == b@),
{
    if a.len() != b.len() {
        return false;
    }
    let same = matches_at(a, b, 0);
    proof {
        assert(a@.subrange(0, a@.len() as int) =~= a@);
    }
    same
}

/// Whether `s` begins with `prefix`.
pub fn starts_with(s: &[u8], prefix: &[u8]) -> (found: bool)
    ensures
        found == prefix@.is_prefix_of(s@),
{
    matches_at(s, prefix, 0)
}

/// `s` without its leading `prefix`, taken away once; `s` itself where it
/// does not begin with `prefix`.
pub open spec fn strip_prefix(s: Seq<u8>, prefix: Seq<u8>) -> Seq<u8> {
    if prefix.is_prefix_of(s) {
        s.skip(prefix.len() as int)
    } else {
        s
    }
}

/// Removes a leading `prefix` from `s`, once.
pub fn remove_prefix(s: &[u8], prefix: &[u8]) -> (out: Vec<u8>)
    ensures
        out@ == strip_prefix(s@, prefix@),
{
    let start: usize = if starts_with(s, prefix) {
        prefix.len()
    } else {
        0
    };
    let out = copy_range(s, start, s.len());
    proof {
        assert(s@.skip(start as int) =~= s@.subrange(start as int, s@.len() as int));
        assert(s@.skip(0) =~= s@);
    }
    out
}

/// The decimal digits of `n` in ASCII, without leading zeros.
pub open spec fn decimal(n: nat) -> Seq<u8>
    decreases n,
{
    if n < 10 {
        seq![(48 + n) as u8]
    } else {
        decimal(n / 10).push((48 + n % 10) as u8)
    }
}

/// Appends the decimal digits of `n` to `out`.
pub fn push_decimal(out: &mut Vec<u8>, n: usize)
    ensures
        final(out)@ == old(out)@ + decimal(n as nat),
    decreases n,
{
    if n >= 10 {
        push_decimal(out, n / 10);
    }
    let digit: u8 = 48 + (n % 10) as u8;
    out.push(digit);
    proof {
        assert(out@ =~= old(out)@ + decimal(n as nat));
    }
}

} // verus!
