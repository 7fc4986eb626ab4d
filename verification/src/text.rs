//! Character-level building blocks: whitespace, trimming, stripping of
//! delimiters, splitting on a separator, and the passage between `str` /
//! `String` and sequences of characters.
//!
//! Every function works on a slice of `char` and states its result over the
//! slice's view, a `Seq<char>`.

use vstd::prelude::*;
use vstd::slice::slice_subrange;

verus! {

/// Whether `c` has the Unicode property `White_Space`; this is the set that
/// `char::is_whitespace` accepts.
pub open spec fn is_space(c: char) -> bool {
    let n = c as int;
    ||| 0x09 <= n <= 0x0D
    ||| n == 0x20
    ||| n == 0x85
    ||| n == 0xA0
    ||| n == 0x1680
    ||| 0x2000 <= n <= 0x200A
    ||| n == 0x2028
    ||| n == 0x2029
    ||| n == 0x202F
    ||| n == 0x205F
    ||| n == 0x3000
}

/// `s` without its leading whitespace.
pub open spec fn trimmed_start(s: Seq<char>) -> Seq<char>
    decreases s.len(),
{
    if s.len() > 0 && is_space(s.first()) {
        trimmed_start(s.drop_first())
    } else {
        s
    }
}

/// `s` without its trailing whitespace.
pub open spec fn trimmed_end(s: Seq<char>) -> Seq<char>
    decreases s.len(),
{
    if s.len() > 0 && is_space(s.last()) {
        trimmed_end(s.drop_last())
    } else {
        s
    }
}

/// `s` without its leading and trailing whitespace.
pub open spec fn trimmed(s: Seq<char>) -> Seq<char> {
    trimmed_end(trimmed_start(s))
}

/// `s` without one leading `c`, if it starts with one.
pub open spec fn without_prefix(s: Seq<char>, c: char) -> Seq<char> {
    if s.len() > 0 && s.first() == c {
        s.drop_first()
    } else {
        s
    }
}

/// `s` without one trailing `c`, if it ends with one.
pub open spec fn without_suffix(s: Seq<char>, c: char) -> Seq<char> {
    if s.len() > 0 && s.last() == c {
        s.drop_last()
    } else {
        s
    }
}

/// `s` without every leading `c`.
pub open spec fn without_leading(s: Seq<char>, c: char) -> Seq<char>
    decreases s.len(),
{
    if s.len() > 0 && s.first() == c {
        without_leading(s.drop_first(), c)
    } else {
        s
    }
}

/// `s` without every trailing `c`.
pub open spec fn without_trailing(s: Seq<char>, c: char) -> Seq<char>
    decreases s.len(),
{
    if s.len() > 0 && s.last() == c {
        without_trailing(s.drop_last(), c)
    } else {
        s
    }
}

/// `s` without every leading and every trailing `c`.
pub open spec fn without_surrounding(s: Seq<char>, c: char) -> Seq<char> {
    without_trailing(without_leading(s, c), c)
}

/// The index of the first `c` in `s`, or `s.len()` if there is none.
pub open spec fn first_index(s: Seq<char>, c: char) -> int
    decreases s.len(),
{
    if s.len() == 0 || s.first() == c {
        0
    } else {
        1 + first_index(s.drop_first(), c)
    }
}

/// The pieces of `s` between occurrences of `sep`, in order. There is always
/// at least one piece; a piece may be empty.
pub open spec fn pieces(s: Seq<char>, sep: char) -> Seq<Seq<char>>
    decreases s.len(),
{
    let k = first_index(s, sep);
    if 0 <= k < s.len() {
        seq![s.take(k)] + pieces(s.skip(k + 1), sep)
    } else {
        seq![s]
    }
}

/// The pieces joined again, with `sep` between neighbours.
pub open spec fn joined(parts: Seq<Seq<char>>, sep: char) -> Seq<char>
    decreases parts.len(),
{
    if parts.len() == 0 {
        Seq::empty()
    } else if parts.len() == 1 {
        parts[0]
    } else {
        parts[0] + seq![sep] + joined(parts.drop_first(), sep)
    }
}

/// The character sequences that a vector of slices holds.
pub open spec fn texts(v: Seq<&[char]>) -> Seq<Seq<char>> {
    Seq::new(v.len(), |i: int| v[i]@)
}

/// `first_index` is within bounds, nothing before it is `c`, and it points
/// at a `c` unless it is the length.
pub proof fn lemma_first_index(s: Seq<char>, c: char)
    ensures
        0 <= first_index(s, c) <= s.len(),
        forall|i: int| 0 <= i < first_index(s, c) ==> s[i] != c,
        first_index(s, c) < s.len() ==> s[first_index(s, c)] == c,
    decreases s.len(),
{
    if s.len() == 0 || s.first() == c {
    } else {
        let rest = s.drop_first();
        lemma_first_index(rest, c);
        assert forall|i: int| 0 <= i < first_index(s, c) implies s[i] != c by {
            if i > 0 {
                assert(s[i] == rest[i - 1]);
            }
        }
        assert(first_index(s, c) < s.len() ==> s[first_index(s, c)] == rest[first_index(rest, c)]);
    }
}

/// A position `k` before which no `c` stands, and which holds a `c` or is
/// the length, is the first index of `c`.
pub proof fn lemma_first_index_is(s: Seq<char>, c: char, k: int)
    requires
        0 <= k <= s.len(),
        forall|i: int| 0 <= i < k ==> s[i] != c,
        k < s.len() ==> s[k] == c,
    ensures
        first_index(s, c) == k,
{
    lemma_first_index(s, c);
}

/// The number of times that `c` occurs in `s`.
pub open spec fn occurrences(s: Seq<char>, c: char) -> nat
    decreases s.len(),
{
    if s.len() == 0 {
        0
    } else if s.first() == c {
        1 + occurrences(s.drop_first(), c)
    } else {
        occurrences(s.drop_first(), c)
    }
}

/// Whether `c` occurs nowhere in `s`.
pub open spec fn free_of(s: Seq<char>, c: char) -> bool {
    forall|i: int| 0 <= i < s.len() ==> s[i] != c
}

/// Trimming at the start leaves a tail of `s`: what was dropped is
/// whitespace, and what is left does not start with whitespace. Returns the
/// number of characters dropped.
pub proof fn lemma_trimmed_start(s: Seq<char>) -> (k: int)
    ensures
        0 <= k <= s.len(),
        trimmed_start(s) == s.skip(k),
        forall|i: int| 0 <= i < k ==> is_space(s[i]),
        k < s.len() ==> !is_space(s[k]),
    decreases s.len(),
{
    if s.len() > 0 && is_space(s.first()) {
        let rest = s.drop_first();
        let k = lemma_trimmed_start(rest);
        assert(rest.skip(k) =~= s.skip(k + 1));
        assert forall|i: int| 0 <= i < k + 1 implies is_space(s[i]) by {
            if i > 0 {
                assert(s[i] == rest[i - 1]);
            }
        }
        assert(k + 1 < s.len() ==> s[k + 1] == rest[k]);
        k + 1
    } else {
        assert(s.skip(0) =~= s);
        0
    }
}

/// Trimming at the end leaves a head of `s`: what was dropped is
/// whitespace, and what is left does not end with whitespace. Returns the
/// number of characters kept.
pub proof fn lemma_trimmed_end(s: Seq<char>) -> (k: int)
    ensures
        0 <= k <= s.len(),
        trimmed_end(s) == s.take(k),
        forall|i: int| k <= i < s.len() ==> is_space(s[i]),
        k > 0 ==> !is_space(s[k - 1]),
    decreases s.len(),
{
    if s.len() > 0 && is_space(s.last()) {
        let rest = s.drop_last();
        let k = lemma_trimmed_end(rest);
        assert(rest.take(k) =~= s.take(k));
        assert forall|i: int| k <= i < s.len() implies is_space(s[i]) by {
            if i < s.len() - 1 {
                assert(s[i] == rest[i]);
            }
        }
        assert(k > 0 ==> s[k - 1] == rest[k - 1]);
        k
    } else {
        assert(s.take(s.len() as int) =~= s);
        s.len() as int
    }
}

/// What trimming does: `trimmed(s)` is the stretch of `s` from `lo` to
/// `hi`, everything outside the stretch is whitespace, and the stretch,
/// unless empty, neither starts nor ends with whitespace. Returns `lo` and
/// `hi`.
pub proof fn lemma_trimmed(s: Seq<char>) -> (bounds: (int, int))
    ensures
        0 <= bounds.0 <= bounds.1 <= s.len(),
        trimmed(s) == s.subrange(bounds.0, bounds.1),
        forall|i: int| 0 <= i < bounds.0 ==> is_space(s[i]),
        forall|i: int| bounds.1 <= i < s.len() ==> is_space(s[i]),
        bounds.0 < bounds.1 ==> !is_space(s[bounds.0]) && !is_space(s[bounds.1 - 1]),
{
    let lo = lemma_trimmed_start(s);
    let tail = s.skip(lo);
    let kept = lemma_trimmed_end(tail);
    assert(tail.take(kept) =~= s.subrange(lo, lo + kept));
    assert forall|i: int| lo + kept <= i < s.len() implies is_space(s[i]) by {
        assert(s[i] == tail[i - lo]);
    }
    if kept > 0 {
        assert(s[lo + kept - 1] == tail[kept - 1]);
        if kept == tail.len() {
        }
    }
    (lo, lo + kept)
}

/// A text that neither starts nor ends with whitespace is its own trimmed
/// form.
pub proof fn lemma_trimmed_unchanged(s: Seq<char>)
    requires
        s.len() > 0 ==> !is_space(s.first()) && !is_space(s.last()),
    ensures
        trimmed(s) == s,
{
}

/// Trimming twice is trimming once.
pub proof fn lemma_trimmed_twice(s: Seq<char>)
    ensures
        trimmed(trimmed(s)) == trimmed(s),
{
    let bounds = lemma_trimmed(s);
    let t = trimmed(s);
    if t.len() > 0 {
        assert(t.first() == s[bounds.0]);
        assert(t.last() == s[bounds.1 - 1]);
    }
    lemma_trimmed_unchanged(t);
}

/// A text without `sep` is its own single piece.
pub proof fn lemma_pieces_whole(s: Seq<char>, sep: char)
    requires
        free_of(s, sep),
    ensures
        pieces(s, sep) == seq![s],
{
    lemma_first_index(s, sep);
}

/// A text with `sep` at `k` and nowhere else has two pieces: what stands
/// before `k`, and what stands after it.
pub proof fn lemma_pieces_pair(s: Seq<char>, sep: char, k: int)
    requires
        0 <= k < s.len(),
        s[k] == sep,
        forall|i: int| 0 <= i < s.len() && i != k ==> s[i] != sep,
    ensures
        pieces(s, sep) == seq![s.take(k), s.skip(k + 1)],
{
    lemma_first_index_is(s, sep, k);
    lemma_pieces_whole(s.skip(k + 1), sep);
    assert(seq![s.take(k)] + seq![s.skip(k + 1)] =~= seq![s.take(k), s.skip(k + 1)]);
}

/// There is one piece more than there are separators, no piece holds a
/// separator, and the pieces joined with the separator are the text.
pub proof fn lemma_pieces(s: Seq<char>, sep: char)
    ensures
        pieces(s, sep).len() == occurrences(s, sep) + 1,
        forall|i: int| 0 <= i < pieces(s, sep).len() ==> free_of(#[trigger] pieces(s, sep)[i], sep),
        joined(pieces(s, sep), sep) == s,
    decreases s.len(),
{
    lemma_first_index(s, sep);
    let k = first_index(s, sep);
    lemma_occurrences_before(s, sep, k);
    if k < s.len() {
        let rest = s.skip(k + 1);
        let tail = pieces(rest, sep);
        let all = pieces(s, sep);
        lemma_pieces(rest, sep);
        assert(all =~= seq![s.take(k)] + tail);
        assert forall|i: int| 0 <= i < all.len() implies free_of(#[trigger] all[i], sep) by {
            if i > 0 {
                assert(all[i] == tail[i - 1]);
            }
        }
        assert(all.drop_first() =~= tail);
        assert(s.take(k) + seq![sep] + rest =~= s);
        assert(s.skip(k).drop_first() =~= rest);
    } else {
        assert(s.skip(k) =~= Seq::<char>::empty());
    }
}

/// The occurrences of `c` in `s` are those at or after its first index `k`.
proof fn lemma_occurrences_before(s: Seq<char>, c: char, k: int)
    requires
        k == first_index(s, c),
    ensures
        k < s.len() ==> occurrences(s, c) == 1 + occurrences(s.skip(k + 1), c),
        k >= s.len() ==> occurrences(s, c) == 0,
    decreases s.len(),
{
    if s.len() == 0 {
    } else if s.first() == c {
        assert(s.skip(1) =~= s.drop_first());
    } else {
        let rest = s.drop_first();
        lemma_first_index(s, c);
        lemma_occurrences_before(rest, c, k - 1);
        if k < s.len() {
            assert(rest.skip(k) =~= s.skip(k + 1));
        }
    }
}

/// Two texts with a separator between them have the pieces of the first
/// followed by the pieces of the second.
pub proof fn lemma_pieces_concat(a: Seq<char>, b: Seq<char>, sep: char)
    ensures
        pieces(a + seq![sep] + b, sep) == pieces(a, sep) + pieces(b, sep),
    decreases a.len(),
{
    let s = a + seq![sep] + b;
    let k = first_index(a, sep);
    lemma_first_index(a, sep);
    lemma_first_index_is(s, sep, k);
    if k < a.len() {
        let rest = a.skip(k + 1);
        assert(s.take(k) =~= a.take(k));
        assert(s.skip(k + 1) =~= rest + seq![sep] + b);
        lemma_pieces_concat(rest, b, sep);
        assert(seq![a.take(k)] + (pieces(rest, sep) + pieces(b, sep)) =~= (seq![a.take(k)]
            + pieces(rest, sep)) + pieces(b, sep));
    } else {
        assert(s.take(k) =~= a);
        assert(s.skip(k + 1) =~= b);
    }
}

/// Pieces are the only way to take a text apart at every separator: parts
/// that hold no separator and give `s` when joined are the pieces of `s`.
pub proof fn lemma_pieces_unique(parts: Seq<Seq<char>>, sep: char, s: Seq<char>)
    requires
        parts.len() >= 1,
        forall|i: int| 0 <= i < parts.len() ==> free_of(#[trigger] parts[i], sep),
        joined(parts, sep) == s,
    ensures
        parts == pieces(s, sep),
    decreases parts.len(),
{
    if parts.len() == 1 {
        assert(free_of(parts[0], sep));
        lemma_pieces_whole(s, sep);
        assert(parts =~= seq![s]);
    } else {
        let head = parts[0];
        let others = parts.drop_first();
        let rest = joined(others, sep);
        assert(free_of(head, sep));
        assert(s =~= head + seq![sep] + rest);
        lemma_first_index_is(s, sep, head.len() as int);
        assert(s.take(head.len() as int) =~= head);
        assert(s.skip(head.len() as int + 1) =~= rest);
        assert forall|i: int| 0 <= i < others.len() implies free_of(#[trigger] others[i], sep) by {
            assert(others[i] == parts[i + 1]);
        }
        lemma_pieces_unique(others, sep, rest);
        assert(parts =~= seq![head] + others);
    }
}

/// Whether `c` is whitespace.
pub fn is_whitespace(c: char) -> (b: bool)
    ensures
        b == is_space(c),
{
    let n: u32 = c as u32;
    (0x09 <= n && n <= 0x0D) || n == 0x20 || n == 0x85 || n == 0xA0 || n == 0x1680 || (0x2000 <= n
        && n <= 0x200A) || n == 0x2028 || n == 0x2029 || n == 0x202F || n == 0x205F || n == 0x3000
}

/// The part of `cs` that is left when leading and trailing whitespace is
/// taken away.
pub fn trim(cs: &[char]) -> (r: &[char])
    ensures
        r@ == trimmed(cs@),
{
    let mut lo: usize = 0;
    assert(cs@.skip(0) =~= cs@);
    while lo < cs.len() && is_whitespace(cs[lo])
        invariant
            lo <= cs.len(),
            trimmed_start(cs@) == trimmed_start(cs@.skip(lo as int)),
        decreases cs.len() - lo,
    {
        assert(cs@.skip(lo as int).drop_first() =~= cs@.skip(lo as int + 1));
        lo += 1;
    }
    let mut hi: usize = cs.len();
    assert(cs@.subrange(lo as int, hi as int) =~= cs@.skip(lo as int));
    while hi > lo && is_whitespace(cs[hi - 1])
        invariant
            lo <= hi <= cs.len(),
            trimmed(cs@) == trimmed_end(cs@.subrange(lo as int, hi as int)),
        decreases hi - lo,
    {
        assert(cs@.subrange(lo as int, hi as int).drop_last() =~= cs@.subrange(
            lo as int,
            hi as int - 1,
        ));
        hi -= 1;
    }
    slice_subrange(cs, lo, hi)
}

/// `cs` without one leading `c`, if it starts with one.
pub fn strip_prefix(cs: &[char], c: char) -> (r: &[char])
    ensures
        r@ == without_prefix(cs@, c),
{
    if cs.len() > 0 && cs[0] == c {
        assert(cs@.drop_first() =~= cs@.subrange(1, cs@.len() as int));
        slice_subrange(cs, 1, cs.len())
    } else {
        cs
    }
}

/// `cs` without one trailing `c`, if it ends with one.
pub fn strip_suffix(cs: &[char], c: char) -> (r: &[char])
    ensures
        r@ == without_suffix(cs@, c),
{
    if cs.len() > 0 && cs[cs.len() - 1] == c {
        assert(cs@.drop_last() =~= cs@.subrange(0, cs@.len() - 1));
        slice_subrange(cs, 0, cs.len() - 1)
    } else {
        cs
    }
}

/// `cs` without every leading and every trailing `c`.
pub fn strip_surrounding(cs: &[char], c: char) -> (r: &[char])
    ensures
        r@ == without_surrounding(cs@, c),
{
    let mut lo: usize = 0;
    assert(cs@.skip(0) =~= cs@);
    while lo < cs.len() && cs[lo] == c
        invariant
            lo <= cs.len(),
            without_leading(cs@, c) == without_leading(cs@.skip(lo as int), c),
        decreases cs.len() - lo,
    {
        assert(cs@.skip(lo as int).drop_first() =~= cs@.skip(lo as int + 1));
        lo += 1;
    }
    let mut hi: usize = cs.len();
    assert(cs@.subrange(lo as int, hi as int) =~= cs@.skip(lo as int));
    while hi > lo && cs[hi - 1] == c
        invariant
            lo <= hi <= cs.len(),
            without_surrounding(cs@, c) == without_trailing(
                cs@.subrange(lo as int, hi as int),
                c,
            ),
        decreases hi - lo,
    {
        assert(cs@.subrange(lo as int, hi as int).drop_last() =~= cs@.subrange(
            lo as int,
            hi as int - 1,
        ));
        hi -= 1;
    }
    slice_subrange(cs, lo, hi)
}

/// The pieces of `cs` between occurrences of `sep`, as sub-slices of `cs`.
pub fn split(cs: &[char], sep: char) -> (v: Vec<&[char]>)
    ensures
        texts(v@) == pieces(cs@, sep),
        v@.len() >= 1,
{
    let mut v: Vec<&[char]> = Vec::new();
    let mut start: usize = 0;
    let mut i: usize = 0;
    assert(cs@.skip(0) =~= cs@);
    assert(texts(v@) =~= Seq::<Seq<char>>::empty());
    while i < cs.len()
        invariant
            start <= i <= cs.len(),
            forall|j: int| start <= j < i ==> cs@[j] != sep,
            pieces(cs@, sep) == texts(v@) + pieces(cs@.skip(start as int), sep),
        decreases cs.len() - i,
    {
        if cs[i] == sep {
            let piece = slice_subrange(cs, start, i);
            proof {
                let rest = cs@.skip(start as int);
                lemma_first_index_is(rest, sep, i - start);
                assert(rest.take(i - start) =~= piece@);
                assert(rest.skip(i - start + 1) =~= cs@.skip(i as int + 1));
                assert(texts(v@.push(piece)) =~= texts(v@) + seq![piece@]);
            }
            v.push(piece);
            start = i + 1;
        }
        i += 1;
    }
    let piece = slice_subrange(cs, start, cs.len());
    proof {
        let rest = cs@.skip(start as int);
        lemma_first_index_is(rest, sep, rest.len() as int);
        assert(rest =~= piece@);
        assert(texts(v@.push(piece)) =~= texts(v@) + seq![piece@]);
    }
    v.push(piece);
    v
}

/// Whether `cs` holds exactly the characters of `word`.
pub fn is_text(cs: &[char], word: &str) -> (b: bool)
    ensures
        b == (cs@ == word@),
{
    let mut same = true;
    let mut i: usize = 0;
    for c in it: word.chars()
        invariant
            it.seq() == word@,
            i <= cs.len(),
            same ==> i == it.index() && cs@.take(i as int) == word@.take(i as int),
            !same ==> cs@ != word@,
    {
        if same {
            if i < cs.len() && cs[i] == c {
                assert(cs@.take(i as int + 1) =~= cs@.take(i as int).push(cs@[i as int]));
                assert(word@.take(i as int + 1) =~= word@.take(i as int).push(word@[i as int]));
                i += 1;
            } else {
                same = false;
            }
        }
    }
    proof {
        if same && i == cs.len() {
            assert(cs@.take(i as int) =~= cs@);
            assert(word@.take(i as int) =~= word@);
        }
    }
    same && i == cs.len()
}

/// The characters of `s`, one element each.
pub fn chars_of(s: &str) -> (v: Vec<char>)
    ensures
        v@ == s@,
{
    let mut v: Vec<char> = Vec::new();
    for c in it: s.chars()
        invariant
            v@ == it.seq().take(it.index()),
            it.seq() == s@,
    {
        v.push(c);
    }
    v
}

/// Appends one character with `String::push`: the string afterwards is the
/// string before with `c` at its end.
#[verifier::external_body]
fn push_char(s: &mut String, c: char)
    ensures
        final(s)@ == old(s)@.push(c),
{
    s.push(c)
}

/// A `String` with the characters of `cs`.
pub fn string_of(cs: &[char]) -> (s: String)
    ensures
        s@ == cs@,
{
    let mut s = String::new();
    let mut i: usize = 0;
    while i < cs.len()
        invariant
            i <= cs.len(),
            s@ == cs@.take(i as int),
        decreases cs.len() - i,
    {
        push_char(&mut s, cs[i]);
        i += 1;
    }
    s
}

/// What `str::to_lowercase` returns for a string with the characters `s`:
/// the lowercase form that Unicode defines. It is a function of the
/// characters alone; no locale enters into it. Nothing more is assumed of
/// it.
pub uninterp spec fn lowercase(s: Seq<char>) -> Seq<char>;

/// Calls `str::to_lowercase`; the result is, by definition, `lowercase` of
/// the argument's characters.
#[verifier::external_body]
fn to_lowercase(s: &str) -> (r: String)
    ensures
        r@ == lowercase(s@),
{
    s.to_lowercase()
}

/// The lowercase form of `cs`, as a `String`.
pub fn lowercase_string(cs: &[char]) -> (r: String)
    ensures
        r@ == lowercase(cs@),
{
    let s = string_of(cs);
    to_lowercase(s.as_str())
}

} // verus!
