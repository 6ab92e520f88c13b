//! Text primitives over sequences of characters.
//!
//! Strings are viewed as `Seq<char>`; the executable functions work on
//! `Vec<char>` so that every index is a character index.

use vstd::prelude::*;
use vstd::std_specs::iter::IteratorSpec;

verus! {

/// `pat` occurs in `s` at character index `i`.
pub open spec fn matches_at(s: Seq<char>, pat: Seq<char>, i: int) -> bool {
    0 <= i && i + pat.len() <= s.len() && s.subrange(i, i + pat.len()) == pat
}

/// `pat` occurs somewhere in `s`.
pub open spec fn contains(s: Seq<char>, pat: Seq<char>) -> bool {
    exists|i: int| matches_at(s, pat, i)
}

/// `s` begins with `pat`.
pub open spec fn starts_with(s: Seq<char>, pat: Seq<char>) -> bool {
    matches_at(s, pat, 0)
}

/// `i` is the leftmost index at which `pat` occurs in `s`.
pub open spec fn is_first_match(s: Seq<char>, pat: Seq<char>, i: int) -> bool {
    matches_at(s, pat, i) && forall|j: int| 0 <= j < i ==> !matches_at(s, pat, j)
}

/// The leftmost index at which `pat` occurs in `s`, if it occurs at all.
pub open spec fn first_match(s: Seq<char>, pat: Seq<char>) -> Option<int> {
    if exists|i: int| is_first_match(s, pat, i) {
        Some(choose|i: int| is_first_match(s, pat, i))
    } else {
        None
    }
}

/// There is at most one leftmost occurrence.
pub proof fn lemma_first_match_unique(s: Seq<char>, pat: Seq<char>, i: int, k: int)
    requires
        is_first_match(s, pat, i),
        is_first_match(s, pat, k),
    ensures
        i == k,
{
    if i < k {
        assert(!matches_at(s, pat, i));
    } else if k < i {
        assert(!matches_at(s, pat, k));
    }
}

/// A leftmost occurrence at `i` is what `first_match` names.
pub proof fn lemma_first_match_is(s: Seq<char>, pat: Seq<char>, i: int)
    requires
        is_first_match(s, pat, i),
    ensures
        first_match(s, pat) == Some(i),
        contains(s, pat),
{
    let k = choose|k: int| is_first_match(s, pat, k);
    lemma_first_match_unique(s, pat, i, k);
}

/// Without any occurrence, `first_match` is `None`.
pub proof fn lemma_first_match_none(s: Seq<char>, pat: Seq<char>)
    requires
        forall|j: int| !matches_at(s, pat, j),
    ensures
        first_match(s, pat) is None,
        !contains(s, pat),
{
}

/// The characters of `s`, in order.
pub fn chars_of(s: &str) -> (v: Vec<char>)
    ensures
        v@ == s@,
{
    let mut v: Vec<char> = Vec::new();
    for c in it: s.chars()
        invariant
            it.seq() == s@,
            v@ == it.history(),
    {
        v.push(c);
    }
    assert(v@ =~= s@);
    v
}

/// Collects characters into a `String` through std's `FromIterator<&char>`
/// for `String`, which appends each character in order: the string reads
/// exactly as the vector does.
#[verifier::external_body]
pub(crate) fn string_of(chars: &Vec<char>) -> (s: String)
    ensures
        s@ == chars@,
{
    chars.iter().collect()
}

/// Whether `pat` occurs in `s` at index `i`.
pub fn occurs_at(s: &Vec<char>, pat: &Vec<char>, i: usize) -> (b: bool)
    ensures
        b == matches_at(s@, pat@, i as int),
{
    if pat.len() > s.len() || i > s.len() - pat.len() {
        return false;
    }
    let mut k: usize = 0;
    while k < pat.len()
        invariant
            k <= pat.len(),
            i + pat.len() <= s.len(),
            forall|j: int| 0 <= j < k ==> s@[i + j] == pat@[j],
        decreases pat.len() - k,
    {
        if s[i + k] != pat[k] {
            assert(s@.subrange(i as int, i + pat.len())[k as int] == s@[i + k]);
            return false;
        }
        k += 1;
    }
    assert(s@.subrange(i as int, i + pat.len()) =~= pat@);
    true
}

/// The leftmost index at or after `from` at which `pat` occurs in `s`,
/// counted from `from`.
pub fn find_from(s: &Vec<char>, from: usize, pat: &Vec<char>) -> (r: Option<usize>)
    requires
        from <= s.len(),
    ensures
        match r {
            Some(i) => first_match(s@.skip(from as int), pat@) == Some(i as int) && from + i
                + pat.len() <= s.len(),
            None => first_match(s@.skip(from as int), pat@) is None,
        },
{
    let ghost tail = s@.skip(from as int);
    let mut i: usize = from;
    while i <= s.len()
        invariant
            from <= i <= s.len(),
            tail == s@.skip(from as int),
            forall|j: int| 0 <= j < i - from ==> !matches_at(tail, pat@, j),
        decreases s.len() + 1 - i,
    {
        if occurs_at(s, pat, i) {
            proof {
                let d = i - from;
                assert(tail.subrange(d, d + pat.len()) =~= s@.subrange(i as int, i + pat.len()));
                lemma_first_match_is(tail, pat@, d);
            }
            return Some(i - from);
        }
        proof {
            let d = i - from;
            if matches_at(tail, pat@, d) {
                assert(tail.subrange(d, d + pat.len()) =~= s@.subrange(i as int, i + pat.len()));
            }
        }
        if i == s.len() {
            proof {
                assert forall|j: int| !matches_at(tail, pat@, j) by {
                    if matches_at(tail, pat@, j) {
                        assert(j <= tail.len());
                    }
                }
                lemma_first_match_none(tail, pat@);
            }
            return None;
        }
        i += 1;
    }
    None
}

/// The leftmost index at which `pat` occurs in `s`.
pub fn find(s: &Vec<char>, pat: &Vec<char>) -> (r: Option<usize>)
    ensures
        match r {
            Some(i) => first_match(s@, pat@) == Some(i as int) && i + pat.len() <= s.len(),
            None => first_match(s@, pat@) is None,
        },
{
    assert(s@.skip(0) =~= s@);
    find_from(s, 0, pat)
}

/// Whether `pat` occurs in `s`.
pub fn holds(s: &Vec<char>, pat: &Vec<char>) -> (b: bool)
    ensures
        b == contains(s@, pat@),
{
    match find(s, pat) {
        Some(i) => {
            proof {
                let k = choose|k: int| is_first_match(s@, pat@, k);
                assert(matches_at(s@, pat@, k));
            }
            true
        },
        None => {
            proof {
                if contains(s@, pat@) {
                    lemma_least_match(s@, pat@, choose|i: int| matches_at(s@, pat@, i));
                }
            }
            false
        },
    }
}

/// Below any occurrence there is a leftmost one.
pub proof fn lemma_least_match(s: Seq<char>, pat: Seq<char>, i: int)
    requires
        matches_at(s, pat, i),
    ensures
        exists|k: int| 0 <= k <= i && is_first_match(s, pat, k),
    decreases i,
{
    if forall|j: int| 0 <= j < i ==> !matches_at(s, pat, j) {
        assert(is_first_match(s, pat, i));
    } else {
        let j = choose|j: int| 0 <= j < i && matches_at(s, pat, j);
        lemma_least_match(s, pat, j);
    }
}

/// Whether `s` begins with `pat`.
pub fn begins_with(s: &Vec<char>, pat: &Vec<char>) -> (b: bool)
    ensures
        b == starts_with(s@, pat@),
{
    occurs_at(s, pat, 0)
}

/// The characters of `s` from index `from` up to `to`.
pub fn slice(s: &Vec<char>, from: usize, to: usize) -> (r: Vec<char>)
    requires
        from <= to <= s.len(),
    ensures
        r@ == s@.subrange(from as int, to as int),
{
    let mut r: Vec<char> = Vec::new();
    let mut i: usize = from;
    while i < to
        invariant
            from <= i <= to <= s.len(),
            r@ == s@.subrange(from as int, i as int),
        decreases to - i,
    {
        r.push(s[i]);
        assert(r@ =~= s@.subrange(from as int, i + 1));
        i += 1;
    }
    r
}

/// `a` followed by `b`.
pub fn chain(a: &Vec<char>, b: &Vec<char>) -> (r: Vec<char>)
    ensures
        r@ == a@ + b@,
{
    let mut r: Vec<char> = Vec::new();
    let mut i: usize = 0;
    while i < a.len()
        invariant
            i <= a.len(),
            r@ == a@.take(i as int),
        decreases a.len() - i,
    {
        r.push(a[i]);
        assert(r@ =~= a@.take(i + 1));
        i += 1;
    }
    assert(a@.take(a.len() as int) =~= a@);
    let mut k: usize = 0;
    while k < b.len()
        invariant
            k <= b.len(),
            r@ == a@ + b@.take(k as int),
        decreases b.len() - k,
    {
        r.push(b[k]);
        assert(r@ =~= a@ + b@.take(k + 1));
        k += 1;
    }
    assert(b@.take(b.len() as int) =~= b@);
    r
}


/// Which characters a trim removes from both ends of a text.
#[derive(Clone, Copy, PartialEq, Eq, Structural)]
pub enum Trim {
    /// Unicode white space.
    WhiteSpace,
    /// Full stops and plain spaces.
    DotsAndSpaces,
}

/// The characters with the Unicode property White_Space.
pub open spec fn is_space(c: char) -> bool {
    let u = c as u32;
    (0x09 <= u <= 0x0D) || u == 0x20 || u == 0x85 || u == 0xA0 || u == 0x1680 || (0x2000 <= u
        <= 0x200A) || u == 0x2028 || u == 0x2029 || u == 0x202F || u == 0x205F || u == 0x3000
}

/// The control characters: the Unicode general category Cc.
pub open spec fn is_control(c: char) -> bool {
    let u = c as u32;
    u < 0x20 || (0x7F <= u <= 0x9F)
}

impl Trim {
    /// Whether this trim removes `c`.
    pub open spec fn drops(self, c: char) -> bool {
        match self {
            Trim::WhiteSpace => is_space(c),
            Trim::DotsAndSpaces => c == '.' || c == ' ',
        }
    }

    /// Whether this trim removes `c`.
    pub fn removes(self, c: char) -> (b: bool)
        ensures
            b == self.drops(c),
    {
        match self {
            Trim::WhiteSpace => space(c),
            Trim::DotsAndSpaces => c == '.' || c == ' ',
        }
    }
}

/// Whether `c` is white space.
pub fn space(c: char) -> (b: bool)
    ensures
        b == is_space(c),
{
    let u: u32 = c as u32;
    (0x09 <= u && u <= 0x0D) || u == 0x20 || u == 0x85 || u == 0xA0 || u == 0x1680 || (0x2000 <= u
        && u <= 0x200A) || u == 0x2028 || u == 0x2029 || u == 0x202F || u == 0x205F || u == 0x3000
}

/// Whether `c` is a control character.
pub fn control(c: char) -> (b: bool)
    ensures
        b == is_control(c),
{
    let u: u32 = c as u32;
    u < 0x20 || (0x7F <= u && u <= 0x9F)
}

/// `s` without the longest prefix of characters that `trim` removes.
pub open spec fn strip_start(s: Seq<char>, trim: Trim) -> Seq<char>
    decreases s.len(),
{
    if s.len() > 0 && trim.drops(s[0]) {
        strip_start(s.skip(1), trim)
    } else {
        s
    }
}

/// `s` without the longest suffix of characters that `trim` removes.
pub open spec fn strip_end(s: Seq<char>, trim: Trim) -> Seq<char>
    decreases s.len(),
{
    if s.len() > 0 && trim.drops(s.last()) {
        strip_end(s.drop_last(), trim)
    } else {
        s
    }
}

/// `s` trimmed at both ends.
pub open spec fn strip(s: Seq<char>, trim: Trim) -> Seq<char> {
    strip_end(strip_start(s, trim), trim)
}

/// Dropping `a` removable characters from the front leaves the same trim.
pub proof fn lemma_strip_start_skip(s: Seq<char>, trim: Trim, a: int)
    requires
        0 <= a <= s.len(),
        forall|j: int| 0 <= j < a ==> trim.drops(s[j]),
    ensures
        strip_start(s, trim) == strip_start(s.skip(a), trim),
    decreases a,
{
    if a == 0 {
        assert(s.skip(0) =~= s);
    } else {
        assert(trim.drops(s[0]));
        let t = s.skip(1);
        assert forall|j: int| 0 <= j < a - 1 implies trim.drops(t[j]) by {
            assert(t[j] == s[j + 1]);
        }
        lemma_strip_start_skip(t, trim, a - 1);
        assert(t.skip(a - 1) =~= s.skip(a));
    }
}

/// Dropping removable characters from the back leaves the same trim.
pub proof fn lemma_strip_end_take(s: Seq<char>, trim: Trim, b: int)
    requires
        0 <= b <= s.len(),
        forall|j: int| b <= j < s.len() ==> trim.drops(s[j]),
    ensures
        strip_end(s, trim) == strip_end(s.take(b), trim),
    decreases s.len() - b,
{
    if b == s.len() {
        assert(s.take(b) =~= s);
    } else {
        assert(trim.drops(s.last()));
        let t = s.drop_last();
        lemma_strip_end_take(t, trim, b);
        assert(t.take(b) =~= s.take(b));
    }
}

/// A trimmed text neither begins nor ends with a character that the trim
/// removes, and is a contiguous part of the text.
pub proof fn lemma_strip_ends(s: Seq<char>, trim: Trim)
    ensures
        strip(s, trim).len() > 0 ==> !trim.drops(strip(s, trim)[0]) && !trim.drops(
            strip(s, trim).last(),
        ),
        exists|a: int, b: int| 0 <= a <= b <= s.len() && strip(s, trim) == s.subrange(a, b),
{
    lemma_strip_start_part(s, trim);
    let a = choose|a: int| 0 <= a <= s.len() && #[trigger] s.skip(a) == strip_start(s, trim);
    let m = s.skip(a);
    lemma_strip_end_part(m, trim);
    let b = choose|b: int| 0 <= b <= m.len() && #[trigger] m.take(b) == strip_end(m, trim);
    assert(m.take(b) =~= s.subrange(a, a + b));
    let r = strip(s, trim);
    if r.len() > 0 {
        assert(r[0] == m[0]);
    }
}

/// The front trim is a suffix of the text that does not begin with a
/// removable character.
pub proof fn lemma_strip_start_part(s: Seq<char>, trim: Trim)
    ensures
        exists|a: int| 0 <= a <= s.len() && #[trigger] s.skip(a) == strip_start(s, trim),
        strip_start(s, trim).len() > 0 ==> !trim.drops(strip_start(s, trim)[0]),
    decreases s.len(),
{
    if s.len() > 0 && trim.drops(s[0]) {
        let t = s.skip(1);
        lemma_strip_start_part(t, trim);
        let a = choose|a: int| 0 <= a <= t.len() && #[trigger] t.skip(a) == strip_start(t, trim);
        assert(s.skip(a + 1) =~= t.skip(a));
    } else {
        assert(s.skip(0) =~= s);
    }
}

/// The back trim is a prefix of the text that does not end with a removable
/// character, and it keeps the first character of a text that survives.
pub proof fn lemma_strip_end_part(s: Seq<char>, trim: Trim)
    ensures
        exists|b: int| 0 <= b <= s.len() && #[trigger] s.take(b) == strip_end(s, trim),
        strip_end(s, trim).len() > 0 ==> !trim.drops(strip_end(s, trim).last()) && strip_end(
            s,
            trim,
        )[0] == s[0],
    decreases s.len(),
{
    if s.len() > 0 && trim.drops(s.last()) {
        let t = s.drop_last();
        lemma_strip_end_part(t, trim);
        let b = choose|b: int| 0 <= b <= t.len() && #[trigger] t.take(b) == strip_end(t, trim);
        assert(s.take(b) =~= t.take(b));
    } else {
        assert(s.take(s.len() as int) =~= s);
    }
}

/// `s` trimmed at both ends.
pub fn trim(s: &Vec<char>, kind: Trim) -> (r: Vec<char>)
    ensures
        r@ == strip(s@, kind),
{
    let mut a: usize = 0;
    while a < s.len() && kind.removes(s[a])
        invariant
            a <= s.len(),
            forall|j: int| 0 <= j < a ==> kind.drops(s@[j]),
        decreases s.len() - a,
    {
        a += 1;
    }
    let mut b: usize = s.len();
    while b > a && kind.removes(s[b - 1])
        invariant
            a <= b <= s.len(),
            forall|j: int| b <= j < s.len() ==> kind.drops(s@[j]),
        decreases b,
    {
        b -= 1;
    }
    proof {
        lemma_strip_start_skip(s@, kind, a as int);
        let m = s@.skip(a as int);
        assert(strip_start(m, kind) == m) by {
            if m.len() > 0 {
                assert(m[0] == s@[a as int]);
            }
        }
        assert forall|j: int| b - a <= j < m.len() implies kind.drops(m[j]) by {
            assert(m[j] == s@[a + j]);
        }
        lemma_strip_end_take(m, kind, b - a);
        let e = m.take(b - a);
        assert(strip_end(e, kind) == e) by {
            if e.len() > 0 {
                assert(e.last() == s@[b - 1]);
            }
        }
        assert(e =~= s@.subrange(a as int, b as int));
    }
    slice(s, a, b)
}

/// `s` without the characters that occur in `junk`.
pub open spec fn without(s: Seq<char>, junk: Seq<char>) -> Seq<char>
    decreases s.len(),
{
    if s.len() == 0 {
        s
    } else if junk.contains(s.last()) {
        without(s.drop_last(), junk)
    } else {
        without(s.drop_last(), junk).push(s.last())
    }
}

/// Whether `c` occurs in `chars`.
pub fn member(chars: &Vec<char>, c: char) -> (b: bool)
    ensures
        b == chars@.contains(c),
{
    let mut i: usize = 0;
    while i < chars.len()
        invariant
            i <= chars.len(),
            forall|j: int| 0 <= j < i ==> chars@[j] != c,
        decreases chars.len() - i,
    {
        if chars[i] == c {
            return true;
        }
        i += 1;
    }
    false
}

/// `s` without the characters that occur in `junk`.
pub fn discard(s: &Vec<char>, junk: &Vec<char>) -> (r: Vec<char>)
    ensures
        r@ == without(s@, junk@),
{
    let mut r: Vec<char> = Vec::new();
    let mut i: usize = 0;
    while i < s.len()
        invariant
            i <= s.len(),
            r@ == without(s@.take(i as int), junk@),
        decreases s.len() - i,
    {
        let c = s[i];
        assert(s@.take(i + 1).drop_last() =~= s@.take(i as int));
        assert(s@.take(i + 1).last() == c);
        if !member(junk, c) {
            r.push(c);
        }
        i += 1;
    }
    assert(s@.take(s.len() as int) =~= s@);
    r
}

/// `s` without the occurrences of the pattern `pat`, taken from left to
/// right without overlap.
pub open spec fn without_pattern(s: Seq<char>, pat: Seq<char>) -> Seq<char>
    decreases s.len(),
{
    if pat.len() == 0 || s.len() == 0 {
        s
    } else if matches_at(s, pat, 0) {
        without_pattern(s.skip(pat.len() as int), pat)
    } else {
        seq![s[0]] + without_pattern(s.skip(1), pat)
    }
}

/// `s` without the occurrences of `pat`.
pub fn discard_pattern(s: &Vec<char>, pat: &Vec<char>) -> (r: Vec<char>)
    ensures
        r@ == without_pattern(s@, pat@),
{
    let mut r: Vec<char> = Vec::new();
    if pat.len() == 0 {
        assert(s@.subrange(0, s.len() as int) =~= s@);
        return slice(s, 0, s.len());
    }
    let mut i: usize = 0;
    assert(s@.skip(0) =~= s@);
    while i < s.len()
        invariant
            i <= s.len(),
            pat.len() > 0,
            without_pattern(s@, pat@) == r@ + without_pattern(s@.skip(i as int), pat@),
        decreases s.len() - i,
    {
        let ghost tail = s@.skip(i as int);
        let hit = occurs_at(s, pat, i);
        proof {
            assert(hit == matches_at(tail, pat@, 0)) by {
                if i + pat.len() <= s.len() {
                    assert(tail.subrange(0, pat.len() as int) =~= s@.subrange(
                        i as int,
                        i + pat.len(),
                    ));
                }
            }
        }
        if hit {
            assert(tail.skip(pat.len() as int) =~= s@.skip(i + pat.len()));
            i += pat.len();
        } else {
            assert(tail.skip(1) =~= s@.skip(i + 1));
            let ghost before = r@;
            r.push(s[i]);
            assert(r@ + without_pattern(s@.skip(i + 1), pat@) =~= before + (seq![tail[0]]
                + without_pattern(tail.skip(1), pat@)));
            i += 1;
        }
    }
    assert(r@ + without_pattern(s@.skip(i as int), pat@) =~= r@);
    r
}

/// The views of a vector of texts.
pub open spec fn texts(v: Seq<Vec<char>>) -> Seq<Seq<char>> {
    Seq::new(v.len(), |i: int| v[i]@)
}

/// The views of a vector of strings.
pub open spec fn strings(v: Seq<String>) -> Seq<Seq<char>> {
    Seq::new(v.len(), |i: int| v[i]@)
}

/// The pieces of `s` between occurrences of the separator `sep`. There is
/// always at least one piece.
pub open spec fn split_on(s: Seq<char>, sep: char) -> Seq<Seq<char>>
    decreases s.len(),
{
    if s.len() == 0 {
        seq![Seq::<char>::empty()]
    } else {
        let before = split_on(s.drop_last(), sep);
        if s.last() == sep {
            before.push(Seq::<char>::empty())
        } else {
            before.drop_last().push(before.last().push(s.last()))
        }
    }
}

/// The pieces of `s` between occurrences of `sep`.
pub fn split(s: &Vec<char>, sep: char) -> (r: Vec<Vec<char>>)
    ensures
        texts(r@) == split_on(s@, sep),
{
    let mut done: Vec<Vec<char>> = Vec::new();
    let mut current: Vec<char> = Vec::new();
    let mut i: usize = 0;
    assert(texts(done@).push(current@) =~= split_on(s@.take(0), sep));
    while i < s.len()
        invariant
            i <= s.len(),
            texts(done@).push(current@) == split_on(s@.take(i as int), sep),
        decreases s.len() - i,
    {
        let c = s[i];
        let ghost prefix = s@.take(i + 1);
        let ghost before = split_on(s@.take(i as int), sep);
        assert(prefix.drop_last() =~= s@.take(i as int));
        assert(prefix.last() == c);
        assert(before.last() == current@);
        assert(before.drop_last() =~= texts(done@));
        if c == sep {
            done.push(current);
            current = Vec::new();
            assert(texts(done@) =~= before);
        } else {
            current.push(c);
        }
        i += 1;
        assert(texts(done@).push(current@) =~= split_on(prefix, sep));
    }
    assert(s@.take(s.len() as int) =~= s@);
    let ghost all = texts(done@).push(current@);
    done.push(current);
    assert(texts(done@) =~= all);
    done
}

} // verus!
