//! Decimal text, and chapter ordering keys as exact decimals.
//!
//! A chapter's ordering key may be fractional ("Chapter 2.5"). It is kept in
//! thousandths, so that two keys are compared exactly; two keys closer than
//! `TOLERANCE` thousandths name the same chapter.

use vstd::prelude::*;
use crate::text::{
    find, first_match, is_first_match, lemma_first_match_is, lemma_first_match_none, matches_at,
    slice,
};

verus! {

/// Thousandths in one unit.
pub const SCALE: u128 = 1000;

/// Two keys less than this many thousandths apart name the same chapter.
pub const TOLERANCE: u128 = 10;

/// The decimal digit characters.
pub open spec fn is_digit(c: char) -> bool {
    0x30 <= c as u32 <= 0x39
}

/// The value of a decimal digit character.
pub open spec fn digit_value(c: char) -> nat {
    (c as u32 - 0x30) as nat
}

/// The character of the decimal digit `d`.
pub open spec fn digit_char(d: nat) -> char {
    if d == 0 {
        '0'
    } else if d == 1 {
        '1'
    } else if d == 2 {
        '2'
    } else if d == 3 {
        '3'
    } else if d == 4 {
        '4'
    } else if d == 5 {
        '5'
    } else if d == 6 {
        '6'
    } else if d == 7 {
        '7'
    } else if d == 8 {
        '8'
    } else {
        '9'
    }
}

/// Every character of `s` is a decimal digit.
pub open spec fn all_digits(s: Seq<char>) -> bool {
    forall|i: int| 0 <= i < s.len() ==> is_digit(#[trigger] s[i])
}

/// The number that the digits `s` write in base ten.
pub open spec fn digits_value(s: Seq<char>) -> nat
    decreases s.len(),
{
    if s.len() == 0 {
        0
    } else {
        digits_value(s.drop_last()) * 10 + digit_value(s.last())
    }
}

/// `n` written in base ten, without leading zeros.
pub open spec fn decimal(n: nat) -> Seq<char>
    decreases n,
{
    if n < 10 {
        seq![digit_char(n)]
    } else {
        decimal(n / 10).push(digit_char(n % 10))
    }
}

/// `n` written in base ten, with zeros in front up to three digits.
pub open spec fn decimal3(n: nat) -> Seq<char> {
    if n < 10 {
        seq!['0', '0'] + decimal(n)
    } else if n < 100 {
        seq!['0'] + decimal(n)
    } else {
        decimal(n)
    }
}

/// The whole and fractional digits of a text of the shape
/// digits, or digits `.` digits.
pub open spec fn decimal_parts(s: Seq<char>) -> Option<(Seq<char>, Seq<char>)> {
    match first_match(s, seq!['.']) {
        None => if s.len() > 0 && all_digits(s) {
            Some((s, Seq::<char>::empty()))
        } else {
            None
        },
        Some(p) => {
            let whole = s.take(p);
            let fraction = s.skip(p + 1);
            if whole.len() > 0 && fraction.len() > 0 && all_digits(whole) && all_digits(fraction) {
                Some((whole, fraction))
            } else {
                None
            }
        },
    }
}

/// The thousandths that whole digits and fractional digits stand for;
/// fractional digits beyond the third are cut off.
pub open spec fn thousandths_of(whole: Seq<char>, fraction: Seq<char>) -> nat {
    digits_value(whole) * 1000 + digits_value((fraction + seq!['0', '0', '0']).take(3))
}

/// The thousandths that a decimal text stands for, if it is one.
pub open spec fn parsed_thousandths(s: Seq<char>) -> Option<nat> {
    match decimal_parts(s) {
        Some((whole, fraction)) => Some(thousandths_of(whole, fraction)),
        None => None,
    }
}

/// A prefix of a digit string writes no larger a number.
pub proof fn lemma_digits_value_prefix(s: Seq<char>, i: int)
    requires
        0 <= i <= s.len(),
    ensures
        digits_value(s.take(i)) <= digits_value(s),
    decreases s.len() - i,
{
    if i == s.len() {
        assert(s.take(i) =~= s);
    } else {
        lemma_digits_value_prefix(s.drop_last(), i);
        assert(s.drop_last().take(i) =~= s.take(i));
    }
}

/// Whether `c` is a decimal digit.
pub fn digit(c: char) -> (b: bool)
    ensures
        b == is_digit(c),
{
    let u: u32 = c as u32;
    0x30 <= u && u <= 0x39
}

/// The character of the digit `d`.
pub fn digit_of(d: u8) -> (c: char)
    requires
        d < 10,
    ensures
        c == digit_char(d as nat),
{
    if d == 0 {
        '0'
    } else if d == 1 {
        '1'
    } else if d == 2 {
        '2'
    } else if d == 3 {
        '3'
    } else if d == 4 {
        '4'
    } else if d == 5 {
        '5'
    } else if d == 6 {
        '6'
    } else if d == 7 {
        '7'
    } else if d == 8 {
        '8'
    } else {
        '9'
    }
}

/// `n` written in base ten.
pub fn decimal_text(n: u128) -> (r: Vec<char>)
    ensures
        r@ == decimal(n as nat),
{
    let mut r: Vec<char> = Vec::new();
    r.push(digit_of((n % 10) as u8));
    let mut rest: u128 = n / 10;
    assert(seq![digit_char((n % 10) as nat)] =~= Seq::<char>::empty() + r@);
    while rest > 0
        invariant
            decimal(n as nat) == (if rest > 0 {
                decimal(rest as nat)
            } else {
                Seq::<char>::empty()
            }) + r@,
        decreases rest,
    {
        let ghost before = r@;
        let c = digit_of((rest % 10) as u8);
        r.insert(0, c);
        assert(r@ =~= seq![c] + before);
        proof {
            if rest < 10 {
                assert(decimal(rest as nat) + before =~= Seq::<char>::empty() + r@);
            } else {
                assert(decimal((rest / 10) as nat).push(c) + before =~= decimal(
                    (rest / 10) as nat,
                ) + r@);
            }
        }
        rest = rest / 10;
    }
    assert(Seq::<char>::empty() + r@ =~= r@);
    r
}

/// `n` written in base ten, with zeros in front up to three digits.
pub fn decimal3_text(n: u128) -> (r: Vec<char>)
    ensures
        r@ == decimal3(n as nat),
{
    let mut r = decimal_text(n);
    let ghost d = r@;
    if n < 10 {
        r.insert(0, '0');
        r.insert(0, '0');
        assert(r@ =~= seq!['0', '0'] + d);
    } else if n < 100 {
        r.insert(0, '0');
        assert(r@ =~= seq!['0'] + d);
    }
    r
}

/// Whether every character of `s` is a digit.
pub fn only_digits(s: &Vec<char>) -> (b: bool)
    ensures
        b == all_digits(s@),
{
    let mut i: usize = 0;
    while i < s.len()
        invariant
            i <= s.len(),
            forall|j: int| 0 <= j < i ==> is_digit(#[trigger] s@[j]),
        decreases s.len() - i,
    {
        if !digit(s[i]) {
            return false;
        }
        i += 1;
    }
    true
}

/// The number that the digits `s` write, unless it exceeds `u128::MAX`.
pub fn value_of_digits(s: &Vec<char>) -> (r: Option<u128>)
    requires
        all_digits(s@),
    ensures
        match r {
            Some(v) => v == digits_value(s@),
            None => digits_value(s@) > u128::MAX,
        },
{
    let mut acc: u128 = 0;
    let mut i: usize = 0;
    assert(s@.take(0) =~= Seq::<char>::empty());
    while i < s.len()
        invariant
            i <= s.len(),
            all_digits(s@),
            acc == digits_value(s@.take(i as int)),
        decreases s.len() - i,
    {
        let d: u128 = (s[i] as u32 - 0x30) as u128;
        proof {
            assert(is_digit(s@[i as int]));
            assert(s@.take(i + 1).drop_last() =~= s@.take(i as int));
            assert(s@.take(i + 1).last() == s@[i as int]);
            lemma_digits_value_prefix(s@, i + 1);
        }
        if acc > (u128::MAX - d) / 10 {
            return None;
        }
        acc = acc * 10 + d;
        i += 1;
    }
    assert(s@.take(s.len() as int) =~= s@);
    Some(acc)
}

/// A chapter's ordering key, in thousandths.
#[derive(Clone, Copy, PartialEq, Eq, Structural, Debug)]
pub struct ChapterNumber {
    pub thousandths: u128,
}

impl ChapterNumber {
    /// The distance between two keys, in thousandths.
    pub open spec fn distance(self, other: ChapterNumber) -> nat {
        if self.thousandths >= other.thousandths {
            (self.thousandths - other.thousandths) as nat
        } else {
            (other.thousandths - self.thousandths) as nat
        }
    }

    /// The two keys name the same chapter: they are less than the tolerance
    /// apart.
    pub open spec fn close_to(self, other: ChapterNumber) -> bool {
        self.distance(other) < TOLERANCE
    }

    /// The key of the chapter at position `index` of a listing: one more
    /// than the index, as a whole number.
    pub open spec fn at_position(index: nat) -> ChapterNumber {
        ChapterNumber { thousandths: ((index + 1) * 1000) as u128 }
    }

    /// The whole number `units`.
    pub fn whole(units: u64) -> (r: ChapterNumber)
        ensures
            r.thousandths == units * 1000,
    {
        ChapterNumber { thousandths: (units as u128) * SCALE }
    }

    /// Whether the two keys name the same chapter.
    pub fn is_close_to(&self, other: &ChapterNumber) -> (b: bool)
        ensures
            b == self.close_to(*other),
    {
        if self.thousandths >= other.thousandths {
            self.thousandths - other.thousandths < TOLERANCE
        } else {
            other.thousandths - self.thousandths < TOLERANCE
        }
    }

    /// The key of the chapter at position `index` of a listing.
    pub fn from_position(index: usize) -> (r: ChapterNumber)
        ensures
            r == ChapterNumber::at_position(index as nat),
    {
        ChapterNumber { thousandths: (index as u128 + 1) * SCALE }
    }

    /// The whole part of the key.
    pub fn units(&self) -> (r: u128)
        ensures
            r == self.thousandths / 1000,
    {
        self.thousandths / SCALE
    }

    /// Reads a decimal text: digits, or digits `.` digits. Anything else,
    /// or a number beyond `u128::MAX` thousandths, gives `None`.
    pub fn parse(s: &Vec<char>) -> (r: Option<ChapterNumber>)
        ensures
            match r {
                Some(n) => parsed_thousandths(s@) == Some(n.thousandths as nat),
                None => match parsed_thousandths(s@) {
                    Some(v) => v > u128::MAX,
                    None => true,
                },
            },
    {
        let mut dot: Vec<char> = Vec::new();
        dot.push('.');
        assert(dot@ =~= seq!['.']);
        let (whole, fraction) = match find(s, &dot) {
            None => (slice(s, 0, s.len()), Vec::new()),
            Some(p) => {
                let fraction = slice(s, p + 1, s.len());
                if fraction.len() == 0 {
                    return None;
                }
                (slice(s, 0, p), fraction)
            },
        };
        proof {
            assert(s@.subrange(0, s.len() as int) =~= s@);
        }
        if whole.len() == 0 || !only_digits(&whole) || !only_digits(&fraction) {
            return None;
        }
        assert(decimal_parts(s@) == Some((whole@, fraction@)));
        let mut padded: Vec<char> = Vec::new();
        let mut k: usize = 0;
        while k < 3
            invariant
                k <= 3,
                padded@ == (fraction@ + seq!['0', '0', '0']).take(k as int),
            decreases 3 - k,
        {
            let c = if k < fraction.len() {
                fraction[k]
            } else {
                '0'
            };
            padded.push(c);
            assert(padded@ =~= (fraction@ + seq!['0', '0', '0']).take(k + 1));
            k += 1;
        }
        assert(all_digits(padded@)) by {
            assert forall|i: int| 0 <= i < padded@.len() implies is_digit(
                #[trigger] padded@[i],
            ) by {
                if i < fraction@.len() {
                    assert(padded@[i] == fraction@[i]);
                }
            }
        }
        let low = match value_of_digits(&padded) {
            Some(v) => v,
            None => {
                return None;
            },
        };
        assert(low <= 999) by {
            lemma_three_digits(padded@);
        }
        match value_of_digits(&whole) {
            None => None,
            Some(high) => {
                if high > (u128::MAX - low) / SCALE {
                    None
                } else {
                    Some(ChapterNumber { thousandths: high * SCALE + low })
                }
            },
        }
    }

    /// The key as decimal text: the whole part, then a point and the
    /// fractional digits without trailing zeros where there are any.
    pub open spec fn text(self) -> Seq<char> {
        let whole = decimal((self.thousandths / 1000) as nat);
        let low = (self.thousandths % 1000) as nat;
        if low == 0 {
            whole
        } else if low % 100 == 0 {
            whole + seq!['.', digit_char(low / 100)]
        } else if low % 10 == 0 {
            whole + seq!['.', digit_char(low / 100), digit_char((low / 10) % 10)]
        } else {
            whole + seq!['.', digit_char(low / 100), digit_char((low / 10) % 10), digit_char(
                low % 10,
            )]
        }
    }

    /// The key as decimal text.
    pub fn to_text(&self) -> (r: Vec<char>)
        ensures
            r@ == self.text(),
    {
        let mut r = decimal_text(self.thousandths / SCALE);
        let ghost whole = r@;
        let low: u128 = self.thousandths % SCALE;
        if low != 0 {
            r.push('.');
            r.push(digit_of((low / 100) as u8));
            if low % 100 != 0 {
                r.push(digit_of(((low / 10) % 10) as u8));
                if low % 10 != 0 {
                    r.push(digit_of((low % 10) as u8));
                }
            }
        }
        assert(r@ =~= self.text());
        r
    }
}

/// The digit of a number below ten stands for that number.
pub proof fn lemma_digit_char(d: nat)
    requires
        d < 10,
    ensures
        is_digit(digit_char(d)),
        digit_value(digit_char(d)) == d,
{
}

/// What three digits write.
pub proof fn lemma_three_digits_value(a: char, b: char, c: char)
    ensures
        digits_value(seq![a, b, c]) == digit_value(a) * 100 + digit_value(b) * 10 + digit_value(
            c,
        ),
{
    let s = seq![a, b, c];
    let t = s.drop_last();
    let u = t.drop_last();
    assert(s.last() == c && t.last() == b && u.last() == a);
    assert(u.drop_last().len() == 0);
    assert(digits_value(u.drop_last()) == 0);
    assert(digits_value(u) == digit_value(a));
    assert(digits_value(t) == digits_value(u) * 10 + digit_value(b));
}

/// A number written in base ten is written in digits, and they write it.
pub proof fn lemma_decimal_writes(n: nat)
    ensures
        decimal(n).len() > 0,
        all_digits(decimal(n)),
        digits_value(decimal(n)) == n,
    decreases n,
{
    let s = decimal(n);
    if n < 10 {
        lemma_digit_char(n);
        assert(s.drop_last().len() == 0);
        assert(digits_value(s.drop_last()) == 0);
        assert(s.last() == digit_char(n));
    } else {
        lemma_decimal_writes(n / 10);
        lemma_digit_char(n % 10);
        assert(s.drop_last() =~= decimal(n / 10));
        assert(s.last() == digit_char(n % 10));
        assert forall|i: int| 0 <= i < s.len() implies is_digit(#[trigger] s[i]) by {
            if i < s.len() - 1 {
                assert(s[i] == decimal(n / 10)[i]);
            }
        }
    }
}

/// A text of digits holds no point.
pub proof fn lemma_digits_hold_no_point(s: Seq<char>, j: int)
    requires
        all_digits(s.take(j)),
        0 <= j <= s.len(),
    ensures
        forall|i: int| 0 <= i < j ==> !matches_at(s, seq!['.'], i),
{
    assert forall|i: int| 0 <= i < j implies !matches_at(s, seq!['.'], i) by {
        if matches_at(s, seq!['.'], i) {
            assert(s.subrange(i, i + 1)[0] == '.');
            assert(s.take(j)[i] == s[i]);
            assert(is_digit(s.take(j)[i]));
        }
    }
}

/// The text of a key stands for the key: read as a decimal text, it gives
/// the key's thousandths. So different keys have different texts.
pub proof fn lemma_text_parses(n: ChapterNumber)
    ensures
        parsed_thousandths(n.text()) == Some(n.thousandths as nat),
{
    let high = (n.thousandths / 1000) as nat;
    let low = (n.thousandths % 1000) as nat;
    let whole = decimal(high);
    let s = n.text();
    let p = whole.len() as int;
    lemma_decimal_writes(high);
    lemma_digit_char(low / 100);
    lemma_digit_char((low / 10) % 10);
    lemma_digit_char(low % 10);
    lemma_digit_char(0);
    assert(s.take(p) =~= whole);
    lemma_digits_hold_no_point(s, p);
    if low == 0 {
        assert(s =~= whole);
        assert forall|j: int| !matches_at(s, seq!['.'], j) by {}
        lemma_first_match_none(s, seq!['.']);
        let padded = (Seq::<char>::empty() + seq!['0', '0', '0']).take(3);
        assert(padded =~= seq!['0', '0', '0']);
        lemma_three_digits_value('0', '0', '0');
    } else {
        assert(s[p] == '.');
        assert(s.subrange(p, p + 1) =~= seq!['.']);
        assert(is_first_match(s, seq!['.'], p));
        lemma_first_match_is(s, seq!['.'], p);
        let fraction = s.skip(p + 1);
        let padded = (fraction + seq!['0', '0', '0']).take(3);
        let a = digit_char(low / 100);
        let b = digit_char((low / 10) % 10);
        let c = digit_char(low % 10);
        if low % 100 == 0 {
            assert(fraction =~= seq![a]);
            assert(padded =~= seq![a, '0', '0']);
            lemma_three_digits_value(a, '0', '0');
        } else if low % 10 == 0 {
            assert(fraction =~= seq![a, b]);
            assert(padded =~= seq![a, b, '0']);
            lemma_three_digits_value(a, b, '0');
        } else {
            assert(fraction =~= seq![a, b, c]);
            assert(padded =~= seq![a, b, c]);
            lemma_three_digits_value(a, b, c);
        }
        assert(all_digits(fraction));
        assert(digits_value(padded) == low);
    }
}

/// Keys with one text are one key.
pub proof fn lemma_text_tells_keys_apart(a: ChapterNumber, b: ChapterNumber)
    requires
        a.text() == b.text(),
    ensures
        a == b,
{
    lemma_text_parses(a);
    lemma_text_parses(b);
}

/// The text of a key holds digits and points only.
pub proof fn lemma_text_is_plain(n: ChapterNumber)
    ensures
        forall|i: int|
            0 <= i < n.text().len() ==> is_digit(#[trigger] n.text()[i]) || n.text()[i] == '.',
{
    let high = (n.thousandths / 1000) as nat;
    let low = (n.thousandths % 1000) as nat;
    lemma_decimal_writes(high);
    lemma_digit_char(low / 100);
    lemma_digit_char((low / 10) % 10);
    lemma_digit_char(low % 10);
    let whole = decimal(high);
    assert forall|i: int| 0 <= i < n.text().len() implies is_digit(#[trigger] n.text()[i])
        || n.text()[i] == '.' by {
        if i < whole.len() {
            assert(n.text()[i] == whole[i]);
        }
    }
}

/// Three digits write a number below a thousand.
pub proof fn lemma_three_digits(s: Seq<char>)
    requires
        s.len() == 3,
        all_digits(s),
    ensures
        digits_value(s) <= 999,
{
    let a = s.drop_last();
    let b = a.drop_last();
    let c = b.drop_last();
    assert(is_digit(s[2]) && is_digit(s[1]) && is_digit(s[0]));
    assert(a.last() == s[1]);
    assert(b.last() == s[0]);
    assert(c.len() == 0);
    assert(digits_value(c) == 0);
    assert(digits_value(b) == digit_value(s[0]));
    assert(digits_value(a) == digits_value(b) * 10 + digit_value(s[1]));
}

} // verus!
