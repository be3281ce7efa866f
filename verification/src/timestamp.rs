//! Points in time and their textual form.
//!
//! A timestamp counts nanoseconds since the Unix epoch. In the log it is
//! written as text of fixed width: twenty decimal digits of whole seconds, a
//! full stop, and nine decimal digits of nanoseconds, as in
//! `00000000001700000000.000000001`. Every timestamp has exactly one such
//! text, and texts sort as the instants they stand for.

use vstd::prelude::*;
use vstd::string::*;

verus! {

/// Nanoseconds in one second.
pub const NANOS_PER_SEC: u32 = 1_000_000_000;

/// Digits of whole seconds in a timestamp's text.
pub const SECS_WIDTH: usize = 20;

/// Digits of nanoseconds in a timestamp's text.
pub const NANOS_WIDTH: usize = 9;

/// Characters in a timestamp's text.
pub const TEXT_WIDTH: usize = 30;

/// The first count of nanoseconds that no timestamp can hold.
pub open spec fn timestamp_limit() -> nat {
    0x1_0000_0000_0000_0000 * 1_000_000_000
}

/// The character of a decimal digit.
pub open spec fn digit_char(d: nat) -> char {
    if d == 0 {
        '0'
    } else if d == 1 {
        '1'
    } else if d == 2 {
        '2'
    } else if d == 3 {
        '3'
    } else if d == 4 {
        '4'
    } else if d == 5 {
        '5'
    } else if d == 6 {
        '6'
    } else if d == 7 {
        '7'
    } else if d == 8 {
        '8'
    } else {
        '9'
    }
}

/// The digit that a character stands for; `None` for any other character.
pub open spec fn digit_of(c: char) -> Option<nat> {
    if c == '0' {
        Some(0)
    } else if c == '1' {
        Some(1)
    } else if c == '2' {
        Some(2)
    } else if c == '3' {
        Some(3)
    } else if c == '4' {
        Some(4)
    } else if c == '5' {
        Some(5)
    } else if c == '6' {
        Some(6)
    } else if c == '7' {
        Some(7)
    } else if c == '8' {
        Some(8)
    } else if c == '9' {
        Some(9)
    } else {
        None
    }
}

/// Ten to the power `width`.
pub open spec fn pow10(width: nat) -> nat
    decreases width,
{
    if width == 0 {
        1
    } else {
        10 * pow10((width - 1) as nat)
    }
}

/// The last `width` decimal digits of `n`, most significant first, padded
/// with zeros on the left.
pub open spec fn decimal(n: nat, width: nat) -> Seq<char>
    decreases width,
{
    if width == 0 {
        Seq::empty()
    } else {
        decimal(n / 10, (width - 1) as nat).push(digit_char(n % 10))
    }
}

/// The number that a string of decimal digits writes; `None` where a
/// character is no digit. The empty string writes zero.
pub open spec fn decimal_value(s: Seq<char>) -> Option<nat>
    decreases s.len(),
{
    if s.len() == 0 {
        Some(0)
    } else {
        match (decimal_value(s.drop_last()), digit_of(s.last())) {
            (Some(high), Some(d)) => Some(10 * high + d),
            _ => None,
        }
    }
}

/// The text of the instant `t` nanoseconds after the epoch.
pub open spec fn timestamp_text(t: nat) -> Seq<char> {
    decimal(t / 1_000_000_000, 20).push('.') + decimal(t % 1_000_000_000, 9)
}

/// The instant that a text stands for, in nanoseconds after the epoch; `None`
/// where the text is not the text of a timestamp.
pub open spec fn text_timestamp(s: Seq<char>) -> Option<nat> {
    if s.len() == 30 && s[20] == '.' {
        match (decimal_value(s.subrange(0, 20)), decimal_value(s.subrange(21, 30))) {
            (Some(secs), Some(nanos)) => if secs <= u64::MAX {
                Some(secs * 1_000_000_000 + nanos)
            } else {
                None
            },
            _ => None,
        }
    } else {
        None
    }
}

/// The digit of a digit's character is that digit.
pub proof fn lemma_digit_round_trip(d: nat)
    requires
        d < 10,
    ensures
        digit_of(digit_char(d)) == Some(d),
{
}

/// A character that stands for a digit is that digit's character.
pub proof fn lemma_digit_canonical(c: char)
    requires
        digit_of(c) is Some,
    ensures
        digit_of(c).unwrap() < 10,
        digit_char(digit_of(c).unwrap()) == c,
{
}

/// Powers of ten up to the twentieth stay below `10^20`, and are positive.
pub proof fn lemma_pow10_bound(width: nat)
    requires
        width <= 20,
    ensures
        0 < pow10(width) <= 100_000_000_000_000_000_000,
        pow10(20) == 100_000_000_000_000_000_000,
        pow10(9) == 1_000_000_000,
    decreases 20 - width,
{
    reveal_with_fuel(pow10, 21);
    if width < 20 {
        lemma_pow10_bound(width + 1);
    }
}

/// A number written in `width` digits has that many characters.
pub proof fn lemma_decimal_len(n: nat, width: nat)
    ensures
        decimal(n, width).len() == width,
    decreases width,
{
    if width > 0 {
        lemma_decimal_len(n / 10, (width - 1) as nat);
    }
}

/// Reading back the `width` digits of a number below `10^width` gives the number.
pub proof fn lemma_decimal_round_trip(n: nat, width: nat)
    requires
        n < pow10(width),
    ensures
        decimal_value(decimal(n, width)) == Some(n),
    decreases width,
{
    if width > 0 {
        let high = decimal(n / 10, (width - 1) as nat);
        lemma_decimal_round_trip(n / 10, (width - 1) as nat);
        lemma_digit_round_trip(n % 10);
        assert(decimal(n, width).drop_last() =~= high);
        assert(decimal(n, width).last() == digit_char(n % 10));
    }
}

/// A string of digits is the fixed-width writing of its own value, and the
/// value stays below ten to the power of its length.
pub proof fn lemma_decimal_canonical(s: Seq<char>)
    requires
        decimal_value(s) is Some,
    ensures
        decimal_value(s).unwrap() < pow10(s.len()),
        decimal(decimal_value(s).unwrap(), s.len()) == s,
    decreases s.len(),
{
    if s.len() > 0 {
        let n = decimal_value(s).unwrap();
        let high = decimal_value(s.drop_last()).unwrap();
        lemma_decimal_canonical(s.drop_last());
        lemma_digit_canonical(s.last());
        assert(n / 10 == high && n % 10 == digit_of(s.last()).unwrap());
        assert(decimal(n, s.len()) =~= s);
    } else {
        assert(decimal(0, 0) =~= s);
    }
}

/// A string with a character that is no digit writes no number.
pub proof fn lemma_decimal_rejects(s: Seq<char>, i: int)
    requires
        0 <= i < s.len(),
        digit_of(s[i]) is None,
    ensures
        decimal_value(s) is None,
    decreases s.len(),
{
    if i < s.len() - 1 {
        lemma_decimal_rejects(s.drop_last(), i);
    }
}

/// Reading a timestamp's text gives the timestamp back.
pub proof fn lemma_timestamp_round_trip(t: nat)
    requires
        t < timestamp_limit(),
    ensures
        timestamp_text(t).len() == 30,
        text_timestamp(timestamp_text(t)) == Some(t),
{
    let secs = t / 1_000_000_000;
    let nanos = t % 1_000_000_000;
    let text = timestamp_text(t);
    lemma_pow10_bound(20);
    lemma_decimal_len(secs, 20);
    lemma_decimal_len(nanos, 9);
    lemma_decimal_round_trip(secs, 20);
    lemma_decimal_round_trip(nanos, 9);
    assert(text.subrange(0, 20) =~= decimal(secs, 20));
    assert(text.subrange(21, 30) =~= decimal(nanos, 9));
    assert(text[20] == '.');
}

/// A text that stands for an instant is the text of that instant: no two
/// texts stand for the same instant.
pub proof fn lemma_timestamp_canonical(s: Seq<char>)
    requires
        text_timestamp(s) is Some,
    ensures
        text_timestamp(s).unwrap() < timestamp_limit(),
        timestamp_text(text_timestamp(s).unwrap()) == s,
{
    let high = s.subrange(0, 20);
    let low = s.subrange(21, 30);
    let secs = decimal_value(high).unwrap();
    let nanos = decimal_value(low).unwrap();
    let t = text_timestamp(s).unwrap();
    lemma_pow10_bound(20);
    lemma_decimal_canonical(high);
    lemma_decimal_canonical(low);
    assert(t / 1_000_000_000 == secs && t % 1_000_000_000 == nanos);
    assert(timestamp_text(t) =~= s);
}

/// Whether `a` and `b` agree before position `i` and `a` holds the smaller
/// character there.
pub open spec fn smaller_at(a: Seq<char>, b: Seq<char>, i: int) -> bool {
    &&& 0 <= i < a.len()
    &&& i < b.len()
    &&& a.subrange(0, i) == b.subrange(0, i)
    &&& (a[i] as u32) < (b[i] as u32)
}

/// Whether `a` sorts before `b` as strings do: `a` is a proper prefix of
/// `b`, or `a` holds the smaller character where the two first differ.
pub open spec fn text_before(a: Seq<char>, b: Seq<char>) -> bool {
    ||| (a.len() < b.len() && a == b.subrange(0, a.len() as int))
    ||| exists|i: int| smaller_at(a, b, i)
}

/// Of two strings of one length, at most one sorts before the other, and no
/// string sorts before itself.
pub proof fn lemma_text_before_asymmetric(a: Seq<char>, b: Seq<char>)
    requires
        a.len() == b.len(),
        text_before(a, b),
    ensures
        !text_before(b, a),
        a != b,
{
    let i = choose|i: int| smaller_at(a, b, i);
    if text_before(b, a) {
        let j = choose|j: int| smaller_at(b, a, j);
        if i < j {
            assert(b.subrange(0, j)[i] == a.subrange(0, j)[i]);
        } else if j < i {
            assert(a.subrange(0, i)[j] == b.subrange(0, i)[j]);
        }
    }
}

/// The smaller of two numbers below `10^width` has the writing that sorts
/// first; the result is the position where the two writings first differ.
pub proof fn lemma_decimal_order(n: nat, m: nat, width: nat) -> (i: int)
    requires
        n < m < pow10(width),
    ensures
        smaller_at(decimal(n, width), decimal(m, width), i),
    decreases width,
{
    let a = decimal(n, width);
    let b = decimal(m, width);
    let high_a = decimal(n / 10, (width - 1) as nat);
    let high_b = decimal(m / 10, (width - 1) as nat);
    lemma_decimal_len(n, width);
    lemma_decimal_len(m, width);
    lemma_decimal_len(n / 10, (width - 1) as nat);
    lemma_decimal_len(m / 10, (width - 1) as nat);
    if n / 10 < m / 10 {
        let i = lemma_decimal_order(n / 10, m / 10, (width - 1) as nat);
        assert(a.subrange(0, i) =~= high_a.subrange(0, i));
        assert(b.subrange(0, i) =~= high_b.subrange(0, i));
        assert(a[i] == high_a[i] && b[i] == high_b[i]);
        i
    } else {
        assert(n / 10 == m / 10 && n % 10 < m % 10);
        assert(a.subrange(0, width - 1) =~= high_a);
        assert(b.subrange(0, width - 1) =~= high_b);
        width - 1
    }
}

/// The texts of two timestamps sort as the instants do.
pub proof fn lemma_timestamp_text_sorts(s: nat, t: nat)
    requires
        s < timestamp_limit(),
        t < timestamp_limit(),
    ensures
        s < t <==> text_before(timestamp_text(s), timestamp_text(t)),
{
    lemma_timestamp_round_trip(s);
    lemma_timestamp_round_trip(t);
    if s < t {
        lemma_timestamp_order(s, t);
    } else if t < s {
        lemma_timestamp_order(t, s);
        lemma_text_before_asymmetric(timestamp_text(t), timestamp_text(s));
    } else {
        if text_before(timestamp_text(s), timestamp_text(t)) {
            lemma_text_before_asymmetric(timestamp_text(s), timestamp_text(t));
        }
    }
}

/// The text of the earlier of two instants sorts first.
proof fn lemma_timestamp_order(s: nat, t: nat)
    requires
        s < t < timestamp_limit(),
    ensures
        text_before(timestamp_text(s), timestamp_text(t)),
{
    let a = timestamp_text(s);
    let b = timestamp_text(t);
    let secs_a = decimal(s / 1_000_000_000, 20);
    let secs_b = decimal(t / 1_000_000_000, 20);
    let nanos_a = decimal(s % 1_000_000_000, 9);
    let nanos_b = decimal(t % 1_000_000_000, 9);
    lemma_pow10_bound(20);
    lemma_decimal_len(s / 1_000_000_000, 20);
    lemma_decimal_len(t / 1_000_000_000, 20);
    lemma_decimal_len(s % 1_000_000_000, 9);
    lemma_decimal_len(t % 1_000_000_000, 9);
    if s / 1_000_000_000 < t / 1_000_000_000 {
        let i = lemma_decimal_order(s / 1_000_000_000, t / 1_000_000_000, 20);
        assert(a.subrange(0, i) =~= secs_a.subrange(0, i));
        assert(b.subrange(0, i) =~= secs_b.subrange(0, i));
        assert(a[i] == secs_a[i] && b[i] == secs_b[i]);
        assert(smaller_at(a, b, i));
    } else {
        assert(s / 1_000_000_000 == t / 1_000_000_000);
        let j = lemma_decimal_order(s % 1_000_000_000, t % 1_000_000_000, 9);
        assert(a.subrange(0, 21 + j) =~= secs_a.push('.') + nanos_a.subrange(0, j));
        assert(b.subrange(0, 21 + j) =~= secs_b.push('.') + nanos_b.subrange(0, j));
        assert(a[21 + j] == nanos_a[j] && b[21 + j] == nanos_b[j]);
        assert(smaller_at(a, b, 21 + j));
    }
}

/// The one-character string of a decimal digit.
fn digit_str(d: u8) -> (r: &'static str)
    requires
        d < 10,
    ensures
        r@ == seq![digit_char(d as nat)],
{
    proof {
        reveal_strlit("0");
        reveal_strlit("1");
        reveal_strlit("2");
        reveal_strlit("3");
        reveal_strlit("4");
        reveal_strlit("5");
        reveal_strlit("6");
        reveal_strlit("7");
        reveal_strlit("8");
        reveal_strlit("9");
    }
    let r = if d == 0 {
        "0"
    } else if d == 1 {
        "1"
    } else if d == 2 {
        "2"
    } else if d == 3 {
        "3"
    } else if d == 4 {
        "4"
    } else if d == 5 {
        "5"
    } else if d == 6 {
        "6"
    } else if d == 7 {
        "7"
    } else if d == 8 {
        "8"
    } else {
        "9"
    };
    assert(r@ =~= seq![digit_char(d as nat)]);
    r
}

/// The digit that a character stands for, if it stands for one.
fn digit_value(c: char) -> (r: Option<u8>)
    ensures
        match r {
            Some(d) => digit_of(c) == Some(d as nat),
            None => digit_of(c) is None,
        },
{
    if c == '0' {
        Some(0)
    } else if c == '1' {
        Some(1)
    } else if c == '2' {
        Some(2)
    } else if c == '3' {
        Some(3)
    } else if c == '4' {
        Some(4)
    } else if c == '5' {
        Some(5)
    } else if c == '6' {
        Some(6)
    } else if c == '7' {
        Some(7)
    } else if c == '8' {
        Some(8)
    } else if c == '9' {
        Some(9)
    } else {
        None
    }
}

/// The digits written so far, least significant first, read as characters
/// with the most significant first.
spec fn written(digits: Seq<u8>, count: nat) -> Seq<char> {
    Seq::new(count, |i: int| digit_char(digits[digits.len() - 1 - i] as nat))
}

/// Appends the last `width` decimal digits of `n` to `out`.
fn push_decimal(out: &mut String, n: u64, width: usize)
    ensures
        final(out)@ == old(out)@ + decimal(n as nat, width as nat),
{
    let mut digits: Vec<u8> = Vec::new();
    let mut rest: u64 = n;
    let mut k: usize = 0;
    while k < width
        invariant
            k <= width,
            digits.len() == k,
            forall|i: int| 0 <= i < k ==> digits[i] < 10,
            decimal(n as nat, width as nat) == decimal(rest as nat, (width - k) as nat) + written(
                digits@,
                k as nat,
            ),
        decreases width - k,
    {
        let ghost before = digits@;
        let d: u8 = (rest % 10) as u8;
        digits.push(d);
        proof {
            let high = decimal((rest / 10) as nat, (width - k - 1) as nat);
            assert(decimal(rest as nat, (width - k) as nat) == high.push(digit_char(d as nat)));
            assert(high.push(digit_char(d as nat)) + written(before, k as nat) =~= high + written(
                digits@,
                (k + 1) as nat,
            ));
        }
        rest = rest / 10;
        k = k + 1;
    }
    assert(decimal(n as nat, width as nat) =~= written(digits@, width as nat));
    let mut j: usize = width;
    while j > 0
        invariant
            j <= width,
            digits.len() == width,
            forall|i: int| 0 <= i < width ==> digits[i] < 10,
            out@ == old(out)@ + written(digits@, (width - j) as nat),
        decreases j,
    {
        j = j - 1;
        out.append(digit_str(digits[j]));
        assert(out@ =~= old(out)@ + written(digits@, (width - j) as nat));
    }
}

/// Reads the digits of `s` from position `from` up to `to`.
fn read_decimal(s: &str, from: usize, to: usize) -> (r: Option<u128>)
    requires
        from <= to <= s@.len(),
        to - from <= 20,
    ensures
        match r {
            Some(v) => decimal_value(s@.subrange(from as int, to as int)) == Some(v as nat),
            None => decimal_value(s@.subrange(from as int, to as int)) is None,
        },
{
    let mut acc: u128 = 0;
    let mut i: usize = from;
    while i < to
        invariant
            from <= i <= to <= s@.len(),
            to - from <= 20,
            decimal_value(s@.subrange(from as int, i as int)) == Some(acc as nat),
        decreases to - i,
    {
        let ghost prefix = s@.subrange(from as int, i as int);
        let ghost longer = s@.subrange(from as int, i + 1);
        match digit_value(s.get_char(i)) {
            Some(d) => {
                proof {
                    lemma_decimal_canonical(prefix);
                    lemma_pow10_bound(prefix.len());
                    assert(longer.drop_last() =~= prefix);
                    assert(longer.last() == s@[i as int]);
                }
                acc = acc * 10 + d as u128;
            },
            None => {
                proof {
                    lemma_decimal_rejects(s@.subrange(from as int, to as int), i - from);
                }
                return None;
            },
        }
        i = i + 1;
    }
    Some(acc)
}

/// A point in time: whole seconds and nanoseconds since the Unix epoch.
#[derive(Clone, Copy, Debug, PartialEq, Eq, Structural)]
pub struct Timestamp {
    secs: u64,
    nanos: u32,
}

impl View for Timestamp {
    type V = nat;

    /// Nanoseconds since the epoch.
    closed spec fn view(&self) -> nat {
        (self.secs * 1_000_000_000 + self.nanos % 1_000_000_000) as nat
    }
}

impl Timestamp {
    #[verifier::type_invariant]
    spec fn well_formed(self) -> bool {
        self.nanos < 1_000_000_000
    }

    /// The timestamp `secs` seconds and `nanos` nanoseconds after the epoch;
    /// `None` where `nanos` is a full second or more.
    pub fn new(secs: u64, nanos: u32) -> (r: Option<Timestamp>)
        ensures
            r is Some <==> nanos < 1_000_000_000,
            r matches Some(t) ==> t@ == secs * 1_000_000_000 + nanos,
    {
        if nanos < NANOS_PER_SEC {
            Some(Timestamp { secs, nanos })
        } else {
            None
        }
    }

    /// Whole seconds since the epoch.
    pub fn secs(&self) -> (r: u64)
        ensures
            r == self@ / 1_000_000_000,
    {
        proof {
            use_type_invariant(self);
        }
        self.secs
    }

    /// Nanoseconds past the whole second.
    pub fn subsec_nanos(&self) -> (r: u32)
        ensures
            r == self@ % 1_000_000_000,
    {
        proof {
            use_type_invariant(self);
        }
        self.nanos
    }

    /// The text of this timestamp.
    pub fn to_text(&self) -> (r: String)
        ensures
            r@ == timestamp_text(self@),
    {
        proof {
            use_type_invariant(self);
        }
        let mut out = String::new();
        push_decimal(&mut out, self.secs, SECS_WIDTH);
        out.append(".");
        proof {
            reveal_strlit(".");
            assert("."@ =~= seq!['.']);
        }
        push_decimal(&mut out, self.nanos as u64, NANOS_WIDTH);
        assert(out@ =~= timestamp_text(self@));
        out
    }

    /// The timestamp that a text stands for; `None` where the text is not
    /// the text of a timestamp.
    pub fn from_text(s: &str) -> (r: Option<Timestamp>)
        ensures
            match r {
                Some(t) => text_timestamp(s@) == Some(t@),
                None => text_timestamp(s@) is None,
            },
    {
        if s.unicode_len() != TEXT_WIDTH {
            return None;
        }
        if s.get_char(SECS_WIDTH) != '.' {
            return None;
        }
        let secs = match read_decimal(s, 0, SECS_WIDTH) {
            Some(v) => v,
            None => {
                return None;
            },
        };
        let nanos = match read_decimal(s, SECS_WIDTH + 1, TEXT_WIDTH) {
            Some(v) => v,
            None => {
                return None;
            },
        };
        if secs > u64::MAX as u128 {
            return None;
        }
        proof {
            lemma_decimal_canonical(s@.subrange(21, 30));
            lemma_pow10_bound(9);
        }
        Some(Timestamp { secs: secs as u64, nanos: nanos as u32 })
    }

    /// Every timestamp lies below [`timestamp_limit`].
    pub proof fn lemma_bounded(self)
        ensures
            self@ < timestamp_limit(),
    {
    }
}

} // verus!
