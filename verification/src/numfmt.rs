//! Decimal rendering and parsing of unsigned integers, with a proved
//! round trip. Error display strings and date-time formatting build on it.
use vstd::prelude::*;

verus! {

/// The character for one decimal digit value.
pub open spec fn dec_digit_char(d: int) -> char {
    if d == 0 {
        '0'
    } else if d == 1 {
        '1'
    } else if d == 2 {
        '2'
    } else if d == 3 {
        '3'
    } else if d == 4 {
        '4'
    } else if d == 5 {
        '5'
    } else if d == 6 {
        '6'
    } else if d == 7 {
        '7'
    } else if d == 8 {
        '8'
    } else {
        '9'
    }
}

/// The numeric value of a decimal digit character.
pub open spec fn dec_char_val(c: char) -> int {
    if c == '0' {
        0
    } else if c == '1' {
        1
    } else if c == '2' {
        2
    } else if c == '3' {
        3
    } else if c == '4' {
        4
    } else if c == '5' {
        5
    } else if c == '6' {
        6
    } else if c == '7' {
        7
    } else if c == '8' {
        8
    } else {
        9
    }
}

/// Whether a character is a decimal digit.
pub open spec fn is_dec_digit(c: char) -> bool {
    c == '0' || c == '1' || c == '2' || c == '3' || c == '4' || c == '5' || c == '6' || c == '7'
        || c == '8' || c == '9'
}

/// The decimal rendering of a natural number, most significant digit
/// first, with no leading zeros (a lone zero renders as "0").
pub open spec fn spec_dec(n: nat) -> Seq<char>
    decreases n,
{
    if n < 10 {
        seq![dec_digit_char(n as int)]
    } else {
        spec_dec(n / 10).push(dec_digit_char((n % 10) as int))
    }
}

/// The value of a sequence of decimal digit characters, read most
/// significant digit first. An empty sequence reads as zero.
pub open spec fn spec_dec_val(s: Seq<char>) -> nat
    decreases s.len(),
{
    if s.len() == 0 {
        0
    } else {
        spec_dec_val(s.drop_last()) * 10 + dec_char_val(s.last()) as nat
    }
}

/// Whether every character of the sequence is a decimal digit.
pub open spec fn all_dec_digits(s: Seq<char>) -> bool {
    forall|i: int| 0 <= i < s.len() ==> is_dec_digit(#[trigger] s[i])
}

/// A decimal rendering is never empty, holds digits only, and reads back
/// as the number it renders: the formatting round trip.
pub proof fn lemma_dec_round_trip(n: nat)
    ensures
        spec_dec(n).len() >= 1,
        all_dec_digits(spec_dec(n)),
        spec_dec_val(spec_dec(n)) == n,
    decreases n,
{
    if n < 10 {
        let s = spec_dec(n);
        assert(s =~= seq![dec_digit_char(n as int)]);
        assert(s.drop_last() =~= Seq::<char>::empty());
        assert(s.last() == dec_digit_char(n as int));
        assert(spec_dec_val(s) == spec_dec_val(s.drop_last()) * 10 + dec_char_val(s.last()));
        assert(dec_char_val(dec_digit_char(n as int)) == n);
    } else {
        lemma_dec_round_trip(n / 10);
        let s = spec_dec(n);
        assert(s =~= spec_dec(n / 10).push(dec_digit_char((n % 10) as int)));
        assert(s.drop_last() =~= spec_dec(n / 10));
        assert(s.last() == dec_digit_char((n % 10) as int));
        assert(spec_dec_val(s) == spec_dec_val(spec_dec(n / 10)) * 10 + (n % 10));
        assert(n / 10 * 10 + n % 10 == n) by (nonlinear_arith);
    }
}

/// One decimal digit as a string slice.
fn digit_str(d: u64) -> (r: &'static str)
    requires
        d < 10,
    ensures
        r@ =~= seq![dec_digit_char(d as int)],
{
    proof {
        reveal_strlit("0");
        reveal_strlit("1");
        reveal_strlit("2");
        reveal_strlit("3");
        reveal_strlit("4");
        reveal_strlit("5");
        reveal_strlit("6");
        reveal_strlit("7");
        reveal_strlit("8");
        reveal_strlit("9");
    }
    if d == 0 {
        "0"
    } else if d == 1 {
        "1"
    } else if d == 2 {
        "2"
    } else if d == 3 {
        "3"
    } else if d == 4 {
        "4"
    } else if d == 5 {
        "5"
    } else if d == 6 {
        "6"
    } else if d == 7 {
        "7"
    } else if d == 8 {
        "8"
    } else {
        "9"
    }
}

/// Renders a number in decimal, no leading zeros.
pub fn u64_to_dec(n: u64) -> (r: String)
    ensures
        r@ == spec_dec(n as nat),
    decreases n,
{
    if n < 10 {
        let r = String::from_str(digit_str(n));
        assert(r@ =~= spec_dec(n as nat));
        r
    } else {
        let mut r = u64_to_dec(n / 10);
        r.append(digit_str(n % 10));
        assert(r@ =~= spec_dec(n as nat));
        r
    }
}

/// A number rendered right-aligned in two digits.
pub open spec fn spec_pad2(n: nat) -> Seq<char> {
    if n < 10 {
        seq!['0'] + spec_dec(n)
    } else {
        spec_dec(n)
    }
}

/// A number rendered right-aligned in four digits.
pub open spec fn spec_pad4(n: nat) -> Seq<char> {
    if n < 10 {
        seq!['0', '0', '0'] + spec_dec(n)
    } else if n < 100 {
        seq!['0', '0'] + spec_dec(n)
    } else if n < 1000 {
        seq!['0'] + spec_dec(n)
    } else {
        spec_dec(n)
    }
}

/// A number rendered right-aligned in six digits.
pub open spec fn spec_pad6(n: nat) -> Seq<char> {
    if n < 10 {
        seq!['0', '0', '0', '0', '0'] + spec_dec(n)
    } else if n < 100 {
        seq!['0', '0', '0', '0'] + spec_dec(n)
    } else if n < 1000 {
        seq!['0', '0', '0'] + spec_dec(n)
    } else if n < 10000 {
        seq!['0', '0'] + spec_dec(n)
    } else if n < 100000 {
        seq!['0'] + spec_dec(n)
    } else {
        spec_dec(n)
    }
}

/// The zero padding of each width, as a string slice.
fn zeros(w: u64) -> (r: &'static str)
    requires
        1 <= w <= 5,
    ensures
        r@ =~= Seq::new(w as nat, |i: int| '0'),
{
    proof {
        reveal_strlit("0");
        reveal_strlit("00");
        reveal_strlit("000");
        reveal_strlit("0000");
        reveal_strlit("00000");
    }
    if w == 1 {
        "0"
    } else if w == 2 {
        "00"
    } else if w == 3 {
        "000"
    } else if w == 4 {
        "0000"
    } else {
        "00000"
    }
}

/// Renders a number right-aligned in two digits.
pub fn u64_to_pad2(n: u64) -> (r: String)
    requires
        n < 100,
    ensures
        r@ == spec_pad2(n as nat),
{
    if n < 10 {
        let mut s = String::from_str(zeros(1));
        s.append(u64_to_dec(n).as_str());
        proof {
            assert(s@ =~= spec_pad2(n as nat));
        }
        s
    } else {
        u64_to_dec(n)
    }
}

/// Renders a number right-aligned in four digits.
pub fn u64_to_pad4(n: u64) -> (r: String)
    requires
        n < 10000,
    ensures
        r@ == spec_pad4(n as nat),
{
    if n >= 1000 {
        return u64_to_dec(n);
    }
    let w: u64 = if n < 10 {
        3
    } else if n < 100 {
        2
    } else {
        1
    };
    let mut s = String::from_str(zeros(w));
    s.append(u64_to_dec(n).as_str());
    proof {
        assert(s@ =~= spec_pad4(n as nat));
    }
    s
}

/// Renders a number right-aligned in six digits.
pub fn u64_to_pad6(n: u64) -> (r: String)
    requires
        n < 1000000,
    ensures
        r@ == spec_pad6(n as nat),
{
    if n >= 100000 {
        return u64_to_dec(n);
    }
    let w: u64 = if n < 10 {
        5
    } else if n < 100 {
        4
    } else if n < 1000 {
        3
    } else if n < 10000 {
        2
    } else {
        1
    };
    let mut s = String::from_str(zeros(w));
    s.append(u64_to_dec(n).as_str());
    proof {
        assert(s@ =~= spec_pad6(n as nat));
    }
    s
}

/// Whether a digit character stands at an index of a string.
pub(crate) fn is_digit_at(s: &str, i: usize) -> (r: bool)
    requires
        i < s@.len(),
    ensures
        r == is_dec_digit(s@[i as int]),
{
    let c = s.get_char(i);
    c == '0' || c == '1' || c == '2' || c == '3' || c == '4' || c == '5' || c == '6' || c == '7'
        || c == '8' || c == '9'
}

/// The numeric value of the digit character at an index of a string.
fn digit_val_at(s: &str, i: usize) -> (r: u64)
    requires
        i < s@.len(),
        is_dec_digit(s@[i as int]),
    ensures
        r == dec_char_val(s@[i as int]),
        r < 10,
{
    let c = s.get_char(i);
    if c == '0' {
        0
    } else if c == '1' {
        1
    } else if c == '2' {
        2
    } else if c == '3' {
        3
    } else if c == '4' {
        4
    } else if c == '5' {
        5
    } else if c == '6' {
        6
    } else if c == '7' {
        7
    } else if c == '8' {
        8
    } else {
        9
    }
}

/// Reads a whole string as an unsigned decimal number. Fails on an empty
/// string, on any non-digit character, and on a value over `u64::MAX`.
pub fn parse_u64_dec(s: &str) -> (r: Option<u64>)
    ensures
        r is Some <==> s@.len() >= 1 && all_dec_digits(s@) && spec_dec_val(s@) <= u64::MAX,
        r matches Some(v) ==> v == spec_dec_val(s@),
{
    let len = s.unicode_len();
    if len == 0 {
        return None;
    }
    let mut acc: u64 = 0;
    let mut i: usize = 0;
    while i < len
        invariant
            0 <= i <= len,
            len == s@.len(),
            all_dec_digits(s@.take(i as int)),
            acc == spec_dec_val(s@.take(i as int)),
        decreases len - i,
    {
        if !is_digit_at(s, i) {
            proof {
                let bad = s@[i as int];
                assert(s@[i as int] == bad);
                assert(!all_dec_digits(s@));
            }
            return None;
        }
        let d = digit_val_at(s, i);
        if acc > (u64::MAX - d) / 10 {
            proof {
                let pre = s@.take(i as int + 1);
                assert(pre.drop_last() =~= s@.take(i as int));
                assert(pre.last() == s@[i as int]);
                lemma_dec_val_prefix_monotone(s@, i as int + 1);
            }
            return None;
        }
        let next = acc * 10 + d;
        proof {
            let pre = s@.take(i as int + 1);
            assert(pre.drop_last() =~= s@.take(i as int));
            assert(pre.last() == s@[i as int]);
        }
        acc = next;
        i = i + 1;
    }
    proof {
        assert(s@.take(len as int) =~= s@);
    }
    Some(acc)
}

/// The longest digit-only prefix of a sequence.
pub open spec fn leading_digits(s: Seq<char>) -> Seq<char>
    decreases s.len(),
{
    if s.len() == 0 || !is_dec_digit(s[0]) {
        Seq::empty()
    } else {
        seq![s[0]] + leading_digits(s.skip(1))
    }
}

/// Digits followed by anything that opens with a non-digit: the
/// digit-only prefix is exactly the digits.
pub proof fn lemma_leading_digits_of_concat(d: Seq<char>, rest: Seq<char>)
    requires
        all_dec_digits(d),
        rest.len() > 0,
        !is_dec_digit(rest[0]),
    ensures
        leading_digits(d + rest) == d,
    decreases d.len(),
{
    if d.len() == 0 {
        assert(d + rest =~= rest);
        assert(leading_digits(rest) =~= Seq::empty());
        assert(d =~= Seq::<char>::empty());
    } else {
        assert((d + rest)[0] == d[0]);
        lemma_leading_digits_of_concat(d.skip(1), rest);
        assert((d + rest).skip(1) =~= d.skip(1) + rest);
        assert(leading_digits(d + rest) == seq![d[0]] + leading_digits((d + rest).skip(1)));
        assert(seq![d[0]] + d.skip(1) =~= d);
    }
}

/// A run of digits from `start` up to the first non-digit at `j` is the
/// digit-only prefix of the sequence cut at `start`.
pub proof fn lemma_leading_digits_subrange(s: Seq<char>, start: int, j: int)
    requires
        0 <= start <= j <= s.len(),
        forall|k: int| start <= k < j ==> is_dec_digit(#[trigger] s[k]),
        j == s.len() || !is_dec_digit(s[j]),
    ensures
        leading_digits(s.skip(start)) == s.subrange(start, j),
    decreases j - start,
{
    if start == j {
        if start == s.len() {
            assert(s.skip(start) =~= Seq::<char>::empty());
        } else {
            assert(s.skip(start)[0] == s[start]);
        }
        assert(leading_digits(s.skip(start)) =~= s.subrange(start, j));
    } else {
        assert(s.skip(start)[0] == s[start]);
        lemma_leading_digits_subrange(s, start + 1, j);
        assert(s.skip(start).skip(1) =~= s.skip(start + 1));
        assert(leading_digits(s.skip(start)) == seq![s[start]] + leading_digits(
            s.skip(start + 1),
        ));
        assert(seq![s[start]] + s.subrange(start + 1, j) =~= s.subrange(start, j));
    }
}

/// The value of a digit string only grows as more digits are appended:
/// the value of any prefix is at most the value of the whole.
pub proof fn lemma_dec_val_prefix_monotone(s: Seq<char>, k: int)
    requires
        0 <= k <= s.len(),
    ensures
        spec_dec_val(s.take(k)) <= spec_dec_val(s),
    decreases s.len() - k,
{
    if k < s.len() {
        lemma_dec_val_prefix_monotone(s, k + 1);
        let a = s.take(k);
        let b = s.take(k + 1);
        assert(b.drop_last() =~= a);
        assert(spec_dec_val(b) == spec_dec_val(a) * 10 + dec_char_val(b.last()) as nat);
        assert(spec_dec_val(a) <= spec_dec_val(a) * 10) by (nonlinear_arith);
    } else {
        assert(s.take(k) =~= s);
    }
}

} // verus!
