//! Small verified utilities on characters and strings: single-character
//! replacement, decimal parsing and formatting, and hexadecimal formatting.

use vstd::prelude::*;

verus! {

/// `s` with every occurrence of `from` replaced by `to`.
pub open spec fn replace_char(s: Seq<char>, from: char, to: char) -> Seq<char> {
    s.map_values(|c: char| if c == from { to } else { c })
}

/// Relies on `str::chars` and `Iterator::collect`: the characters of the
/// string, in order.
#[verifier::external_body]
pub fn str_to_chars(s: &str) -> (r: Vec<char>)
    ensures
        r@ == s@,
{
    s.chars().collect()
}

/// Relies on `Iterator::collect` for `String`: the string made of exactly
/// these characters, in order.
#[verifier::external_body]
pub fn chars_to_string(v: &Vec<char>) -> (r: String)
    ensures
        r@ == v@,
{
    v.iter().collect()
}

/// Replace every occurrence of `from` in `s` by `to`.
pub fn replace_char_str(s: &str, from: char, to: char) -> (r: String)
    ensures
        r@ == replace_char(s@, from, to),
{
    let chars: Vec<char> = str_to_chars(s);
    let mut out: Vec<char> = Vec::new();
    let mut i: usize = 0;
    while i < chars.len()
        invariant
            0 <= i <= chars@.len(),
            chars@ == s@,
            out@ == replace_char(s@.take(i as int), from, to),
        decreases chars@.len() - i,
    {
        let c = chars[i];
        if c == from {
            out.push(to);
        } else {
            out.push(c);
        }
        proof {
            assert(s@.take(i + 1 as int).drop_last() == s@.take(i as int));
            assert(out@ =~= replace_char(s@.take(i + 1 as int), from, to));
        }
        i = i + 1;
    }
    proof {
        assert(s@.take(s@.len() as int) == s@);
    }
    chars_to_string(&out)
}

/// The decimal digit character for `d`.
pub open spec fn dec_digit(d: int) -> char {
    if d == 0 {
        '0'
    } else if d == 1 {
        '1'
    } else if d == 2 {
        '2'
    } else if d == 3 {
        '3'
    } else if d == 4 {
        '4'
    } else if d == 5 {
        '5'
    } else if d == 6 {
        '6'
    } else if d == 7 {
        '7'
    } else if d == 8 {
        '8'
    } else {
        '9'
    }
}

/// The decimal rendering of a nonnegative number, without leading zeros
/// (a single `'0'` for zero).
pub open spec fn dec_rep(n: nat) -> Seq<char>
    decreases n,
{
    if n < 10 {
        seq![dec_digit(n as int)]
    } else {
        dec_rep(n / 10).push(dec_digit((n % 10) as int))
    }
}

/// The hexadecimal digit character for `d` (lower case).
pub open spec fn hex_digit(d: int) -> char {
    if d < 10 {
        dec_digit(d)
    } else if d == 10 {
        'a'
    } else if d == 11 {
        'b'
    } else if d == 12 {
        'c'
    } else if d == 13 {
        'd'
    } else if d == 14 {
        'e'
    } else {
        'f'
    }
}

/// The hexadecimal rendering of a nonnegative number, without leading zeros
/// (a single `'0'` for zero), lower case.
pub open spec fn hex_rep(n: nat) -> Seq<char>
    decreases n,
{
    if n < 16 {
        seq![hex_digit(n as int)]
    } else {
        hex_rep(n / 16).push(hex_digit((n % 16) as int))
    }
}

fn dec_digit_char(d: u64) -> (c: char)
    requires
        d < 10,
    ensures
        c == dec_digit(d as int),
{
    match d {
        0 => '0',
        1 => '1',
        2 => '2',
        3 => '3',
        4 => '4',
        5 => '5',
        6 => '6',
        7 => '7',
        8 => '8',
        _ => '9',
    }
}

fn hex_digit_char(d: u64) -> (c: char)
    requires
        d < 16,
    ensures
        c == hex_digit(d as int),
{
    if d < 10 {
        dec_digit_char(d)
    } else {
        match d {
            10 => 'a',
            11 => 'b',
            12 => 'c',
            13 => 'd',
            14 => 'e',
            _ => 'f',
        }
    }
}

fn push_dec_digits(n: u64, out: &mut Vec<char>)
    ensures
        final(out)@ == old(out)@ + dec_rep(n as nat),
    decreases n,
{
    if n < 10 {
        out.push(dec_digit_char(n));
    } else {
        push_dec_digits(n / 10, out);
        out.push(dec_digit_char(n % 10));
    }
}

fn push_hex_digits(n: u64, out: &mut Vec<char>)
    ensures
        final(out)@ == old(out)@ + hex_rep(n as nat),
    decreases n,
{
    if n < 16 {
        out.push(hex_digit_char(n));
    } else {
        push_hex_digits(n / 16, out);
        out.push(hex_digit_char(n % 16));
    }
}

/// The decimal rendering of a nonnegative `i64`.
pub fn dec_string(n: i64) -> (r: String)
    requires
        n >= 0,
    ensures
        r@ == dec_rep(n as nat),
{
    let mut out: Vec<char> = Vec::new();
    push_dec_digits(n as u64, &mut out);
    proof {
        assert(out@ =~= dec_rep(n as nat));
    }
    chars_to_string(&out)
}

/// The hexadecimal rendering of a `u64`, lower case.
pub fn hex_string(n: u64) -> (r: String)
    ensures
        r@ == hex_rep(n as nat),
{
    let mut out: Vec<char> = Vec::new();
    push_hex_digits(n, &mut out);
    proof {
        assert(out@ =~= hex_rep(n as nat));
    }
    chars_to_string(&out)
}

/// Whether `c` is a decimal digit.
pub open spec fn is_dec_digit(c: char) -> bool {
    '0' as int <= c as int && c as int <= '9' as int
}

/// The value of a decimal digit character.
pub open spec fn dec_digit_val(c: char) -> int {
    c as int - '0' as int
}

/// Whether `s` is a nonempty run of decimal digits.
pub open spec fn is_dec_seq(s: Seq<char>) -> bool {
    s.len() > 0 && forall|i: int| 0 <= i < s.len() ==> is_dec_digit(#[trigger] s[i])
}

/// The number a run of decimal digits denotes.
pub open spec fn dec_seq_val(s: Seq<char>) -> int
    decreases s.len(),
{
    if s.len() == 0 {
        0
    } else {
        dec_seq_val(s.drop_last()) * 10 + dec_digit_val(s.last())
    }
}

/// Whether `s` is a decimal integer literal: an optional sign, then digits.
pub open spec fn int_literal_ok(s: Seq<char>) -> bool {
    if s.len() == 0 {
        false
    } else if s[0] == '-' || s[0] == '+' {
        is_dec_seq(s.drop_first())
    } else {
        is_dec_seq(s)
    }
}

/// The number a decimal integer literal denotes.
pub open spec fn int_literal_val(s: Seq<char>) -> int {
    if s.len() == 0 {
        0
    } else if s[0] == '-' {
        -dec_seq_val(s.drop_first())
    } else if s[0] == '+' {
        dec_seq_val(s.drop_first())
    } else {
        dec_seq_val(s)
    }
}

/// A run of decimal digits denotes a nonnegative number.
pub proof fn lemma_dec_seq_val_nonneg(s: Seq<char>)
    requires
        forall|i: int| 0 <= i < s.len() ==> is_dec_digit(#[trigger] s[i]),
    ensures
        dec_seq_val(s) >= 0,
    decreases s.len(),
{
    if s.len() > 0 {
        lemma_dec_seq_val_nonneg(s.drop_last());
    }
}

/// Extending a run of digits never shrinks the number it denotes.
pub proof fn lemma_dec_seq_val_extend(s: Seq<char>, k: int)
    requires
        forall|i: int| 0 <= i < s.len() ==> is_dec_digit(#[trigger] s[i]),
        0 <= k <= s.len(),
    ensures
        dec_seq_val(s) >= dec_seq_val(s.take(k)),
    decreases s.len() - k,
{
    if k < s.len() {
        lemma_dec_seq_val_extend(s, k + 1);
        assert(s.take(k + 1).drop_last() =~= s.take(k));
        assert(s.take(k + 1).last() == s[k]);
        lemma_dec_seq_val_nonneg(s.take(k));
    } else {
        assert(s.take(k) =~= s);
    }
}

/// Whether two string slices hold the same characters.
pub fn str_eq(a: &str, b: &str) -> (r: bool)
    ensures
        r == (a@ == b@),
{
    let av = str_to_chars(a);
    let bv = str_to_chars(b);
    if av.len() != bv.len() {
        proof {
            assert(a@.len() != b@.len());
        }
        return false;
    }
    let n = av.len();
    let mut i: usize = 0;
    while i < n
        invariant
            0 <= i <= n,
            n == av@.len() == bv@.len(),
            av@ == a@,
            bv@ == b@,
            forall|j: int| 0 <= j < i ==> a@[j] == b@[j],
        decreases n - i,
    {
        if av[i] != bv[i] {
            proof {
                assert(a@[i as int] != b@[i as int]);
            }
            return false;
        }
        i = i + 1;
    }
    proof {
        assert(a@ =~= b@);
    }
    true
}

/// Parse a decimal integer literal, exactly when it denotes a number the
/// result type can hold.
/// The value of a decimal digit character, or nothing for any other
/// character.
fn digit_value(c: char) -> (d: Option<i64>)
    ensures
        (d is Some) == is_dec_digit(c),
        (d matches Some(v) ==> v == dec_digit_val(c)),
{
    match c {
        '0' => Some(0),
        '1' => Some(1),
        '2' => Some(2),
        '3' => Some(3),
        '4' => Some(4),
        '5' => Some(5),
        '6' => Some(6),
        '7' => Some(7),
        '8' => Some(8),
        '9' => Some(9),
        _ => None,
    }
}

#[verifier::loop_isolation(false)]
pub fn parse_i64(s: &str) -> (r: Option<i64>)
    ensures
        (r is Some) == (int_literal_ok(s@) && i64::MIN <= int_literal_val(s@) <= i64::MAX),
        (r matches Some(v) ==> v as int == int_literal_val(s@)),
{
    let chars = str_to_chars(s);
    let n = chars.len();
    if n == 0 {
        return None;
    }
    let c0 = chars[0];
    let negative = c0 == '-';
    let start: usize = if c0 == '-' || c0 == '+' {
        1
    } else {
        0
    };
    if n == start {
        return None;
    }
    let ghost digits = s@.skip(start as int);
    // i64::MIN / 10, rounded toward zero: the last accumulator value whose
    // next shift cannot underflow
    let shift_floor: i64 = -922337203685477580;
    // the value is accumulated negated, so that the most negative number
    // needs no special case
    let mut acc: i64 = 0;
    let mut i: usize = start;
    while i < n
        invariant
            start <= i <= n,
            start <= 1,
            (start == 1) == (s@[0] == '-' || s@[0] == '+'),
            n == chars@.len(),
            chars@ == s@,
            forall|j: int| start <= j < i ==> is_dec_digit(#[trigger] s@[j]),
            acc == -dec_seq_val(s@.subrange(start as int, i as int)),
            i64::MIN <= acc <= 0,
        decreases n - i,
    {
        let d = match digit_value(chars[i]) {
            Some(d) => d,
            None => {
                proof {
                    assert(!is_dec_digit(s@[i as int]));
                    assert(!int_literal_ok(s@)) by {
                        if start == 1 {
                            assert(s@.drop_first()[i - 1] == s@[i as int]);
                        }
                    }
                }
                return None;
            },
        };
        let ghost prefix = s@.subrange(start as int, i as int);
        let ghost grown = s@.subrange(start as int, i + 1 as int);
        proof {
            assert(grown.drop_last() =~= prefix);
            assert(grown.last() == s@[i as int]);
            assert(dec_seq_val(grown) == dec_seq_val(prefix) * 10 + (d as int));
        }
        if acc < shift_floor {
            proof {
                lemma_out_of_range(s@, start as int, i + 1 as int, negative);
            }
            return None;
        }
        let shifted = acc * 10;
        if shifted < i64::MIN + d {
            proof {
                lemma_out_of_range(s@, start as int, i + 1 as int, negative);
            }
            return None;
        }
        acc = shifted - d;
        i = i + 1;
    }
    proof {
        assert(s@.subrange(start as int, n as int) =~= s@.skip(start as int));
        if start == 1 {
            assert(s@.skip(1) =~= s@.drop_first());
        } else {
            assert(s@.skip(0) =~= s@);
        }
        assert(int_literal_ok(s@));
        assert(acc as int == -dec_seq_val(s@.skip(start as int)));
        if negative {
            assert(int_literal_val(s@) == acc as int);
        } else {
            assert(int_literal_val(s@) == -(acc as int));
        }
    }
    if negative {
        Some(acc)
    } else {
        if acc == i64::MIN {
            None
        } else {
            Some(-acc)
        }
    }
}

/// If a digit prefix already denotes more than the result type's magnitude,
/// so does the whole literal.
proof fn lemma_out_of_range(s: Seq<char>, start: int, upto: int, negative: bool)
    requires
        0 <= start <= 1,
        start <= upto <= s.len(),
        (start == 1) == (s[0] == '-' || s[0] == '+'),
        negative == (s.len() > 0 && s[0] == '-'),
        forall|i: int| start <= i < upto ==> is_dec_digit(#[trigger] s[i]),
        dec_seq_val(s.subrange(start, upto)) > 0x8000_0000_0000_0000,
    ensures
        int_literal_ok(s) ==> !(i64::MIN <= int_literal_val(s) <= i64::MAX),
{
    if int_literal_ok(s) {
        let digits = s.skip(start);
        if start == 1 {
            assert(s.skip(1) =~= s.drop_first());
        } else {
            assert(s.skip(0) =~= s);
        }
        assert(forall|i: int| 0 <= i < digits.len() ==> is_dec_digit(#[trigger] digits[i]));
        assert(digits.take(upto - start) =~= s.subrange(start, upto));
        lemma_dec_seq_val_extend(digits, upto - start);
        assert(dec_seq_val(digits) > 0x8000_0000_0000_0000);
        if s[0] == '-' {
            assert(int_literal_val(s) == -dec_seq_val(digits));
        } else if s[0] == '+' {
            assert(int_literal_val(s) == dec_seq_val(digits));
        } else {
            assert(int_literal_val(s) == dec_seq_val(digits));
        }
    }
}

} // verus!
