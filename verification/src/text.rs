//! Character and decimal-number helpers shared by the engines and the
//! persisted-history codec: digit conversion, decimal rendering and parsing,
//! and the CJK test used by the host's input debouncing.

use vstd::prelude::*;

verus! {

/// The decimal digit character for `d` (meaningful for 0..=9).
pub open spec fn digit_char(d: int) -> char {
    if d == 0 {
        '0'
    } else if d == 1 {
        '1'
    } else if d == 2 {
        '2'
    } else if d == 3 {
        '3'
    } else if d == 4 {
        '4'
    } else if d == 5 {
        '5'
    } else if d == 6 {
        '6'
    } else if d == 7 {
        '7'
    } else if d == 8 {
        '8'
    } else {
        '9'
    }
}

/// The numeric value of a digit character, or -1 for any other character.
pub open spec fn digit_val(c: char) -> int {
    if c == '0' {
        0
    } else if c == '1' {
        1
    } else if c == '2' {
        2
    } else if c == '3' {
        3
    } else if c == '4' {
        4
    } else if c == '5' {
        5
    } else if c == '6' {
        6
    } else if c == '7' {
        7
    } else if c == '8' {
        8
    } else if c == '9' {
        9
    } else {
        -1
    }
}

pub open spec fn is_digit(c: char) -> bool {
    digit_val(c) >= 0
}

/// The usual decimal rendering of `n`, most significant digit first, no
/// leading zeros (a single `0` for zero).
pub open spec fn dec_str(n: nat) -> Seq<char>
    decreases n,
{
    if n < 10 {
        seq![digit_char(n as int)]
    } else {
        dec_str(n / 10) + seq![digit_char((n % 10) as int)]
    }
}

pub open spec fn all_digits(s: Seq<char>) -> bool {
    forall|i: int| 0 <= i < s.len() ==> is_digit(#[trigger] s[i])
}

/// The value of a digit string, most significant digit first.
pub open spec fn digits_val(s: Seq<char>) -> int
    decreases s.len(),
{
    if s.len() == 0 {
        0
    } else {
        digits_val(s.drop_last()) * 10 + digit_val(s.last())
    }
}

/// What parsing a whole string as a decimal `u32` yields: a value exactly
/// for non-empty all-digit strings whose value fits.
pub open spec fn spec_parse_u32(s: Seq<char>) -> Option<u32> {
    if s.len() > 0 && all_digits(s) && digits_val(s) <= u32::MAX {
        Some(digits_val(s) as u32)
    } else {
        None
    }
}

pub proof fn lemma_digit_char_val(d: int)
    requires
        0 <= d <= 9,
    ensures
        digit_val(digit_char(d)) == d,
        is_digit(digit_char(d)),
        digit_char(d) != '\n',
        digit_char(d) != ' ',
        digit_char(d) != '-',
{
}

pub proof fn lemma_digit_char_val_any(d: int)
    ensures
        is_digit(digit_char(d)),
        digit_char(d) != '\n',
        digit_char(d) != ' ',
{
}

pub proof fn lemma_digit_not_special(c: char)
    requires
        is_digit(c),
    ensures
        c != '\n',
        c != ' ',
        c != '-',
        c != ':',
{
}

pub proof fn lemma_digits_val_nonneg(s: Seq<char>)
    requires
        all_digits(s),
    ensures
        digits_val(s) >= 0,
    decreases s.len(),
{
    if s.len() > 0 {
        assert(all_digits(s.drop_last()));
        lemma_digits_val_nonneg(s.drop_last());
        assert(is_digit(s.last()));
    }
}

/// A longer digit string never has a smaller value than its prefix.
pub proof fn lemma_digits_val_prefix(s: Seq<char>, k: int)
    requires
        all_digits(s),
        0 <= k <= s.len(),
    ensures
        digits_val(s) >= digits_val(s.take(k)),
    decreases s.len(),
{
    if k == s.len() {
        assert(s.take(k) =~= s);
    } else {
        assert(all_digits(s.drop_last()));
        lemma_digits_val_prefix(s.drop_last(), k);
        assert(s.drop_last().take(k) =~= s.take(k));
        lemma_digits_val_nonneg(s.drop_last());
        assert(is_digit(s.last()));
        assert(digits_val(s) == digits_val(s.drop_last()) * 10 + digit_val(s.last()));
    }
}

/// The decimal rendering is all digits, non-empty, and reads back to `n`.
pub proof fn lemma_dec_str(n: nat)
    ensures
        all_digits(dec_str(n)),
        dec_str(n).len() >= 1,
        digits_val(dec_str(n)) == n,
    decreases n,
{
    if n < 10 {
        lemma_digit_char_val(n as int);
        assert(dec_str(n) =~= seq![digit_char(n as int)]);
        assert(dec_str(n).drop_last() =~= Seq::<char>::empty());
        assert(dec_str(n).last() == digit_char(n as int));
        assert(digits_val(dec_str(n)) == digits_val(Seq::<char>::empty()) * 10 + digit_val(
            digit_char(n as int),
        ));
        assert forall|i: int| 0 <= i < dec_str(n).len() implies is_digit(
            #[trigger] dec_str(n)[i],
        ) by {
            assert(dec_str(n)[i] == digit_char(n as int));
        }
    } else {
        lemma_dec_str(n / 10);
        lemma_digit_char_val((n % 10) as int);
        let a = dec_str(n / 10);
        let w = seq![digit_char((n % 10) as int)];
        assert((a + w).drop_last() =~= a);
        assert((a + w).last() == digit_char((n % 10) as int));
        assert forall|i: int| 0 <= i < (a + w).len() implies is_digit(#[trigger] (a + w)[i]) by {
            if i < a.len() {
                assert((a + w)[i] == a[i]);
            } else {
                assert((a + w)[i] == digit_char((n % 10) as int));
            }
        }
        assert(dec_str(n) == a + w);
        assert(digits_val(a + w) == digits_val((a + w).drop_last()) * 10 + digit_val((a + w).last()));
        assert(digits_val(a + w) == digits_val(a) * 10 + (n % 10));
        vstd::arithmetic::div_mod::lemma_fundamental_div_mod(n as int, 10);
        assert(n == 10 * (n as int / 10) + (n as int % 10));
        assert(digits_val(dec_str(n)) == n);
    }
}

/// The digit character of `d`, as a one-character string.
pub fn digit_str(d: u64) -> (r: &'static str)
    requires
        d < 10,
    ensures
        r@ == seq![digit_char(d as int)],
{
    let r: &'static str = if d == 0 {
        proof {
            reveal_strlit("0");
        }
        "0"
    } else if d == 1 {
        proof {
            reveal_strlit("1");
        }
        "1"
    } else if d == 2 {
        proof {
            reveal_strlit("2");
        }
        "2"
    } else if d == 3 {
        proof {
            reveal_strlit("3");
        }
        "3"
    } else if d == 4 {
        proof {
            reveal_strlit("4");
        }
        "4"
    } else if d == 5 {
        proof {
            reveal_strlit("5");
        }
        "5"
    } else if d == 6 {
        proof {
            reveal_strlit("6");
        }
        "6"
    } else if d == 7 {
        proof {
            reveal_strlit("7");
        }
        "7"
    } else if d == 8 {
        proof {
            reveal_strlit("8");
        }
        "8"
    } else {
        proof {
            reveal_strlit("9");
        }
        "9"
    };
    proof {
        assert(r@ =~= seq![digit_char(d as int)]);
    }
    r
}

/// Append the decimal rendering of `n` to `out`.
pub fn push_u64(out: &mut String, n: u64)
    ensures
        final(out)@ == old(out)@ + dec_str(n as nat),
    decreases n,
{
    if n < 10 {
        out.append(digit_str(n));
    } else {
        push_u64(out, n / 10);
        out.append(digit_str(n % 10));
        proof {
            assert(old(out)@ + dec_str((n / 10) as nat) + seq![digit_char((n % 10) as int)]
                =~= old(out)@ + dec_str(n as nat));
        }
    }
}

/// The decimal rendering of `n` as a fresh string.
pub fn u64_to_string(n: u64) -> (r: String)
    ensures
        r@ == dec_str(n as nat),
{
    let mut s = String::new();
    push_u64(&mut s, n);
    proof {
        assert(Seq::<char>::empty() + dec_str(n as nat) =~= dec_str(n as nat));
    }
    s
}

/// The numeric value of a digit character, if it is one.
pub fn char_digit(c: char) -> (r: Option<u32>)
    ensures
        r matches Some(d) ==> is_digit(c) && digit_val(c) == d && d <= 9,
        r is None ==> !is_digit(c),
{
    match c {
        '0' => Some(0),
        '1' => Some(1),
        '2' => Some(2),
        '3' => Some(3),
        '4' => Some(4),
        '5' => Some(5),
        '6' => Some(6),
        '7' => Some(7),
        '8' => Some(8),
        '9' => Some(9),
        _ => None,
    }
}

/// Parse a whole string as a decimal `u32`: any non-digit, an empty string,
/// or a value over `u32::MAX` yields nothing.
pub fn parse_u32_str(s: &str) -> (r: Option<u32>)
    ensures
        r == spec_parse_u32(s@),
    decreases s@.len(),
{
    let n = s.unicode_len();
    if n == 0 {
        return None;
    }
    let mut acc: u64 = 0;
    let mut j: usize = 0;
    while j < n
        invariant
            n == s@.len(),
            j <= n,
            all_digits(s@.take(j as int)),
            acc == digits_val(s@.take(j as int)),
            acc <= u32::MAX,
        decreases n - j,
    {
        let c = s.get_char(j);
        match char_digit(c) {
            Some(d) => {
                proof {
                    assert(s@.take(j + 1).drop_last() =~= s@.take(j as int));
                    assert(s@.take(j + 1).last() == c);
                    assert forall|i: int| 0 <= i < j + 1 implies is_digit(
                        #[trigger] s@.take(j + 1)[i],
                    ) by {
                        if i < j {
                            assert(s@.take(j + 1)[i] == s@.take(j as int)[i]);
                        } else {
                            assert(s@.take(j + 1)[i] == c);
                        }
                    }
                }
                acc = acc * 10 + (d as u64);
                assert(acc == digits_val(s@.take(j + 1)));
                if acc > 0xFFFF_FFFF {
                    proof {
                        if all_digits(s@) {
                            lemma_digits_val_prefix(s@, j + 1);
                        }
                    }
                    return None;
                }
                j = j + 1;
            },
            None => {
                assert(!all_digits(s@));
                return None;
            },
        }
    }
    proof {
        assert(s@.take(n as int) =~= s@);
    }
    Some(acc as u32)
}

/// Whether `c` lies in the CJK ranges the host refuses to debounce.
pub open spec fn spec_is_chinese_character(c: char) -> bool {
    ||| 0x4E00 <= c as u32 <= 0x9FFF
    ||| 0x3400 <= c as u32 <= 0x4DBF
    ||| 0x20000 <= c as u32 <= 0x2A6DF
    ||| 0x2A700 <= c as u32 <= 0x2B73F
    ||| 0x2B740 <= c as u32 <= 0x2B81F
    ||| 0x2B820 <= c as u32 <= 0x2CEAF
    ||| 0x2CEB0 <= c as u32 <= 0x2EBEF
    ||| 0x3000 <= c as u32 <= 0x303F
    ||| 0x3040 <= c as u32 <= 0x309F
    ||| 0x30A0 <= c as u32 <= 0x30FF
    ||| 0x31F0 <= c as u32 <= 0x31FF
    ||| 0xFF00 <= c as u32 <= 0xFFEF
}

/// Whether `c` is a Chinese/Japanese/Korean character (by code-point range).
pub fn is_chinese_character(c: char) -> (r: bool)
    ensures
        r == spec_is_chinese_character(c),
{
    let u = c as u32;
    (0x4E00 <= u && u <= 0x9FFF) || (0x3400 <= u && u <= 0x4DBF) || (0x20000 <= u && u <= 0x2A6DF)
        || (0x2A700 <= u && u <= 0x2B73F) || (0x2B740 <= u && u <= 0x2B81F) || (0x2B820 <= u && u
        <= 0x2CEAF) || (0x2CEB0 <= u && u <= 0x2EBEF) || (0x3000 <= u && u <= 0x303F) || (0x3040
        <= u && u <= 0x309F) || (0x30A0 <= u && u <= 0x30FF) || (0x31F0 <= u && u <= 0x31FF) || (
    0xFF00 <= u && u <= 0xFFEF)
}

} // verus!

