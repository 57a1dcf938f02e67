//! Unsigned integer parsing with the rules of `u*::from_str_radix`
//! (an optional leading `+`, at least one digit, no overflow), and decimal
//! formatting.

use vstd::prelude::*;

verus! {

/// `char::to_digit(radix)` for radix at most 16.
pub open spec fn digit_value(c: char, radix: nat) -> Option<nat> {
    let v = c as u32;
    let d: int = if 0x30 <= v && v <= 0x39 {
        v - 0x30
    } else if 0x61 <= v && v <= 0x7a {
        v - 0x61 + 10
    } else if 0x41 <= v && v <= 0x5a {
        v - 0x41 + 10
    } else {
        99
    };
    if d < radix {
        Some(d as nat)
    } else {
        None
    }
}

/// Every character of `s` is a digit in `radix`.
pub open spec fn all_digits(s: Seq<char>, radix: nat) -> bool {
    forall|i: int| 0 <= i < s.len() ==> (#[trigger] digit_value(s[i], radix)) is Some
}

/// Numeric value of a digit string, most significant digit first.
pub open spec fn digits_value(s: Seq<char>, radix: nat) -> nat
    decreases s.len(),
{
    if s.len() == 0 {
        0
    } else {
        digits_value(s.drop_last(), radix) * radix + match digit_value(s.last(), radix) {
            Some(d) => d,
            None => 0,
        }
    }
}

/// The digits that `from_str_radix` reads: `s` without one leading `+`.
pub open spec fn unsigned_digits(s: Seq<char>) -> Seq<char> {
    if s.len() > 0 && s[0] == '+' {
        s.drop_first()
    } else {
        s
    }
}

/// `u*::from_str_radix(s, radix)` for a type whose largest value is `max`:
/// `None` for an empty digit string, a non-digit, or a value above `max`.
pub open spec fn parse_unsigned(s: Seq<char>, radix: nat, max: nat) -> Option<nat> {
    let d = unsigned_digits(s);
    if d.len() > 0 && all_digits(d, radix) && digits_value(d, radix) <= max {
        Some(digits_value(d, radix))
    } else {
        None
    }
}

/// Extending a digit string never lowers its value.
pub proof fn lemma_digits_value_prefix(s: Seq<char>, radix: nat, k: int)
    requires
        radix >= 1,
        0 <= k <= s.len(),
    ensures
        digits_value(s.subrange(0, k), radix) <= digits_value(s, radix),
    decreases s.len() - k,
{
    if k < s.len() {
        lemma_digits_value_prefix(s, radix, k + 1);
        let p = s.subrange(0, k + 1);
        assert(p.drop_last() =~= s.subrange(0, k));
        let v = digits_value(s.subrange(0, k), radix);
        let d: nat = match digit_value(p.last(), radix) {
            Some(d) => d,
            None => 0,
        };
        assert(v * radix + d >= v) by (nonlinear_arith)
            requires
                radix >= 1,
        ;
    } else {
        assert(s.subrange(0, k) =~= s);
    }
}

/// `char::to_digit(radix)`.
pub fn char_digit(c: char, radix: u32) -> (r: Option<u32>)
    requires
        2 <= radix <= 16,
    ensures
        match (r, digit_value(c, radix as nat)) {
            (Some(a), Some(b)) => a as nat == b,
            (None, None) => true,
            _ => false,
        },
{
    let v = c as u32;
    let d: u32 = if 0x30 <= v && v <= 0x39 {
        v - 0x30
    } else if 0x61 <= v && v <= 0x7a {
        v - 0x61 + 10
    } else if 0x41 <= v && v <= 0x5a {
        v - 0x41 + 10
    } else {
        99
    };
    if d < radix {
        Some(d)
    } else {
        None
    }
}

/// `from_str_radix` on a character string for an unsigned type with largest
/// value `max`.
pub fn parse_unsigned_chars(s: &[char], radix: u32, max: u64) -> (r: Option<u64>)
    requires
        2 <= radix <= 16,
    ensures
        match (r, parse_unsigned(s@, radix as nat, max as nat)) {
            (Some(a), Some(b)) => a as nat == b,
            (None, None) => true,
            _ => false,
        },
{
    let ghost d = unsigned_digits(s@);
    let start: usize = if s.len() > 0 && s[0] == '+' {
        1
    } else {
        0
    };
    assert(d =~= s@.subrange(start as int, s@.len() as int));
    if start == s.len() {
        return None;
    }
    let mut acc: u64 = 0;
    let mut i: usize = start;
    let mut ok_so_far = true;
    while i < s.len()
        invariant
            start <= i <= s@.len(),
            d == unsigned_digits(s@),
            d =~= s@.subrange(start as int, s@.len() as int),
            2 <= radix <= 16,
            ok_so_far ==> acc as nat == digits_value(d.subrange(0, i - start), radix as nat),
            ok_so_far ==> acc <= max,
            !ok_so_far ==> digits_value(d.subrange(0, i - start), radix as nat) > max,
            all_digits(d.subrange(0, i - start), radix as nat),
        decreases s@.len() - i,
    {
        let ghost before = d.subrange(0, i - start);
        let ghost after = d.subrange(0, i + 1 - start);
        assert(after.drop_last() =~= before);
        assert(after.last() == s@[i as int]);
        match char_digit(s[i], radix) {
            None => {
                assert(d[i - start] == s@[i as int]);
                assert((digit_value(d[i - start], radix as nat)) is None);
                assert(!all_digits(d, radix as nat));
                return None;
            },
            Some(dv) => {
                assert forall|k: int| 0 <= k < after.len() implies (#[trigger] digit_value(
                    after[k],
                    radix as nat,
                )) is Some by {
                    if k < before.len() {
                        assert(after[k] == before[k]);
                    }
                }
                if ok_so_far {
                    let prod = acc.checked_mul(radix as u64);
                    match prod {
                        Some(p) => {
                            match p.checked_add(dv as u64) {
                                Some(q) => {
                                    if q <= max {
                                        acc = q;
                                    } else {
                                        ok_so_far = false;
                                    }
                                },
                                None => {
                                    ok_so_far = false;
                                },
                            }
                        },
                        None => {
                            ok_so_far = false;
                        },
                    }
                } else {
                    let ghost bv = digits_value(before, radix as nat);
                    assert(bv * (radix as nat) + dv >= bv) by (nonlinear_arith)
                        requires
                            radix >= 1,
                    ;
                }
            },
        }
        i = i + 1;
    }
    assert(d.subrange(0, i - start) =~= d);
    if ok_so_far {
        Some(acc)
    } else {
        None
    }
}

/// Decimal representation of `n`, most significant digit first.
pub open spec fn decimal(n: nat) -> Seq<u8>
    decreases n,
{
    if n < 10 {
        seq![(0x30 + n) as u8]
    } else {
        decimal(n / 10).push((0x30 + n % 10) as u8)
    }
}

/// Decimal representation of `n` (`n.to_string()` as bytes).
pub fn decimal_bytes(n: u64) -> (r: Vec<u8>)
    ensures
        r@ == decimal(n as nat),
    decreases n,
{
    if n < 10 {
        let mut v: Vec<u8> = Vec::new();
        v.push((0x30 + n) as u8);
        v
    } else {
        let mut v = decimal_bytes(n / 10);
        v.push((0x30 + n % 10) as u8);
        v
    }
}

/// Every byte of a decimal representation is an ASCII digit.
pub proof fn lemma_decimal_digits(n: nat)
    ensures
        forall|i: int| 0 <= i < decimal(n).len() ==> 0x30 <= #[trigger] decimal(n)[i] <= 0x39,
        decimal(n).len() >= 1,
    decreases n,
{
    if n >= 10 {
        lemma_decimal_digits(n / 10);
    }
}

/// The decimal text of `n` reads back as `n`.
pub proof fn lemma_decimal_text_value(n: nat)
    ensures
        decimal_text(n).len() >= 1,
        all_digits(decimal_text(n), 10),
        digits_value(decimal_text(n), 10) == n,
        decimal_text(n)[0] != '+',
    decreases n,
{
    lemma_decimal_digits(n);
    if n < 10 {
        let t = decimal_text(n);
        assert(t =~= seq![((0x30 + n) as u8) as char]);
        assert(t.drop_last() =~= Seq::<char>::empty());
        assert(digit_value(t.last(), 10) == Some(n));
        assert(digits_value(t, 10) == digits_value(t.drop_last(), 10) * 10 + n);
    } else {
        lemma_decimal_text_value(n / 10);
        lemma_decimal_digits(n / 10);
        let t = decimal_text(n);
        assert(t.drop_last() =~= decimal_text(n / 10));
        assert(t.last() == ((0x30 + n % 10) as u8) as char);
        assert(digit_value(t.last(), 10) == Some((n % 10) as nat));
        assert(digits_value(t, 10) == digits_value(t.drop_last(), 10) * 10 + n % 10);
        assert((n / 10) * 10 + n % 10 == n);
        assert(t[0] == decimal_text(n / 10)[0]);
        assert forall|i: int| 0 <= i < t.len() implies (#[trigger] digit_value(t[i], 10)) is Some by {
            assert(0x30 <= decimal(n)[i] <= 0x39);
        }
    }
}

/// `parse_unsigned` reads decimal text back.
pub proof fn lemma_parse_decimal_text(n: nat, max: nat)
    requires
        n <= max,
    ensures
        parse_unsigned(decimal_text(n), 10, max) == Some(n),
{
    lemma_decimal_text_value(n);
}

/// The lowercase hexadecimal digit for `d` (below 16).
pub open spec fn hex_char(d: nat) -> char {
    if d < 10 {
        ((0x30 + d) as u8) as char
    } else {
        ((0x61 + d - 10) as u8) as char
    }
}

/// Lowercase hexadecimal representation of `n`, most significant digit first.
pub open spec fn hex_text(n: nat) -> Seq<char>
    decreases n,
{
    if n < 16 {
        seq![hex_char(n)]
    } else {
        hex_text(n / 16).push(hex_char(n % 16))
    }
}

/// The hexadecimal text of `n` reads back as `n`, and holds only hex digits.
pub proof fn lemma_hex_text_value(n: nat)
    ensures
        hex_text(n).len() >= 1,
        all_digits(hex_text(n), 16),
        digits_value(hex_text(n), 16) == n,
        hex_text(n)[0] != '+',
        forall|i: int| 0 <= i < hex_text(n).len() ==> ('0' <= #[trigger] hex_text(n)[i] <= '9') || ('a'
            <= hex_text(n)[i] <= 'f'),
    decreases n,
{
    let t = hex_text(n);
    if n < 16 {
        assert(t =~= seq![hex_char(n)]);
        assert(t.drop_last() =~= Seq::<char>::empty());
        assert(digit_value(t.last(), 16) == Some(n));
        assert(digits_value(t, 16) == digits_value(t.drop_last(), 16) * 16 + n);
    } else {
        lemma_hex_text_value(n / 16);
        assert(t.drop_last() =~= hex_text(n / 16));
        assert(t.last() == hex_char(n % 16));
        assert(digit_value(t.last(), 16) == Some((n % 16) as nat));
        assert(digits_value(t, 16) == digits_value(t.drop_last(), 16) * 16 + n % 16);
        assert((n / 16) * 16 + n % 16 == n);
        assert(t[0] == hex_text(n / 16)[0]);
        assert forall|i: int| 0 <= i < t.len() implies (#[trigger] digit_value(t[i], 16)) is Some && (('0'
            <= t[i] <= '9') || ('a' <= t[i] <= 'f')) by {
            if i < t.len() - 1 {
                assert(t[i] == hex_text(n / 16)[i]);
            }
        }
    }
}

/// Decimal representation of `n` as text.
pub open spec fn decimal_text(n: nat) -> Seq<char> {
    decimal(n).map_values(|b: u8| b as char)
}

/// `n.to_string()`.
pub fn decimal_string(n: u64) -> (r: String)
    ensures
        r@ == decimal_text(n as nat),
{
    let digits = decimal_bytes(n);
    let mut cs: Vec<char> = Vec::new();
    let mut i: usize = 0;
    while i < digits.len()
        invariant
            i <= digits@.len(),
            cs@ == digits@.subrange(0, i as int).map_values(|b: u8| b as char),
        decreases digits@.len() - i,
    {
        let c = digits[i] as char;
        cs.push(c);
        i = i + 1;
        assert(cs@ =~= digits@.subrange(0, i as int).map_values(|b: u8| b as char));
    }
    assert(digits@.subrange(0, digits@.len() as int) =~= digits@);
    crate::utf8::string_from_chars(cs.as_slice())
}

} // verus!
