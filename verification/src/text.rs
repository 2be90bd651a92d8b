//! Verified plain-text rendering and parsing of decimal numbers.
//!
//! Monetary quantities throughout the crate are fixed-point values: an `i64`
//! counting thousandths of a ducat, so `1500` stands for `1.5`. This module
//! renders such amounts, renders unsigned integers, and parses the unsigned
//! decimal numbers that appear in authentication tokens.
use vstd::prelude::*;

verus! {

/// Largest magnitude a fixed-point amount may take. Keeps every amount far
/// from `i64` overflow even after the twelve-fold annualization step.
pub const AMOUNT_LIMIT: i64 = 0x20_0000_0000_0000;

/// The decimal digit character for `d` (`0 <= d <= 9`).
pub open spec fn spec_digit_char(d: int) -> char {
    if d == 0 {
        '0'
    } else if d == 1 {
        '1'
    } else if d == 2 {
        '2'
    } else if d == 3 {
        '3'
    } else if d == 4 {
        '4'
    } else if d == 5 {
        '5'
    } else if d == 6 {
        '6'
    } else if d == 7 {
        '7'
    } else if d == 8 {
        '8'
    } else {
        '9'
    }
}

/// Decimal rendering of a natural number, without leading zeros
/// (except that zero itself is rendered as "0").
pub open spec fn spec_dec_nat(n: nat) -> Seq<char>
    decreases n,
{
    if n < 10 {
        seq![spec_digit_char(n as int)]
    } else {
        spec_dec_nat(n / 10) + seq![spec_digit_char((n % 10) as int)]
    }
}

/// Decimal rendering of a possibly negative integer.
pub open spec fn spec_dec_int(n: int) -> Seq<char> {
    if n < 0 {
        seq!['-'] + spec_dec_nat((-n) as nat)
    } else {
        spec_dec_nat(n as nat)
    }
}

fn digit_str(d: u64) -> (s: &'static str)
    requires
        d < 10,
    ensures
        s@ =~= seq![spec_digit_char(d as int)],
{
    proof {
        reveal_strlit("0");
        reveal_strlit("1");
        reveal_strlit("2");
        reveal_strlit("3");
        reveal_strlit("4");
        reveal_strlit("5");
        reveal_strlit("6");
        reveal_strlit("7");
        reveal_strlit("8");
        reveal_strlit("9");
    }
    if d == 0 {
        "0"
    } else if d == 1 {
        "1"
    } else if d == 2 {
        "2"
    } else if d == 3 {
        "3"
    } else if d == 4 {
        "4"
    } else if d == 5 {
        "5"
    } else if d == 6 {
        "6"
    } else if d == 7 {
        "7"
    } else if d == 8 {
        "8"
    } else {
        "9"
    }
}

/// Renders `n` in decimal.
pub fn u64_to_string(n: u64) -> (s: String)
    ensures
        s@ == spec_dec_nat(n as nat),
    decreases n,
{
    if n < 10 {
        String::from_str(digit_str(n))
    } else {
        let mut s = u64_to_string(n / 10);
        s.append(digit_str(n % 10));
        s
    }
}

/// Whether `a` is a representable fixed-point amount.
pub open spec fn amount_in_range(a: int) -> bool {
    -AMOUNT_LIMIT <= a <= AMOUNT_LIMIT
}

/// Canonical rendering of a fixed-point amount: sign, integer part, a dot,
/// and exactly three fractional digits, e.g. `1500` -> "1.500".
pub open spec fn spec_amount_str(a: int) -> Seq<char> {
    let m = if a < 0 {
        -a
    } else {
        a
    };
    let sign: Seq<char> = if a < 0 {
        seq!['-']
    } else {
        Seq::empty()
    };
    sign + spec_dec_nat((m / 1000) as nat) + seq!['.'] + seq![
        spec_digit_char((m / 100) % 10),
        spec_digit_char((m / 10) % 10),
        spec_digit_char(m % 10),
    ]
}

/// Renders a fixed-point amount canonically.
pub fn amount_to_string(a: i64) -> (s: String)
    requires
        amount_in_range(a as int),
    ensures
        s@ == spec_amount_str(a as int),
{
    let m: i64 = if a < 0 {
        -a
    } else {
        a
    };
    let mut s = if a < 0 {
        let mut t = String::from_str("-");
        proof {
            reveal_strlit("-");
        }
        t
    } else {
        String::new()
    };
    s.append(u64_to_string((m / 1000) as u64).as_str());
    s.append(".");
    proof {
        reveal_strlit(".");
    }
    s.append(digit_str(((m / 100) % 10) as u64));
    s.append(digit_str(((m / 10) % 10) as u64));
    s.append(digit_str((m % 10) as u64));
    assert(s@ =~= spec_amount_str(a as int));
    s
}

/// The comma-separated body of a JSON array of amounts.
pub open spec fn spec_amounts_json_body(s: Seq<i64>) -> Seq<char>
    decreases s.len(),
{
    if s.len() == 0 {
        Seq::empty()
    } else if s.len() == 1 {
        spec_amount_str(s[0] as int)
    } else {
        spec_amounts_json_body(s.drop_last()) + seq![','] + spec_amount_str(s.last() as int)
    }
}

/// A JSON array holding the amounts of `s` in order, e.g. "[1.000,2.500]".
pub open spec fn spec_amounts_json(s: Seq<i64>) -> Seq<char> {
    seq!['['] + spec_amounts_json_body(s) + seq![']']
}

/// Whether every amount of `s` is representable.
pub open spec fn amounts_in_range(s: Seq<i64>) -> bool {
    forall|i: int| 0 <= i < s.len() ==> amount_in_range(#[trigger] s[i] as int)
}

/// Whether every amount of `v` is representable.
pub fn amounts_ok(v: &Vec<i64>) -> (b: bool)
    ensures
        b == amounts_in_range(v@),
{
    let mut i: usize = 0;
    while i < v.len()
        invariant
            0 <= i <= v@.len(),
            forall|j: int| 0 <= j < i ==> amount_in_range(#[trigger] v@[j] as int),
        decreases v@.len() - i,
    {
        if v[i] < -AMOUNT_LIMIT || v[i] > AMOUNT_LIMIT {
            return false;
        }
        i = i + 1;
    }
    true
}

/// Renders a sequence of fixed-point amounts as a JSON array of numbers.
pub fn amounts_to_json(v: &Vec<i64>) -> (s: String)
    requires
        amounts_in_range(v@),
    ensures
        s@ == spec_amounts_json(v@),
{
    let mut s = String::from_str("[");
    proof {
        reveal_strlit("[");
    }
    let mut i: usize = 0;
    while i < v.len()
        invariant
            0 <= i <= v@.len(),
            amounts_in_range(v@),
            s@ == seq!['['] + spec_amounts_json_body(v@.take(i as int)),
        decreases v@.len() - i,
    {
        if i > 0 {
            s.append(",");
            proof {
                reveal_strlit(",");
            }
        }
        s.append(amount_to_string(v[i]).as_str());
        proof {
            let t = v@.take(i as int + 1);
            assert(t.drop_last() =~= v@.take(i as int));
            assert(t.last() == v@[i as int]);
            assert(s@ =~= seq!['['] + spec_amounts_json_body(t));
        }
        i = i + 1;
    }
    assert(v@.take(v@.len() as int) =~= v@);
    s.append("]");
    proof {
        reveal_strlit("]");
    }
    assert(s@ =~= spec_amounts_json(v@));
    s
}

/// Renders `n` in decimal, with a leading minus sign when negative.
pub fn i64_to_string(n: i64) -> (s: String)
    ensures
        s@ == spec_dec_int(n as int),
{
    if n < 0 {
        // Negating i64::MIN would overflow, so its magnitude is spelled out.
        let mag: u64 = if n == i64::MIN {
            9223372036854775808u64
        } else {
            (-n) as u64
        };
        assert(mag == (-(n as int)) as nat);
        let mut s = String::from_str("-");
        proof {
            reveal_strlit("-");
        }
        s.append(u64_to_string(mag).as_str());
        assert(s@ =~= spec_dec_int(n as int));
        s
    } else {
        u64_to_string(n as u64)
    }
}

/// The lowercase hex digit character for `d` (`0 <= d <= 15`).
pub open spec fn spec_hex_digit(d: int) -> char {
    if d < 10 {
        spec_digit_char(d)
    } else if d == 10 {
        'a'
    } else if d == 11 {
        'b'
    } else if d == 12 {
        'c'
    } else if d == 13 {
        'd'
    } else if d == 14 {
        'e'
    } else {
        'f'
    }
}

/// Lowercase hex rendering of a byte sequence, two digits per byte, most
/// significant nibble first.
pub open spec fn spec_hex_lower(b: Seq<u8>) -> Seq<char>
    decreases b.len(),
{
    if b.len() == 0 {
        Seq::empty()
    } else {
        spec_hex_lower(b.drop_last()) + seq![
            spec_hex_digit(b.last() as int / 16),
            spec_hex_digit(b.last() as int % 16),
        ]
    }
}

/// Hex rendering writes two characters per byte.
pub proof fn lemma_hex_lower_len(b: Seq<u8>)
    ensures
        spec_hex_lower(b).len() == 2 * b.len(),
    decreases b.len(),
{
    if b.len() > 0 {
        lemma_hex_lower_len(b.drop_last());
    }
}

fn hex_digit_str(d: u8) -> (s: &'static str)
    requires
        d < 16,
    ensures
        s@ =~= seq![spec_hex_digit(d as int)],
{
    if d < 10 {
        digit_str(d as u64)
    } else {
        proof {
            reveal_strlit("a");
            reveal_strlit("b");
            reveal_strlit("c");
            reveal_strlit("d");
            reveal_strlit("e");
            reveal_strlit("f");
        }
        if d == 10 {
            "a"
        } else if d == 11 {
            "b"
        } else if d == 12 {
            "c"
        } else if d == 13 {
            "d"
        } else if d == 14 {
            "e"
        } else {
            "f"
        }
    }
}

/// Renders bytes as lowercase hex.
pub fn bytes_to_hex(data: &[u8]) -> (s: String)
    ensures
        s@ == spec_hex_lower(data@),
{
    let mut s = String::new();
    let mut i: usize = 0;
    while i < data.len()
        invariant
            0 <= i <= data@.len(),
            s@ == spec_hex_lower(data@.take(i as int)),
        decreases data@.len() - i,
    {
        let b = data[i];
        s.append(hex_digit_str(b / 16));
        s.append(hex_digit_str(b % 16));
        proof {
            let t = data@.take(i as int + 1);
            assert(t.drop_last() =~= data@.take(i as int));
            assert(t.last() == data@[i as int]);
            assert(s@ =~= spec_hex_lower(t));
        }
        i = i + 1;
    }
    assert(data@.take(data@.len() as int) =~= data@);
    s
}

/// Whether `c` is a decimal digit.
pub open spec fn spec_is_digit(c: char) -> bool {
    '0' <= c <= '9'
}

/// The numeric value of a digit character.
pub open spec fn spec_digit_val(c: char) -> int {
    c as int - '0' as int
}

/// Whether `s` consists of decimal digits only.
pub open spec fn all_digits(s: Seq<char>) -> bool {
    forall|i: int| 0 <= i < s.len() ==> spec_is_digit(#[trigger] s[i])
}

/// The value of a digit string, read most significant digit first.
pub open spec fn spec_dec_val(s: Seq<char>) -> int
    decreases s.len(),
{
    if s.len() == 0 {
        0
    } else {
        spec_dec_val(s.drop_last()) * 10 + spec_digit_val(s.last())
    }
}

/// A digit string has a non-negative value.
proof fn lemma_dec_val_nonneg(s: Seq<char>)
    requires
        all_digits(s),
    ensures
        spec_dec_val(s) >= 0,
    decreases s.len(),
{
    if s.len() > 0 {
        assert(all_digits(s.drop_last()));
        lemma_dec_val_nonneg(s.drop_last());
    }
}

/// Extending a digit string can only increase its value.
proof fn lemma_dec_val_prefix_le(s: Seq<char>, i: int)
    requires
        all_digits(s),
        0 <= i <= s.len(),
    ensures
        spec_dec_val(s.take(i)) <= spec_dec_val(s),
    decreases s.len() - i,
{
    if i < s.len() {
        lemma_dec_val_prefix_le(s, i + 1);
        let t = s.take(i + 1);
        assert(t.drop_last() =~= s.take(i));
        assert(all_digits(s.take(i)));
        lemma_dec_val_nonneg(s.take(i));
        assert(spec_dec_val(t) == spec_dec_val(s.take(i)) * 10 + spec_digit_val(s[i]));
    } else {
        assert(s.take(i) =~= s);
    }
}

/// Decimal rendering produces at least one character, only digits, and
/// reading the digits back yields the rendered number.
pub proof fn lemma_dec_nat_roundtrip(n: nat)
    ensures
        spec_dec_nat(n).len() >= 1,
        all_digits(spec_dec_nat(n)),
        spec_dec_val(spec_dec_nat(n)) == n,
    decreases n,
{
    if n < 10 {
        let s = spec_dec_nat(n);
        assert(s.len() == 1);
        assert(s.drop_last() =~= Seq::<char>::empty());
        assert(spec_is_digit(s[0]));
        assert(s.last() == spec_digit_char(n as int));
        assert(spec_dec_val(s.drop_last()) == 0);
        assert(spec_dec_val(s) == spec_digit_val(spec_digit_char(n as int)));
    } else {
        lemma_dec_nat_roundtrip(n / 10);
        let r = spec_dec_nat(n / 10);
        let s = spec_dec_nat(n);
        assert(s =~= r + seq![spec_digit_char((n % 10) as int)]);
        assert(s.drop_last() =~= r);
        assert(spec_is_digit(s.last()));
        assert(forall|i: int| 0 <= i < s.len() ==> spec_is_digit(#[trigger] s[i]));
        assert(spec_digit_val(spec_digit_char((n % 10) as int)) == n % 10);
        assert(spec_dec_val(s) == spec_dec_val(r) * 10 + n % 10);
        assert((n / 10) * 10 + n % 10 == n) by {
            vstd::arithmetic::div_mod::lemma_fundamental_div_mod(n as int, 10);
        }
    }
}

/// Parses an unsigned decimal number that must fit in the non-negative
/// range of `i64`. Returns `None` on an empty string, a non-digit
/// character, or a value above `i64::MAX`.
pub fn parse_dec_i64(s: &str) -> (r: Option<i64>)
    ensures
        r is Some <==> s@.len() >= 1 && all_digits(s@) && spec_dec_val(s@) <= i64::MAX as int,
        r is Some ==> r->0 == spec_dec_val(s@) && r->0 >= 0,
{
    let n = s.unicode_len();
    if n == 0 {
        return None;
    }
    let mut acc: i64 = 0;
    let mut i: usize = 0;
    while i < n
        invariant
            0 <= i <= n,
            n == s@.len(),
            all_digits(s@.take(i as int)),
            0 <= acc,
            acc == spec_dec_val(s@.take(i as int)),
        decreases n - i,
    {
        let c = s.get_char(i);
        if c < '0' || c > '9' {
            assert(!spec_is_digit(s@[i as int]));
            return None;
        }
        let d: i64 = (c as u32 - '0' as u32) as i64;
        assert(d == spec_digit_val(s@[i as int]));
        if acc > (i64::MAX - d) / 10 {
            proof {
                let t = s@.take(i as int + 1);
                assert(t.drop_last() =~= s@.take(i as int));
                assert(t.last() == s@[i as int]);
                assert(spec_dec_val(t) == acc * 10 + d);
                assert(spec_dec_val(t) > i64::MAX as int);
                if all_digits(s@) {
                    lemma_dec_val_prefix_le(s@, i as int + 1);
                }
            }
            return None;
        }
        proof {
            let t = s@.take(i as int + 1);
            assert(t.drop_last() =~= s@.take(i as int));
            assert(t.last() == s@[i as int]);
        }
        acc = acc * 10 + d;
        i = i + 1;
    }
    assert(s@.take(n as int) =~= s@);
    Some(acc)
}

} // verus!
