use vstd::arithmetic::div_mod::{lemma_fundamental_div_mod, lemma_mod_division_less_than_divisor};
use vstd::prelude::*;
use vstd::string::{StrSliceExecFns, StringExecFns};

verus! {

// ----- decimal digits -----

pub open spec fn is_dec_digit(c: char) -> bool {
    48 <= c as u32 && c as u32 <= 57
}

pub open spec fn dec_digit_val(c: char) -> nat {
    if is_dec_digit(c) {
        (c as u32 - 48) as nat
    } else {
        0
    }
}

pub open spec fn all_dec_digits(s: Seq<char>) -> bool {
    forall|i: int| 0 <= i < s.len() ==> is_dec_digit(#[trigger] s[i])
}

/// The numeric value of a digit string, most significant digit first.
pub open spec fn dec_val(s: Seq<char>) -> nat
    decreases s.len(),
{
    if s.len() == 0 {
        0
    } else {
        dec_val(s.drop_last()) * 10 + dec_digit_val(s.last())
    }
}

/// A string parses as an unsigned 64-bit decimal number: nonempty, digits
/// only, and within range.
pub open spec fn parses_as_u64_dec(s: Seq<char>) -> bool {
    s.len() > 0 && all_dec_digits(s) && dec_val(s) <= u64::MAX
}

pub open spec fn dec_digit_char(v: nat) -> char {
    ((48 + v) as u32) as char
}

/// The canonical decimal rendering of a number, no leading zeros (a lone
/// zero for 0).
pub open spec fn dec_digits_of(n: nat) -> Seq<char>
    decreases n,
{
    if n < 10 {
        seq![dec_digit_char(n)]
    } else {
        dec_digits_of(n / 10).push(dec_digit_char(n % 10))
    }
}

// ----- hexadecimal digits -----

pub open spec fn is_hex_digit(c: char) -> bool {
    let v = c as u32;
    (48 <= v && v <= 57) || (97 <= v && v <= 102) || (65 <= v && v <= 70)
}

pub open spec fn hex_digit_val(c: char) -> nat {
    let v = c as u32;
    if 48 <= v && v <= 57 {
        (v - 48) as nat
    } else if 97 <= v && v <= 102 {
        (v - 87) as nat
    } else if 65 <= v && v <= 70 {
        (v - 55) as nat
    } else {
        0
    }
}

pub open spec fn all_hex_digits(s: Seq<char>) -> bool {
    forall|i: int| 0 <= i < s.len() ==> is_hex_digit(#[trigger] s[i])
}

pub open spec fn hex_val(s: Seq<char>) -> nat
    decreases s.len(),
{
    if s.len() == 0 {
        0
    } else {
        hex_val(s.drop_last()) * 16 + hex_digit_val(s.last())
    }
}

/// A `0x`-prefixed hexadecimal string that denotes an unsigned 64-bit
/// number: the prefix, at least one digit, digits only, and within range.
pub open spec fn parses_as_block_hex(s: Seq<char>) -> bool {
    &&& s.len() > 2
    &&& s[0] == '0'
    &&& s[1] == 'x'
    &&& all_hex_digits(s.skip(2))
    &&& hex_val(s.skip(2)) <= u64::MAX
}

pub open spec fn block_hex_val(s: Seq<char>) -> nat {
    hex_val(s.skip(2))
}

pub open spec fn hex_digit_char(v: nat) -> char {
    if v < 10 {
        ((48 + v) as u32) as char
    } else {
        ((87 + v) as u32) as char
    }
}

/// The canonical lowercase hexadecimal rendering, no leading zeros.
pub open spec fn hex_digits_of(n: nat) -> Seq<char>
    decreases n,
{
    if n < 16 {
        seq![hex_digit_char(n)]
    } else {
        hex_digits_of(n / 16).push(hex_digit_char(n % 16))
    }
}

// ----- lemmas -----

/// The value of a prefix never exceeds the value of the whole string.
pub proof fn lemma_dec_val_take_le(s: Seq<char>, j: int)
    requires
        0 <= j <= s.len(),
    ensures
        dec_val(s.take(j)) <= dec_val(s),
    decreases s.len(),
{
    if j == s.len() {
        assert(s.take(j) =~= s);
    } else {
        let t = s.drop_last();
        assert(s.take(j) =~= t.take(j));
        lemma_dec_val_take_le(t, j);
    }
}

pub proof fn lemma_hex_val_take_le(s: Seq<char>, j: int)
    requires
        0 <= j <= s.len(),
    ensures
        hex_val(s.take(j)) <= hex_val(s),
    decreases s.len(),
{
    if j == s.len() {
        assert(s.take(j) =~= s);
    } else {
        let t = s.drop_last();
        assert(s.take(j) =~= t.take(j));
        lemma_hex_val_take_le(t, j);
    }
}

/// Relates the overflow guard `acc > (m - d) / radix` to the value
/// `acc * radix + d` exceeding `m`.
proof fn lemma_radix_step_bound(acc: int, d: int, m: int, radix: int)
    requires
        radix >= 1,
        0 <= d < radix,
        d <= m,
        acc >= 0,
    ensures
        (acc > (m - d) / radix) <==> (acc * radix + d > m),
{
    let q = (m - d) / radix;
    let rem = (m - d) % radix;
    lemma_fundamental_div_mod(m - d, radix);
    lemma_mod_division_less_than_divisor(m - d, radix);
    assert((acc > q) <==> (acc * radix + d > m)) by (nonlinear_arith)
        requires
            m - d == radix * q + rem,
            0 <= rem < radix,
            acc >= 0,
            radix >= 1,
            0 <= d < radix,
    {
    }
}

// ----- executable conversions -----

/// Relies on String::push: appends exactly one character to the string.
#[verifier::external_body]
pub(crate) fn push_char(s: &mut String, c: char)
    ensures
        final(s)@ == old(s)@.push(c),
{
    s.push(c);
}

fn dec_digit_char_exec(v: u64) -> (c: char)
    requires
        v < 10,
    ensures
        c == dec_digit_char(v as nat),
{
    match v {
        0 => '0',
        1 => '1',
        2 => '2',
        3 => '3',
        4 => '4',
        5 => '5',
        6 => '6',
        7 => '7',
        8 => '8',
        _ => '9',
    }
}

fn hex_digit_char_exec(v: u64) -> (c: char)
    requires
        v < 16,
    ensures
        c == hex_digit_char(v as nat),
{
    match v {
        0 => '0',
        1 => '1',
        2 => '2',
        3 => '3',
        4 => '4',
        5 => '5',
        6 => '6',
        7 => '7',
        8 => '8',
        9 => '9',
        10 => 'a',
        11 => 'b',
        12 => 'c',
        13 => 'd',
        14 => 'e',
        _ => 'f',
    }
}

/// Renders a number in canonical decimal form.
pub fn u64_to_dec_string(n: u64) -> (r: String)
    ensures
        r@ == dec_digits_of(n as nat),
    decreases n,
{
    if n < 10 {
        let mut s = String::new();
        push_char(&mut s, dec_digit_char_exec(n));
        proof {
            assert(s@ =~= dec_digits_of(n as nat));
        }
        s
    } else {
        let mut s = u64_to_dec_string(n / 10);
        push_char(&mut s, dec_digit_char_exec(n % 10));
        s
    }
}

fn u64_to_hex_digits(n: u64) -> (r: String)
    ensures
        r@ == hex_digits_of(n as nat),
    decreases n,
{
    if n < 16 {
        let mut s = String::new();
        push_char(&mut s, hex_digit_char_exec(n));
        proof {
            assert(s@ =~= hex_digits_of(n as nat));
        }
        s
    } else {
        let mut s = u64_to_hex_digits(n / 16);
        push_char(&mut s, hex_digit_char_exec(n % 16));
        s
    }
}

/// Renders a block number in the chain RPC's wire convention:
/// `0x`-prefixed lowercase hexadecimal.
pub fn u64_to_hex_string(n: u64) -> (r: String)
    ensures
        r@ == seq!['0', 'x'] + hex_digits_of(n as nat),
        parses_as_block_hex(r@),
        block_hex_val(r@) == n as nat,
{
    let mut s = String::new();
    push_char(&mut s, '0');
    push_char(&mut s, 'x');
    let d = u64_to_hex_digits(n);
    s.append(d.as_str());
    proof {
        assert(s@ =~= seq!['0', 'x'] + hex_digits_of(n as nat));
        assert(s@.skip(2) =~= hex_digits_of(n as nat));
        lemma_hex_digits_of_all_hex(n as nat);
        lemma_hex_digits_of_val(n as nat);
    }
    s
}

/// The canonical hexadecimal rendering consists of hex digits.
proof fn lemma_hex_digits_of_all_hex(n: nat)
    ensures
        all_hex_digits(hex_digits_of(n)),
        hex_digits_of(n).len() > 0,
    decreases n,
{
    if n < 16 {
    } else {
        lemma_hex_digits_of_all_hex(n / 16);
    }
}

/// A hexadecimal digit character denotes its digit again.
proof fn lemma_hex_digit_roundtrip(v: nat)
    requires
        v < 16,
    ensures
        hex_digit_val(hex_digit_char(v)) == v,
        is_hex_digit(hex_digit_char(v)),
{
    if v < 10 {
        assert(hex_digit_char(v) as u32 == 48 + v);
    } else {
        assert(hex_digit_char(v) as u32 == 87 + v);
    }
}

/// The canonical hexadecimal rendering denotes the number itself.
proof fn lemma_hex_digits_of_val(n: nat)
    ensures
        hex_val(hex_digits_of(n)) == n,
    decreases n,
{
    if n < 16 {
        lemma_hex_digit_roundtrip(n);
        let s = seq![hex_digit_char(n)];
        assert(s.drop_last() =~= Seq::<char>::empty());
        assert(hex_val(Seq::<char>::empty()) == 0);
        assert(s.last() == hex_digit_char(n));
        assert(hex_val(s) == hex_digit_val(hex_digit_char(n)));
    } else {
        lemma_hex_digits_of_val(n / 16);
        lemma_hex_digit_roundtrip(n % 16);
        assert(hex_digits_of(n).drop_last() =~= hex_digits_of(n / 16));
        assert(hex_digits_of(n).last() == hex_digit_char(n % 16));
        lemma_fundamental_div_mod(n as int, 16);
    }
}

/// Parses a nonempty all-digit decimal string into a 64-bit number;
/// returns `None` exactly when the string is empty, holds a non-digit, or
/// overflows.
pub fn parse_u64_decimal(s: &str) -> (r: Option<u64>)
    ensures
        parses_as_u64_dec(s@) ==> r == Some((dec_val(s@) as u64)),
        !parses_as_u64_dec(s@) ==> r is None,
{
    let n = s.unicode_len();
    if n == 0 {
        return None;
    }
    let mut acc: u64 = 0;
    let mut i: usize = 0;
    while i < n
        invariant
            n == s@.len(),
            i <= n,
            all_dec_digits(s@.take(i as int)),
            acc as nat == dec_val(s@.take(i as int)),
        decreases n - i,
    {
        let c = s.get_char(i);
        let v = c as u32;
        if v < 48 || v > 57 {
            assert(!is_dec_digit(s@[i as int]));
            return None;
        }
        let d = (v - 48) as u64;
        if acc > (u64::MAX - d) / 10 {
            proof {
                lemma_radix_step_bound(acc as int, d as int, u64::MAX as int, 10);
                assert(s@.take(i + 1).drop_last() =~= s@.take(i as int));
                assert(dec_val(s@.take(i + 1)) > u64::MAX);
                lemma_dec_val_take_le(s@, i + 1);
            }
            return None;
        }
        proof {
            lemma_radix_step_bound(acc as int, d as int, u64::MAX as int, 10);
            assert(s@.take(i + 1).drop_last() =~= s@.take(i as int));
        }
        acc = acc * 10 + d;
        i += 1;
    }
    proof {
        assert(s@.take(n as int) =~= s@);
    }
    Some(acc)
}

/// Parses a `0x`-prefixed hexadecimal string into a 64-bit number;
/// returns `None` exactly when the prefix is absent, no digit follows it,
/// a non-hex character occurs, or the value overflows.
pub fn parse_block_hex(s: &str) -> (r: Option<u64>)
    ensures
        parses_as_block_hex(s@) ==> r == Some((block_hex_val(s@) as u64)),
        !parses_as_block_hex(s@) ==> r is None,
{
    let n = s.unicode_len();
    if n <= 2 {
        return None;
    }
    if s.get_char(0) != '0' || s.get_char(1) != 'x' {
        return None;
    }
    let ghost h = s@.skip(2);
    let mut acc: u64 = 0;
    let mut i: usize = 2;
    while i < n
        invariant
            n == s@.len(),
            n > 2,
            2 <= i <= n,
            h == s@.skip(2),
            all_hex_digits(h.take(i - 2)),
            acc as nat == hex_val(h.take(i - 2)),
        decreases n - i,
    {
        let c = s.get_char(i);
        let v = c as u32;
        let d: u64 = if 48 <= v && v <= 57 {
            (v - 48) as u64
        } else if 97 <= v && v <= 102 {
            (v - 87) as u64
        } else if 65 <= v && v <= 70 {
            (v - 55) as u64
        } else {
            assert(!is_hex_digit(h[i - 2]));
            return None;
        };
        assert(is_hex_digit(h[i - 2]) && d as nat == hex_digit_val(h[i - 2]));
        if acc > (u64::MAX - d) / 16 {
            proof {
                lemma_radix_step_bound(acc as int, d as int, u64::MAX as int, 16);
                assert(h.take(i - 1).drop_last() =~= h.take(i - 2));
                assert(hex_val(h.take(i - 1)) > u64::MAX);
                lemma_hex_val_take_le(h, i - 1);
            }
            return None;
        }
        proof {
            lemma_radix_step_bound(acc as int, d as int, u64::MAX as int, 16);
            assert(h.take(i - 1).drop_last() =~= h.take(i - 2));
        }
        acc = acc * 16 + d;
        i += 1;
    }
    proof {
        assert(h.take(n - 2) =~= h);
    }
    Some(acc)
}

} // verus!
