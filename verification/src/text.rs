//! Character-level text helpers: white space, digits and numbers, the
//! characters of a string.

use vstd::prelude::*;

verus! {

broadcast use vstd::string::axiom_spec_iter;

/// Unicode white space.
pub open spec fn is_space(c: char) -> bool {
    ('\u{9}' <= c <= '\u{d}') || c == ' ' || c == '\u{85}' || c == '\u{a0}' || c == '\u{1680}' || (
    '\u{2000}' <= c <= '\u{200a}') || c == '\u{2028}' || c == '\u{2029}' || c == '\u{202f}' || c
        == '\u{205f}' || c == '\u{3000}'
}

pub fn is_space_exec(c: char) -> (r: bool)
    ensures
        r == is_space(c),
{
    ('\u{9}' <= c && c <= '\u{d}') || c == ' ' || c == '\u{85}' || c == '\u{a0}' || c == '\u{1680}'
        || ('\u{2000}' <= c && c <= '\u{200a}') || c == '\u{2028}' || c == '\u{2029}' || c
        == '\u{202f}' || c == '\u{205f}' || c == '\u{3000}'
}


/// The value of digit `c` in base `radix` (10 or 16), or `None`.
pub open spec fn digit_value(c: char, radix: u32) -> Option<nat> {
    if '0' <= c <= '9' {
        Some((c as u32 - '0' as u32) as nat)
    } else if radix == 16 && 'a' <= c <= 'f' {
        Some((c as u32 - 'a' as u32 + 10) as nat)
    } else if radix == 16 && 'A' <= c <= 'F' {
        Some((c as u32 - 'A' as u32 + 10) as nat)
    } else {
        None
    }
}

/// The number the digits `d` spell in base `radix`, or `None` when one of
/// them is not a digit.
pub open spec fn digits_value(d: Seq<char>, radix: u32) -> Option<nat>
    decreases d.len(),
{
    if d.len() == 0 {
        Some(0)
    } else {
        match (digits_value(d.drop_last(), radix), digit_value(d.last(), radix)) {
            (Some(v), Some(x)) => Some(v * (radix as nat) + x),
            _ => None,
        }
    }
}

/// An unsigned number in base `radix`: an optional `+` and at least one
/// digit, at most `max`.
pub open spec fn parse_unsigned(t: Seq<char>, radix: u32, max: nat) -> Option<nat> {
    let d = if t.len() > 0 && t[0] == '+' {
        t.drop_first()
    } else {
        t
    };
    if d.len() == 0 {
        None
    } else {
        match digits_value(d, radix) {
            Some(v) => if v <= max {
                Some(v)
            } else {
                None
            },
            None => None,
        }
    }
}


/// The characters of `s`.
pub fn chars_of(s: &str) -> (v: Vec<char>)
    ensures
        v@ == s@,
{
    let mut v: Vec<char> = Vec::new();
    for c in it: s.chars()
        invariant
            v@ == it.seq().take(it.index() as int),
    {
        v.push(c);
    }
    v
}


pub fn digit_value_exec(c: char, radix: u32) -> (r: Option<u32>)
    ensures
        match r {
            Some(x) => digit_value(c, radix) == Some(x as nat) && x < 16,
            None => digit_value(c, radix) is None,
        },
{
    if '0' <= c && c <= '9' {
        Some(c as u32 - '0' as u32)
    } else if radix == 16 && 'a' <= c && c <= 'f' {
        Some(c as u32 - 'a' as u32 + 10)
    } else if radix == 16 && 'A' <= c && c <= 'F' {
        Some(c as u32 - 'A' as u32 + 10)
    } else {
        None
    }
}

/// Digits past a prefix never make a number smaller.
pub proof fn lemma_digits_monotone(d: Seq<char>, radix: u32, k: int)
    requires
        0 <= k <= d.len(),
        radix == 10 || radix == 16,
        digits_value(d, radix) is Some,
    ensures
        digits_value(d.subrange(0, k), radix) is Some,
        digits_value(d.subrange(0, k), radix)->0 <= digits_value(d, radix)->0,
    decreases d.len(),
{
    if k < d.len() {
        assert(d.drop_last() =~= d.subrange(0, d.len() - 1));
        lemma_digits_monotone(d.drop_last(), radix, k);
        assert(d.drop_last().subrange(0, k) =~= d.subrange(0, k));
        let v = digits_value(d.drop_last(), radix)->0;
        let x = digit_value(d.last(), radix)->0;
        assert(v <= v * radix + x) by (nonlinear_arith)
            requires
                radix >= 1,
        ;
    } else {
        assert(d.subrange(0, k) =~= d);
    }
}

/// An unsigned number in base `radix` at most `max`, as `parse_unsigned`.
pub fn parse_unsigned_exec(t: &Vec<char>, radix: u32, max: u64) -> (r: Option<u64>)
    requires
        radix == 10 || radix == 16,
    ensures
        match r {
            Some(v) => parse_unsigned(t@, radix, max as nat) == Some(v as nat),
            None => parse_unsigned(t@, radix, max as nat) is None,
        },
{
    let start: usize = if t.len() > 0 && t[0] == '+' {
        1
    } else {
        0
    };
    let ghost d = if t@.len() > 0 && t@[0] == '+' {
        t@.drop_first()
    } else {
        t@
    };
    proof {
        assert(d =~= t@.subrange(start as int, t@.len() as int));
    }
    if start >= t.len() {
        return None;
    }
    let mut value: u128 = 0;
    let mut k = start;
    while k < t.len()
        invariant
            start <= k <= t@.len(),
            d =~= t@.subrange(start as int, t@.len() as int),
            d == (if t@.len() > 0 && t@[0] == '+' {
                t@.drop_first()
            } else {
                t@
            }),
            radix == 10 || radix == 16,
            value <= max,
            digits_value(d.subrange(0, k - start), radix) == Some(value as nat),
        decreases t@.len() - k,
    {
        let x = match digit_value_exec(t[k], radix) {
            Some(x) => x,
            None => {
                proof {
                    assert(d[k - start] == t@[k as int]);
                    lemma_digits_none(d, radix, (k - start) as int);

                }
                return None;
            },
        };
        proof {
            let pre = d.subrange(0, k + 1 - start);
            assert(pre.drop_last() =~= d.subrange(0, k - start));
            assert(pre.last() == t@[k as int]);
            assert(value * radix + x <= 0xffff_ffff_ffff_ffff * 16 + 15) by (nonlinear_arith)
                requires
                    value <= 0xffff_ffff_ffff_ffff,
                    radix <= 16,
                    x < 16,
            ;
        }
        let next = value * (radix as u128) + (x as u128);
        if next > max as u128 {
            proof {
                let pre = d.subrange(0, k + 1 - start);
                assert(pre.drop_last() =~= d.subrange(0, k - start));
                assert(pre.last() == t@[k as int]);
                assert(digits_value(pre, radix) == Some(next as nat));
                if digits_value(d, radix) is Some {
                    lemma_digits_monotone(d, radix, k + 1 - start);
                }
            }
            return None;
        }
        value = next;
        k = k + 1;
    }
    proof {
        assert(d.subrange(0, d.len() as int) =~= d);
    }
    Some(value as u64)
}

/// A non-digit anywhere makes the whole digit string invalid.
pub proof fn lemma_digits_none(d: Seq<char>, radix: u32, k: int)
    requires
        0 <= k < d.len(),
        digit_value(d[k], radix) is None,
    ensures
        digits_value(d, radix) is None,
    decreases d.len(),
{
    if k < d.len() - 1 {
        lemma_digits_none(d.drop_last(), radix, k);
    }
}


// ---------------------------------------------------------------------------
// Building text.

/// The character of digit `d` (below 16), lower-case for 10 to 15.
pub open spec fn digit_char(d: nat) -> char {
    if d < 10 {
        (('0' as u32) + d) as char
    } else {
        (('a' as u32) + d - 10) as char
    }
}

/// `v` written in base `radix` with at least `width` digits (zero-padded).
pub open spec fn num_text(v: nat, radix: nat, width: nat) -> Seq<char>
    decreases v, width,
{
    if radix < 2 || (v < radix && width <= 1) {
        seq![digit_char(v % 16)]
    } else {
        proof {
            assert(v / radix <= v && (v >= radix ==> v / radix < v) && (v < radix ==> v / radix
                == 0)) by (nonlinear_arith)
                requires
                    radix >= 2,
            ;
        }
        num_text(
            v / radix,
            radix,
            if width > 0 {
                (width - 1) as nat
            } else {
                0
            },
        ).push(digit_char(v % radix))
    }
}

/// Lower-case hexadecimal with at least `width` digits.
pub open spec fn hex_text(v: nat, width: nat) -> Seq<char> {
    num_text(v, 16, width)
}

/// Decimal with at least `width` digits.
pub open spec fn dec_text(v: nat, width: nat) -> Seq<char> {
    num_text(v, 10, width)
}

/// A signed decimal.
pub open spec fn signed_text(v: int) -> Seq<char> {
    if v < 0 {
        seq!['-'] + dec_text((-v) as nat, 0)
    } else {
        dec_text(v as nat, 0)
    }
}

pub open spec fn bool_text(b: bool) -> Seq<char> {
    if b {
        "true"@
    } else {
        "false"@
    }
}

fn digit_char_exec(d: u64) -> (c: char)
    requires
        d < 16,
    ensures
        c == digit_char(d as nat),
{
    if d < 10 {
        (('0' as u8) + d as u8) as char
    } else {
        (('a' as u8) + (d as u8) - 10) as char
    }
}

/// Appends `s`.
pub fn push_str(out: &mut Vec<char>, s: &str)
    ensures
        final(out)@ == old(out)@ + s@,
{
    let ghost start = out@;
    let mut it_len: usize = 0;
    for c in it: s.chars()
        invariant
            out@ == start + it.seq().take(it.index() as int),
    {
        out.push(c);
    }
    proof {
        assert(out@ =~= start + s@);
    }
}

/// Appends `v` in base `radix` (10 or 16) with at least `width` digits.
pub fn push_num(out: &mut Vec<char>, v: u64, radix: u64, width: u64)
    requires
        radix == 10 || radix == 16,
    ensures
        final(out)@ == old(out)@ + num_text(v as nat, radix as nat, width as nat),
    decreases v, width,
{
    if !(v < radix && width <= 1) {
        let w = if width > 0 {
            width - 1
        } else {
            0
        };
        push_num(out, v / radix, radix, w);
    }
    out.push(digit_char_exec(v % radix));
    proof {
        if v < radix && width <= 1 {
            assert(v % radix == v % 16);
        }
    }
}

/// Appends `v` in lower-case hexadecimal with at least `width` digits.
pub fn push_hex(out: &mut Vec<char>, v: u64, width: u64)
    ensures
        final(out)@ == old(out)@ + hex_text(v as nat, width as nat),
{
    push_num(out, v, 16, width);
}

/// Appends `v` in decimal with at least `width` digits.
pub fn push_dec(out: &mut Vec<char>, v: u64, width: u64)
    ensures
        final(out)@ == old(out)@ + dec_text(v as nat, width as nat),
{
    push_num(out, v, 10, width);
}

/// Appends a signed decimal.
pub fn push_signed(out: &mut Vec<char>, v: i32)
    ensures
        final(out)@ == old(out)@ + signed_text(v as int),
{
    if v < 0 {
        let ghost start = out@;
        out.push('-');
        push_num(out, (0i64 - v as i64) as u64, 10, 0);
        proof {
            assert(out@ =~= start + (seq!['-'] + dec_text((-v) as nat, 0)));
        }
    } else {
        push_num(out, v as u64, 10, 0);
    }
}

/// Appends `true` or `false`.
pub fn push_bool(out: &mut Vec<char>, b: bool)
    ensures
        final(out)@ == old(out)@ + bool_text(b),
{
    if b {
        push_str(out, "true");
    } else {
        push_str(out, "false");
    }
}

/// `std::string::String`'s `FromIterator<char>`: the string of the
/// characters `chars`.
#[verifier::external_body]
pub(crate) fn string_from_chars(chars: &Vec<char>) -> (s: String)
    ensures
        s@ == chars@,
{
    chars.iter().collect()
}

/// A label followed by a hexadecimal number of at least `width` digits.
pub open spec fn hex_field(label: Seq<char>, v: nat, width: nat) -> Seq<char> {
    label + hex_text(v, width)
}

/// A label followed by a decimal number of at least `width` digits.
pub open spec fn dec_field(label: Seq<char>, v: nat, width: nat) -> Seq<char> {
    label + dec_text(v, width)
}

/// A label followed by a signed decimal number.
pub open spec fn signed_field(label: Seq<char>, v: int) -> Seq<char> {
    label + signed_text(v)
}

/// Appends `label` and `v` in hexadecimal with at least `width` digits.
pub fn push_hex_field(out: &mut Vec<char>, label: &str, v: u64, width: u64)
    ensures
        final(out)@ == old(out)@ + hex_field(label@, v as nat, width as nat),
{
    let ghost start = out@;
    push_str(out, label);
    push_hex(out, v, width);
    proof {
        assert(out@ =~= start + hex_field(label@, v as nat, width as nat));
    }
}

/// Appends `label` and `v` in decimal with at least `width` digits.
pub fn push_dec_field(out: &mut Vec<char>, label: &str, v: u64, width: u64)
    ensures
        final(out)@ == old(out)@ + dec_field(label@, v as nat, width as nat),
{
    let ghost start = out@;
    push_str(out, label);
    push_dec(out, v, width);
    proof {
        assert(out@ =~= start + dec_field(label@, v as nat, width as nat));
    }
}

/// Appends `label` and `v` as a signed decimal.
pub fn push_signed_field(out: &mut Vec<char>, label: &str, v: i32)
    ensures
        final(out)@ == old(out)@ + signed_field(label@, v as int),
{
    let ghost start = out@;
    push_str(out, label);
    push_signed(out, v);
    proof {
        assert(out@ =~= start + signed_field(label@, v as int));
    }
}

} // verus!
