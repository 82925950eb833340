//! The grammar of the processor listing, stated as spec functions over byte
//! sequences. Every executable parser in this crate is proved to return
//! exactly what these functions decode.
//!
//! A position is an `int` index into the input. Parsers that can fail return
//! `Option` of the decoded value and the position just past what was
//! consumed; parsers that always succeed return the pair directly.

use vstd::prelude::*;

verus! {

// ---------------------------------------------------------------------------
// Byte classes
// ---------------------------------------------------------------------------

/// The classes of bytes the grammar scans runs of.
#[derive(Clone, Copy)]
pub enum ByteClass {
    /// Horizontal whitespace: space or tab.
    Space,
    /// ASCII decimal digit.
    Digit,
    /// ASCII hexadecimal digit, either case.
    HexDigit,
    /// A byte of a list token: lowercase letter, digit or underscore.
    TokenByte,
    /// ASCII letter, either case.
    Alpha,
    /// ASCII letter or digit.
    Alnum,
    /// Any byte but a line break byte (line feed or carriage return).
    LineByte,
}

pub open spec fn is_space(b: u8) -> bool {
    b == 32 || b == 9
}

pub open spec fn is_digit(b: u8) -> bool {
    48 <= b <= 57
}

pub open spec fn is_hex_digit(b: u8) -> bool {
    is_digit(b) || (97 <= b <= 102) || (65 <= b <= 70)
}

pub open spec fn is_token_byte(b: u8) -> bool {
    (97 <= b <= 122) || is_digit(b) || b == 95
}

pub open spec fn is_alpha(b: u8) -> bool {
    (65 <= b <= 90) || (97 <= b <= 122)
}

pub open spec fn is_alnum(b: u8) -> bool {
    is_alpha(b) || is_digit(b)
}

pub open spec fn is_line_byte(b: u8) -> bool {
    b != 10 && b != 13
}

pub open spec fn in_class(c: ByteClass, b: u8) -> bool {
    match c {
        ByteClass::Space => is_space(b),
        ByteClass::Digit => is_digit(b),
        ByteClass::HexDigit => is_hex_digit(b),
        ByteClass::TokenByte => is_token_byte(b),
        ByteClass::Alpha => is_alpha(b),
        ByteClass::Alnum => is_alnum(b),
        ByteClass::LineByte => is_line_byte(b),
    }
}

// ---------------------------------------------------------------------------
// Runs and literals
// ---------------------------------------------------------------------------

/// End of the run of bytes of class `c` starting at `pos`: the first index at
/// or after `pos` that is out of range or holds a byte outside the class.
pub open spec fn run_end(s: Seq<u8>, pos: int, c: ByteClass) -> int
    decreases s.len() - pos,
{
    if pos < 0 || pos >= s.len() || !in_class(c, s[pos]) {
        pos
    } else {
        run_end(s, pos + 1, c)
    }
}

pub proof fn lemma_run_end_bounds(s: Seq<u8>, pos: int, c: ByteClass)
    requires
        0 <= pos <= s.len(),
    ensures
        pos <= run_end(s, pos, c) <= s.len(),
    decreases s.len() - pos,
{
    if pos < s.len() && in_class(c, s[pos]) {
        lemma_run_end_bounds(s, pos + 1, c);
    }
}

pub proof fn lemma_run_end_range(s: Seq<u8>, pos: int, c: ByteClass)
    requires
        0 <= pos <= s.len(),
    ensures
        forall|j: int| pos <= j < run_end(s, pos, c) ==> in_class(c, s[j]),
        run_end(s, pos, c) < s.len() ==> !in_class(c, s[run_end(s, pos, c)]),
    decreases s.len() - pos,
{
    if pos < s.len() && in_class(c, s[pos]) {
        lemma_run_end_range(s, pos + 1, c);
    }
}

/// A run end is the unique position bounding a maximal run of class bytes.
pub proof fn lemma_run_end_char(s: Seq<u8>, pos: int, c: ByteClass, e: int)
    requires
        0 <= pos <= e <= s.len(),
        forall|j: int| pos <= j < e ==> in_class(c, s[j]),
        e < s.len() ==> !in_class(c, s[e]),
    ensures
        run_end(s, pos, c) == e,
    decreases e - pos,
{
    if pos < e {
        lemma_run_end_char(s, pos + 1, c, e);
    }
}

/// The literal `lit` occurs in `s` at position `pos`.
pub open spec fn match_at(s: Seq<u8>, pos: int, lit: Seq<u8>) -> bool {
    &&& 0 <= pos
    &&& pos + lit.len() <= s.len()
    &&& s.subrange(pos, pos + lit.len()) =~= lit
}

// ---------------------------------------------------------------------------
// Numeric value of digit strings
// ---------------------------------------------------------------------------

/// Value of a string of decimal digit bytes, most significant first.
pub open spec fn dec_value(s: Seq<u8>) -> int
    decreases s.len(),
{
    if s.len() == 0 {
        0
    } else {
        dec_value(s.drop_last()) * 10 + s.last() - 48
    }
}

pub open spec fn hex_digit_value(b: u8) -> int {
    if is_digit(b) {
        b - 48
    } else if 97 <= b <= 102 {
        b - 87
    } else {
        b - 55
    }
}

/// Value of a string of hexadecimal digit bytes, either case, most
/// significant first.
pub open spec fn hex_value(s: Seq<u8>) -> int
    decreases s.len(),
{
    if s.len() == 0 {
        0
    } else {
        hex_value(s.drop_last()) * 16 + hex_digit_value(s.last())
    }
}

// ---------------------------------------------------------------------------
// Primitive pieces of a line
// ---------------------------------------------------------------------------

/// A line break: a line feed, or a carriage return followed by a line feed.
pub open spec fn spec_line_ending(s: Seq<u8>, pos: int) -> Option<int> {
    if match_at(s, pos, seq![10u8]) {
        Some(pos + 1)
    } else if match_at(s, pos, seq![13u8, 10u8]) {
        Some(pos + 2)
    } else {
        None
    }
}

/// The colon separating a field name from its value, padded on either side
/// by any amount of horizontal whitespace.
pub open spec fn spec_separator(s: Seq<u8>, pos: int) -> Option<int> {
    let i = run_end(s, pos, ByteClass::Space);
    if match_at(s, i, seq![58u8]) {
        Some(run_end(s, i + 1, ByteClass::Space))
    } else {
        None
    }
}

/// An unsigned decimal integer: one or more digits whose value fits in
/// `u32`.
pub open spec fn spec_dec_u32(s: Seq<u8>, pos: int) -> Option<(u32, int)> {
    let e = run_end(s, pos, ByteClass::Digit);
    if e == pos {
        None
    } else if dec_value(s.subrange(pos, e)) > u32::MAX {
        None
    } else {
        Some((dec_value(s.subrange(pos, e)) as u32, e))
    }
}

/// A hexadecimal integer: a case-insensitive `0x` prefix, then one or more
/// hexadecimal digits whose value fits in `u32`.
pub open spec fn spec_hex_u32(s: Seq<u8>, pos: int) -> Option<(u32, int)> {
    if match_at(s, pos, seq![48u8, 120u8]) || match_at(s, pos, seq![48u8, 88u8]) {
        let d = pos + 2;
        let e = run_end(s, d, ByteClass::HexDigit);
        if e == d {
            None
        } else if hex_value(s.subrange(d, e)) > u32::MAX {
            None
        } else {
            Some((hex_value(s.subrange(d, e)) as u32, e))
        }
    } else {
        None
    }
}

/// Exactly the token `yes` or the token `no`.
pub open spec fn spec_boolean(s: Seq<u8>, pos: int) -> Option<(bool, int)> {
    if match_at(s, pos, seq![121u8, 101u8, 115u8]) {
        Some((true, pos + 3))
    } else if match_at(s, pos, seq![110u8, 111u8]) {
        Some((false, pos + 2))
    } else {
        None
    }
}

/// Zero or more tokens of lowercase letters, digits and underscores,
/// separated by single spaces. Always succeeds; an empty list consumes
/// nothing. A space is consumed only when another token follows it.
pub open spec fn spec_token_list(s: Seq<u8>, pos: int) -> (Seq<Seq<u8>>, int)
    decreases s.len() - pos,
{
    if pos < 0 || pos >= s.len() || !is_token_byte(s[pos]) {
        (Seq::empty(), pos)
    } else {
        let e = run_end(s, pos, ByteClass::TokenByte);
        if e + 1 < s.len() && s[e] == 32 && is_token_byte(s[e + 1]) {
            proof {
                lemma_run_end_bounds(s, pos, ByteClass::TokenByte);
            }
            let (rest, end) = spec_token_list(s, e + 1);
            (seq![s.subrange(pos, e)] + rest, end)
        } else {
            (seq![s.subrange(pos, e)], e)
        }
    }
}

/// One or more ASCII letters.
pub open spec fn spec_alpha_token(s: Seq<u8>, pos: int) -> Option<(Seq<u8>, int)> {
    let e = run_end(s, pos, ByteClass::Alpha);
    if e == pos {
        None
    } else {
        Some((s.subrange(pos, e), e))
    }
}

/// The rest of the line: every byte before the next line break byte. Always
/// succeeds, possibly with an empty result.
pub open spec fn spec_rest_of_line(s: Seq<u8>, pos: int) -> (Seq<u8>, int) {
    let e = run_end(s, pos, ByteClass::LineByte);
    (s.subrange(pos, e), e)
}

/// An optional token of ASCII letters and digits: absent when no such byte
/// stands at `pos`. Always succeeds.
pub open spec fn spec_opt_alnum(s: Seq<u8>, pos: int) -> (Option<Seq<u8>>, int) {
    let e = run_end(s, pos, ByteClass::Alnum);
    if e == pos {
        (None, pos)
    } else {
        (Some(s.subrange(pos, e)), e)
    }
}

/// The text of a decimal floating-point number: an optional sign, then
/// either digits with an optional fraction or a fraction alone, then an
/// optional exponent. Once an exponent marker is seen, its digits must
/// follow. Returns the matched text.
pub open spec fn spec_float_text(s: Seq<u8>, pos: int) -> Option<(Seq<u8>, int)> {
    if pos < 0 {
        None
    } else {
        let i = if match_at(s, pos, seq![43u8]) || match_at(s, pos, seq![45u8]) {
            pos + 1
        } else {
            pos
        };
        let m = if i < s.len() && is_digit(s[i]) {
            let d = run_end(s, i, ByteClass::Digit);
            if match_at(s, d, seq![46u8]) {
                Some(run_end(s, d + 1, ByteClass::Digit))
            } else {
                Some(d)
            }
        } else if match_at(s, i, seq![46u8]) && i + 1 < s.len() && is_digit(s[i + 1]) {
            Some(run_end(s, i + 1, ByteClass::Digit))
        } else {
            None
        };
        match m {
            None => None,
            Some(j) => {
                if j < s.len() && (s[j] == 101 || s[j] == 69) {
                    let k = if match_at(s, j + 1, seq![43u8]) || match_at(s, j + 1, seq![45u8]) {
                        j + 2
                    } else {
                        j + 1
                    };
                    if k < s.len() && is_digit(s[k]) {
                        let e = run_end(s, k, ByteClass::Digit);
                        Some((s.subrange(pos, e), e))
                    } else {
                        None
                    }
                } else {
                    Some((s.subrange(pos, j), j))
                }
            },
        }
    }
}

// ---------------------------------------------------------------------------
// Field lines: name, separator, typed value, line break
// ---------------------------------------------------------------------------

/// The start of every field line: the field name literally, then the
/// separator. Returns the position where the value begins.
pub open spec fn spec_field_prefix(s: Seq<u8>, pos: int, name: Seq<u8>) -> Option<int> {
    if match_at(s, pos, name) {
        spec_separator(s, pos + name.len())
    } else {
        None
    }
}

/// A field line holding a decimal integer.
pub open spec fn spec_field_u32(s: Seq<u8>, pos: int, name: Seq<u8>) -> Option<(u32, int)> {
    match spec_field_prefix(s, pos, name) {
        None => None,
        Some(v0) => match spec_dec_u32(s, v0) {
            None => None,
            Some((v, v1)) => match spec_line_ending(s, v1) {
                None => None,
                Some(end) => Some((v, end)),
            },
        },
    }
}

/// A field line holding a hexadecimal integer.
pub open spec fn spec_field_hex(s: Seq<u8>, pos: int, name: Seq<u8>) -> Option<(u32, int)> {
    match spec_field_prefix(s, pos, name) {
        None => None,
        Some(v0) => match spec_hex_u32(s, v0) {
            None => None,
            Some((v, v1)) => match spec_line_ending(s, v1) {
                None => None,
                Some(end) => Some((v, end)),
            },
        },
    }
}

/// A field line holding `yes` or `no`.
pub open spec fn spec_field_bool(s: Seq<u8>, pos: int, name: Seq<u8>) -> Option<(bool, int)> {
    match spec_field_prefix(s, pos, name) {
        None => None,
        Some(v0) => match spec_boolean(s, v0) {
            None => None,
            Some((v, v1)) => match spec_line_ending(s, v1) {
                None => None,
                Some(end) => Some((v, end)),
            },
        },
    }
}

/// A field line holding a possibly empty token list.
pub open spec fn spec_field_list(s: Seq<u8>, pos: int, name: Seq<u8>) -> Option<
    (Seq<Seq<u8>>, int),
> {
    match spec_field_prefix(s, pos, name) {
        None => None,
        Some(v0) => {
            let (vs, v1) = spec_token_list(s, v0);
            match spec_line_ending(s, v1) {
                None => None,
                Some(end) => Some((vs, end)),
            }
        },
    }
}

/// A field line holding a token of ASCII letters.
pub open spec fn spec_field_alpha(s: Seq<u8>, pos: int, name: Seq<u8>) -> Option<(Seq<u8>, int)> {
    match spec_field_prefix(s, pos, name) {
        None => None,
        Some(v0) => match spec_alpha_token(s, v0) {
            None => None,
            Some((v, v1)) => match spec_line_ending(s, v1) {
                None => None,
                Some(end) => Some((v, end)),
            },
        },
    }
}

/// A field line holding free-form text: the rest of the line verbatim.
pub open spec fn spec_field_line(s: Seq<u8>, pos: int, name: Seq<u8>) -> Option<(Seq<u8>, int)> {
    match spec_field_prefix(s, pos, name) {
        None => None,
        Some(v0) => {
            let (v, v1) = spec_rest_of_line(s, v0);
            match spec_line_ending(s, v1) {
                None => None,
                Some(end) => Some((v, end)),
            }
        },
    }
}

/// A field line holding the text of a decimal floating-point number.
pub open spec fn spec_field_float(s: Seq<u8>, pos: int, name: Seq<u8>) -> Option<(Seq<u8>, int)> {
    match spec_field_prefix(s, pos, name) {
        None => None,
        Some(v0) => match spec_float_text(s, v0) {
            None => None,
            Some((v, v1)) => match spec_line_ending(s, v1) {
                None => None,
                Some(end) => Some((v, end)),
            },
        },
    }
}

/// A field line holding an optional alphanumeric token.
pub open spec fn spec_field_opt_alnum(s: Seq<u8>, pos: int, name: Seq<u8>) -> Option<
    (Option<Seq<u8>>, int),
> {
    match spec_field_prefix(s, pos, name) {
        None => None,
        Some(v0) => {
            let (v, v1) = spec_opt_alnum(s, v0);
            match spec_line_ending(s, v1) {
                None => None,
                Some(end) => Some((v, end)),
            }
        },
    }
}

/// The cache size line: a decimal count of kilobytes, then the verbatim
/// suffix ` KB` — one space, then the two letters. The decoded value is the
/// count scaled to bytes; the line is rejected when the scaled value does
/// not fit in `u32`.
pub open spec fn spec_field_cache_size(s: Seq<u8>, pos: int, name: Seq<u8>) -> Option<
    (u32, int),
> {
    match spec_field_prefix(s, pos, name) {
        None => None,
        Some(v0) => match spec_dec_u32(s, v0) {
            None => None,
            Some((kb, v1)) => {
                if match_at(s, v1, seq![32u8, 75u8, 66u8]) {
                    match spec_line_ending(s, v1 + 3) {
                        None => None,
                        Some(end) => {
                            if kb * 1024 <= u32::MAX {
                                Some(((kb * 1024) as u32, end))
                            } else {
                                None
                            }
                        },
                    }
                } else {
                    None
                }
            },
        },
    }
}

/// Literal ` bits physical`.
pub open spec fn lit_bits_physical() -> Seq<u8> {
    seq![32u8, 98u8, 105u8, 116u8, 115u8, 32u8, 112u8, 104u8, 121u8, 115u8, 105u8, 99u8, 97u8, 108u8]
}

/// Literal ` bits virtual`.
pub open spec fn lit_bits_virtual() -> Seq<u8> {
    seq![32u8, 98u8, 105u8, 116u8, 115u8, 32u8, 118u8, 105u8, 114u8, 116u8, 117u8, 97u8, 108u8]
}

/// A bit count with the ` bits physical` suffix.
pub open spec fn spec_physical_size(s: Seq<u8>, pos: int) -> Option<(u32, int)> {
    match spec_dec_u32(s, pos) {
        None => None,
        Some((p, i)) => {
            if match_at(s, i, lit_bits_physical()) {
                Some((p, i + 14))
            } else {
                None
            }
        },
    }
}

/// A bit count with the ` bits virtual` suffix.
pub open spec fn spec_virtual_size(s: Seq<u8>, pos: int) -> Option<(u32, int)> {
    match spec_dec_u32(s, pos) {
        None => None,
        Some((v, i)) => {
            if match_at(s, i, lit_bits_virtual()) {
                Some((v, i + 13))
            } else {
                None
            }
        },
    }
}

/// The pair of address widths: a bit count with the `physical` suffix, a
/// comma and space, then a bit count with the `virtual` suffix.
pub open spec fn spec_address_pair(s: Seq<u8>, pos: int) -> Option<((u32, u32), int)> {
    match spec_physical_size(s, pos) {
        None => None,
        Some((p, i)) => {
            if match_at(s, i, seq![44u8, 32u8]) {
                match spec_virtual_size(s, i + 2) {
                    None => None,
                    Some((v, k)) => Some(((p, v), k)),
                }
            } else {
                None
            }
        },
    }
}

/// The address sizes line.
pub open spec fn spec_field_address(s: Seq<u8>, pos: int, name: Seq<u8>) -> Option<
    ((u32, u32), int),
> {
    match spec_field_prefix(s, pos, name) {
        None => None,
        Some(v0) => match spec_address_pair(s, v0) {
            None => None,
            Some((v, v1)) => match spec_line_ending(s, v1) {
                None => None,
                Some(end) => Some((v, end)),
            },
        },
    }
}

} // verus!
