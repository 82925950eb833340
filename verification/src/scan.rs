//! Executable scanning primitives, each proved to return exactly what the
//! corresponding spec function of `grammar` decodes.

use vstd::prelude::*;
use vstd::slice::{slice_subrange, slice_to_vec};

use crate::grammar::{
    dec_value, hex_digit_value, hex_value, in_class, is_digit, lemma_run_end_char,
    lemma_run_end_range, match_at, run_end, spec_alpha_token, spec_boolean, spec_dec_u32,
    spec_float_text, spec_hex_u32, spec_line_ending, spec_opt_alnum, spec_rest_of_line,
    spec_separator, spec_token_list, ByteClass,
};

verus! {

/// Executable test of membership in a byte class.
pub fn byte_in_class(c: ByteClass, b: u8) -> (r: bool)
    ensures
        r == in_class(c, b),
{
    match c {
        ByteClass::Space => b == 32 || b == 9,
        ByteClass::Digit => 48 <= b && b <= 57,
        ByteClass::HexDigit => (48 <= b && b <= 57) || (97 <= b && b <= 102) || (65 <= b && b
            <= 70),
        ByteClass::TokenByte => (97 <= b && b <= 122) || (48 <= b && b <= 57) || b == 95,
        ByteClass::Alpha => (65 <= b && b <= 90) || (97 <= b && b <= 122),
        ByteClass::Alnum => (65 <= b && b <= 90) || (97 <= b && b <= 122) || (48 <= b && b <= 57),
        ByteClass::LineByte => b != 10 && b != 13,
    }
}

/// End of the run of bytes of class `c` starting at `pos`.
pub fn scan(s: &[u8], pos: usize, c: ByteClass) -> (e: usize)
    requires
        pos <= s.len(),
    ensures
        e as int == run_end(s@, pos as int, c),
        pos <= e <= s.len(),
{
    let mut i: usize = pos;
    while i < s.len() && byte_in_class(c, s[i])
        invariant
            pos <= i <= s.len(),
            forall|j: int| pos <= j < i ==> in_class(c, s@[j]),
        decreases s.len() - i,
    {
        i = i + 1;
    }
    proof {
        lemma_run_end_char(s@, pos as int, c, i as int);
    }
    i
}

/// Whether the bytes of `lit` occur in `s` at position `pos`.
pub fn match_lit(s: &[u8], pos: usize, lit: &[u8]) -> (r: bool)
    requires
        pos <= s.len(),
    ensures
        r == match_at(s@, pos as int, lit@),
{
    if s.len() - pos < lit.len() {
        return false;
    }
    let mut i: usize = 0;
    while i < lit.len()
        invariant
            0 <= i <= lit.len(),
            pos + lit.len() <= s.len(),
            forall|j: int| 0 <= j < i ==> s@[pos + j] == lit@[j],
        decreases lit.len() - i,
    {
        if s[pos + i] != lit[i] {
            assert(!match_at(s@, pos as int, lit@)) by {
                assert(s@.subrange(pos as int, pos + lit@.len())[i as int] == s@[pos + i]);
            }
            return false;
        }
        i += 1;
    }
    assert(s@.subrange(pos as int, pos + lit@.len()) =~= lit@);
    true
}

/// Whether the single byte `b` stands in `s` at position `pos`.
pub fn byte_at_is(s: &[u8], pos: usize, b: u8) -> (r: bool)
    requires
        pos <= s.len(),
    ensures
        r == match_at(s@, pos as int, seq![b]),
{
    let r = pos < s.len() && s[pos] == b;
    proof {
        if r {
            assert(s@.subrange(pos as int, pos as int + 1) =~= seq![b]);
        } else if match_at(s@, pos as int, seq![b]) {
            assert(s@.subrange(pos as int, pos as int + 1)[0] == s@[pos as int]);
        }
    }
    r
}

/// A copy of the bytes of `s` from `a` up to `b`.
pub fn copy_range(s: &[u8], a: usize, b: usize) -> (v: Vec<u8>)
    requires
        a <= b <= s.len(),
    ensures
        v@ == s@.subrange(a as int, b as int),
{
    slice_to_vec(slice_subrange(s, a, b))
}

/// A line break at `pos`: a line feed, or a carriage return and a line feed.
pub fn line_ending_at(s: &[u8], pos: usize) -> (r: Option<usize>)
    requires
        pos <= s.len(),
    ensures
        match r {
            Some(e) => spec_line_ending(s@, pos as int) == Some(e as int) && pos < e <= s.len(),
            None => spec_line_ending(s@, pos as int) is None,
        },
{
    if byte_at_is(s, pos, 10) {
        Some(pos + 1)
    } else if pos < s.len() && byte_at_is(s, pos, 13) && byte_at_is(s, pos + 1, 10) {
        proof {
            assert(s@.subrange(pos as int, pos as int + 2) =~= seq![13u8, 10u8]);
        }
        Some(pos + 2)
    } else {
        proof {
            if match_at(s@, pos as int, seq![13u8, 10u8]) {
                assert(s@.subrange(pos as int, pos as int + 2)[0] == s@[pos as int]);
                assert(s@.subrange(pos as int, pos as int + 2)[1] == s@[pos as int + 1]);
                assert(match_at(s@, pos as int + 1, seq![10u8])) by {
                    assert(s@.subrange(pos as int + 1, pos as int + 2) =~= seq![10u8]);
                }
            }
        }
        None
    }
}

/// The field separator at `pos`: optional horizontal whitespace, a colon,
/// optional horizontal whitespace.
pub fn separator_at(s: &[u8], pos: usize) -> (r: Option<usize>)
    requires
        pos <= s.len(),
    ensures
        match r {
            Some(e) => spec_separator(s@, pos as int) == Some(e as int) && pos <= e <= s.len(),
            None => spec_separator(s@, pos as int) is None,
        },
{
    let i = scan(s, pos, ByteClass::Space);
    if byte_at_is(s, i, 58) {
        let e = scan(s, i + 1, ByteClass::Space);
        Some(e)
    } else {
        None
    }
}

/// An unsigned decimal integer at `pos`: one or more digits, rejected when
/// the value does not fit in `u32`.
pub fn dec_u32_at(s: &[u8], pos: usize) -> (r: Option<(u32, usize)>)
    requires
        pos <= s.len(),
    ensures
        match r {
            Some((v, e)) => spec_dec_u32(s@, pos as int) == Some((v, e as int)) && pos < e
                <= s.len(),
            None => spec_dec_u32(s@, pos as int) is None,
        },
{
    let end = scan(s, pos, ByteClass::Digit);
    if end == pos {
        return None;
    }
    proof {
        lemma_run_end_range(s@, pos as int, ByteClass::Digit);
    }
    let mut acc: u64 = 0;
    let mut over: bool = false;
    let mut i: usize = pos;
    while i < end
        invariant
            pos <= i <= end <= s.len(),
            end as int == run_end(s@, pos as int, ByteClass::Digit),
            forall|j: int| pos <= j < end ==> is_digit(s@[j]),
            !over ==> acc == dec_value(s@.subrange(pos as int, i as int)) && acc <= u32::MAX,
            over ==> dec_value(s@.subrange(pos as int, i as int)) > u32::MAX,
        decreases end - i,
    {
        let d = s[i];
        proof {
            assert(s@.subrange(pos as int, i + 1).drop_last() =~= s@.subrange(
                pos as int,
                i as int,
            ));
            assert(s@.subrange(pos as int, i + 1).last() == s@[i as int]);
        }
        if !over {
            let acc2 = acc * 10 + ((d - 48) as u64);
            if acc2 > 0xFFFF_FFFFu64 {
                over = true;
            } else {
                acc = acc2;
            }
        }
        i += 1;
    }
    proof {
        assert(s@.subrange(pos as int, end as int) =~= s@.subrange(pos as int, i as int));
    }
    if over {
        None
    } else {
        Some((acc as u32, end))
    }
}

/// A hexadecimal integer at `pos`: a case-insensitive `0x` prefix, then one
/// or more hexadecimal digits, rejected when the value does not fit in `u32`.
pub fn hex_u32_at(s: &[u8], pos: usize) -> (r: Option<(u32, usize)>)
    requires
        pos <= s.len(),
    ensures
        match r {
            Some((v, e)) => spec_hex_u32(s@, pos as int) == Some((v, e as int)) && pos < e
                <= s.len(),
            None => spec_hex_u32(s@, pos as int) is None,
        },
{
    let lx: [u8; 2] = [48u8, 120u8];
    let ux: [u8; 2] = [48u8, 88u8];
    proof {
        assert(lx@ =~= seq![48u8, 120u8]);
        assert(ux@ =~= seq![48u8, 88u8]);
    }
    if !(match_lit(s, pos, lx.as_slice()) || match_lit(s, pos, ux.as_slice())) {
        return None;
    }
    let d = pos + 2;
    let end = scan(s, d, ByteClass::HexDigit);
    if end == d {
        return None;
    }
    proof {
        lemma_run_end_range(s@, d as int, ByteClass::HexDigit);
    }
    let mut acc: u64 = 0;
    let mut over: bool = false;
    let mut i: usize = d;
    while i < end
        invariant
            d <= i <= end <= s.len(),
            end as int == run_end(s@, d as int, ByteClass::HexDigit),
            forall|j: int| d <= j < end ==> in_class(ByteClass::HexDigit, s@[j]),
            !over ==> acc == hex_value(s@.subrange(d as int, i as int)) && acc <= u32::MAX,
            over ==> hex_value(s@.subrange(d as int, i as int)) > u32::MAX,
        decreases end - i,
    {
        let b = s[i];
        let hv: u8 = if 48 <= b && b <= 57 {
            b - 48
        } else if 97 <= b && b <= 102 {
            b - 87
        } else {
            b - 55
        };
        proof {
            assert(s@.subrange(d as int, i + 1).drop_last() =~= s@.subrange(d as int, i as int));
            assert(s@.subrange(d as int, i + 1).last() == s@[i as int]);
            assert(hv == hex_digit_value(s@[i as int]));
        }
        if !over {
            let acc2 = acc * 16 + (hv as u64);
            if acc2 > 0xFFFF_FFFFu64 {
                over = true;
            } else {
                acc = acc2;
            }
        }
        i += 1;
    }
    proof {
        assert(s@.subrange(d as int, end as int) =~= s@.subrange(d as int, i as int));
    }
    if over {
        None
    } else {
        Some((acc as u32, end))
    }
}

/// Zero or more single-space-separated tokens at `pos`. Always succeeds; the
/// returned position is just past the last token, or `pos` when there is
/// none.
pub fn token_list_at(s: &[u8], pos: usize) -> (r: (Vec<Vec<u8>>, usize))
    requires
        pos <= s.len(),
    ensures
        r.0.deep_view() == spec_token_list(s@, pos as int).0,
        r.1 as int == spec_token_list(s@, pos as int).1,
        pos <= r.1 <= s.len(),
    decreases s.len() - pos,
{
    if pos >= s.len() || !byte_in_class(ByteClass::TokenByte, s[pos]) {
        let v: Vec<Vec<u8>> = Vec::new();
        proof {
            assert(v.deep_view() =~~= spec_token_list(s@, pos as int).0);
        }
        (v, pos)
    } else {
        let e = scan(s, pos, ByteClass::TokenByte);
        let tok = copy_range(s, pos, e);
        if e < s.len() && e + 1 < s.len() && s[e] == 32 && byte_in_class(
            ByteClass::TokenByte,
            s[e + 1],
        ) {
            let (mut rest, end) = token_list_at(s, e + 1);
            let ghost rest_view = rest.deep_view();
            rest.insert(0, tok);
            proof {
                let g = spec_token_list(s@, pos as int);
                assert(g.0 == seq![s@.subrange(pos as int, e as int)] + spec_token_list(
                    s@,
                    e + 1,
                ).0);
                assert(rest.deep_view() =~~= seq![s@.subrange(pos as int, e as int)] + rest_view);
            }
            (rest, end)
        } else {
            let mut v: Vec<Vec<u8>> = Vec::new();
            v.push(tok);
            proof {
                assert(v.deep_view() =~~= seq![s@.subrange(pos as int, e as int)]);
            }
            (v, e)
        }
    }
}

/// One or more ASCII letters at `pos`.
pub fn alpha_token_at(s: &[u8], pos: usize) -> (r: Option<(Vec<u8>, usize)>)
    requires
        pos <= s.len(),
    ensures
        match r {
            Some((v, e)) => spec_alpha_token(s@, pos as int) == Some((v@, e as int)) && pos < e
                <= s.len(),
            None => spec_alpha_token(s@, pos as int) is None,
        },
{
    let e = scan(s, pos, ByteClass::Alpha);
    if e == pos {
        None
    } else {
        Some((copy_range(s, pos, e), e))
    }
}

/// Every byte at `pos` and after before the next line break byte.
pub fn rest_of_line_at(s: &[u8], pos: usize) -> (r: (Vec<u8>, usize))
    requires
        pos <= s.len(),
    ensures
        spec_rest_of_line(s@, pos as int) == (r.0@, r.1 as int),
        pos <= r.1 <= s.len(),
{
    let e = scan(s, pos, ByteClass::LineByte);
    (copy_range(s, pos, e), e)
}

/// An optional alphanumeric token at `pos`. Always succeeds; absent when no
/// letter or digit stands at `pos`.
pub fn opt_alnum_at(s: &[u8], pos: usize) -> (r: (Option<Vec<u8>>, usize))
    requires
        pos <= s.len(),
    ensures
        match r.0 {
            Some(v) => spec_opt_alnum(s@, pos as int).0 == Some(v@),
            None => spec_opt_alnum(s@, pos as int).0 is None,
        },
        r.1 as int == spec_opt_alnum(s@, pos as int).1,
        pos <= r.1 <= s.len(),
{
    let e = scan(s, pos, ByteClass::Alnum);
    if e == pos {
        (None, pos)
    } else {
        (Some(copy_range(s, pos, e)), e)
    }
}

/// The text of a decimal floating-point number at `pos`.
pub fn float_text_at(s: &[u8], pos: usize) -> (r: Option<(Vec<u8>, usize)>)
    requires
        pos <= s.len(),
    ensures
        match r {
            Some((v, e)) => spec_float_text(s@, pos as int) == Some((v@, e as int)) && pos <= e
                <= s.len(),
            None => spec_float_text(s@, pos as int) is None,
        },
{
    let i = if byte_at_is(s, pos, 43) || byte_at_is(s, pos, 45) {
        pos + 1
    } else {
        pos
    };
    let m: Option<usize> = if i < s.len() && byte_in_class(ByteClass::Digit, s[i]) {
        let d = scan(s, i, ByteClass::Digit);
        if byte_at_is(s, d, 46) {
            Some(scan(s, d + 1, ByteClass::Digit))
        } else {
            Some(d)
        }
    } else if byte_at_is(s, i, 46) && i < s.len() && i + 1 < s.len() && byte_in_class(
        ByteClass::Digit,
        s[i + 1],
    ) {
        Some(scan(s, i + 1, ByteClass::Digit))
    } else {
        None
    };
    match m {
        None => None,
        Some(j) => {
            if j < s.len() && (s[j] == 101 || s[j] == 69) {
                let k = if byte_at_is(s, j + 1, 43) || byte_at_is(s, j + 1, 45) {
                    j + 2
                } else {
                    j + 1
                };
                if k < s.len() && byte_in_class(ByteClass::Digit, s[k]) {
                    let e = scan(s, k, ByteClass::Digit);
                    Some((copy_range(s, pos, e), e))
                } else {
                    None
                }
            } else {
                Some((copy_range(s, pos, j), j))
            }
        },
    }
}

/// Exactly the token `yes` or the token `no` at `pos`.
pub fn boolean_at(s: &[u8], pos: usize) -> (r: Option<(bool, usize)>)
    requires
        pos <= s.len(),
    ensures
        match r {
            Some((v, e)) => spec_boolean(s@, pos as int) == Some((v, e as int)) && pos < e
                <= s.len(),
            None => spec_boolean(s@, pos as int) is None,
        },
{
    let yes: [u8; 3] = [121u8, 101u8, 115u8];
    let no: [u8; 2] = [110u8, 111u8];
    proof {
        assert(yes@ =~= seq![121u8, 101u8, 115u8]);
        assert(no@ =~= seq![110u8, 111u8]);
    }
    if match_lit(s, pos, yes.as_slice()) {
        Some((true, pos + 3))
    } else if match_lit(s, pos, no.as_slice()) {
        Some((false, pos + 2))
    } else {
        None
    }
}

} // verus!
