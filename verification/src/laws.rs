//! The laws the grammar obeys, stated and proved over the spec functions.
//!
//! The completeness lemmas say that a field line constructed from a field
//! name, any horizontal padding around the colon, and a valid value text
//! parses successfully and decodes to exactly the value of that text.

use vstd::prelude::*;

use crate::fields::{
    name_address_sizes, name_apicid, name_bogomips, name_bugs, name_cache_alignment,
    name_cache_size, name_clflush_size, name_core_id, name_cpu_cores, name_cpu_family,
    name_cpu_mhz, name_cpuid_level, name_flags, name_fpu, name_fpu_exception,
    name_initial_apicid, name_microcode, name_model, name_model_name, name_physical_id,
    name_power_management, name_processor, name_siblings, name_stepping, name_vendor_id,
    name_vmx_flags, name_wp, AddressSizes,
};
use crate::record::{spec_parse_cpu, spec_parse_cpu_tail, spec_parse_cpus, CpuTailV, CpuV};
use crate::spec_parse_doc;

use crate::grammar::{
    dec_value, hex_value, in_class, is_alnum, is_alpha, is_digit, is_hex_digit, is_line_byte,
    is_space, is_token_byte, lemma_run_end_char, lit_bits_physical, lit_bits_virtual, match_at,
    run_end, spec_address_pair, spec_boolean, spec_dec_u32, spec_field_address,
    spec_field_cache_size, spec_physical_size, spec_virtual_size, spec_field_alpha, spec_field_bool, spec_field_float, spec_field_hex, spec_field_line,
    spec_field_list, spec_field_opt_alnum, spec_field_prefix, spec_field_u32, spec_hex_u32,
    spec_line_ending, spec_separator, spec_token_list, ByteClass,
};

verus! {

// ---------------------------------------------------------------------------
// Toolkit: decomposing a literal match over a concatenation
// ---------------------------------------------------------------------------

/// A match of a concatenation is a match of each part in place.
pub proof fn lemma_match_split(s: Seq<u8>, pos: int, a: Seq<u8>, b: Seq<u8>)
    requires
        match_at(s, pos, a + b),
    ensures
        match_at(s, pos, a),
        match_at(s, pos + a.len(), b),
{
    assert(s.subrange(pos, pos + a.len()) =~= a) by {
        assert forall|i: int| 0 <= i < a.len() implies s.subrange(pos, pos + a.len())[i] == a[
            i
        ] by {
            assert(s.subrange(pos, pos + (a + b).len())[i] == (a + b)[i]);
        }
    }
    assert(s.subrange(pos + a.len(), pos + a.len() + b.len()) =~= b) by {
        assert forall|i: int| 0 <= i < b.len() implies s.subrange(
            pos + a.len(),
            pos + a.len() + b.len(),
        )[i] == b[i] by {
            assert(s.subrange(pos, pos + (a + b).len())[a.len() + i] == (a + b)[a.len() + i]);
        }
    }
}

/// Each byte of a matched literal stands in the input at its offset.
pub proof fn lemma_match_byte(s: Seq<u8>, pos: int, lit: Seq<u8>, k: int)
    requires
        match_at(s, pos, lit),
        0 <= k < lit.len(),
    ensures
        s[pos + k] == lit[k],
{
    assert(s.subrange(pos, pos + lit.len())[k] == lit[k]);
}

/// A run of class bytes ends exactly at the first byte past them that is out
/// of the class (or at the end of the input), stated over a matched window.
pub proof fn lemma_run_over_window(s: Seq<u8>, pos: int, w: Seq<u8>, c: ByteClass)
    requires
        match_at(s, pos, w),
        forall|i: int| 0 <= i < w.len() ==> in_class(c, w[i]),
        pos + w.len() == s.len() || !in_class(c, s[pos + w.len()]),
    ensures
        run_end(s, pos, c) == pos + w.len(),
{
    assert forall|j: int| pos <= j < pos + w.len() implies in_class(c, s[j]) by {
        lemma_match_byte(s, pos, w, j - pos);
    }
    lemma_run_end_char(s, pos, c, pos + w.len());
}

/// Every byte of a horizontal-padding sequence is a space or a tab.
pub open spec fn all_spaces(p: Seq<u8>) -> bool {
    forall|i: int| 0 <= i < p.len() ==> is_space(p[i])
}

/// Every byte is a decimal digit.
pub open spec fn all_digits(v: Seq<u8>) -> bool {
    forall|i: int| 0 <= i < v.len() ==> is_digit(v[i])
}

/// Every byte is a hexadecimal digit.
pub open spec fn all_hex_digits(v: Seq<u8>) -> bool {
    forall|i: int| 0 <= i < v.len() ==> is_hex_digit(v[i])
}

/// The text of a separator: padding, a colon, padding.
pub open spec fn sep_text(pad1: Seq<u8>, pad2: Seq<u8>) -> Seq<u8> {
    pad1 + seq![58u8] + pad2
}

/// A line terminator: a line feed alone, or a carriage return and line feed.
pub open spec fn is_eol(eol: Seq<u8>) -> bool {
    eol == seq![10u8] || eol == seq![13u8, 10u8]
}

/// The text of a whole field line: the name, a separator, the value text,
/// a line terminator.
pub open spec fn line_text(
    name: Seq<u8>,
    pad1: Seq<u8>,
    pad2: Seq<u8>,
    vtext: Seq<u8>,
    eol: Seq<u8>,
) -> Seq<u8> {
    name + sep_text(pad1, pad2) + vtext + eol
}

// ---------------------------------------------------------------------------
// Completeness of the separator and the field prefix
// ---------------------------------------------------------------------------

/// A separator built from any padding parses, ending exactly where the
/// value begins, provided the value does not begin with more padding.
pub proof fn lemma_separator_complete(s: Seq<u8>, pos: int, pad1: Seq<u8>, pad2: Seq<u8>)
    requires
        match_at(s, pos, sep_text(pad1, pad2)),
        all_spaces(pad1),
        all_spaces(pad2),
        pos + sep_text(pad1, pad2).len() == s.len() || !is_space(
            s[pos + sep_text(pad1, pad2).len()],
        ),
    ensures
        spec_separator(s, pos) == Some(pos + sep_text(pad1, pad2).len()),
{
    lemma_match_split(s, pos, pad1, seq![58u8] + pad2);
    lemma_match_split(s, pos + pad1.len(), seq![58u8], pad2);
    lemma_match_byte(s, pos + pad1.len(), seq![58u8], 0);
    lemma_run_over_window(s, pos, pad1, ByteClass::Space);
    lemma_run_over_window(s, pos + pad1.len() + 1, pad2, ByteClass::Space);
}

/// A field prefix built from the field name and any padding parses, ending
/// exactly where the value begins.
pub proof fn lemma_field_prefix_complete(
    s: Seq<u8>,
    pos: int,
    name: Seq<u8>,
    pad1: Seq<u8>,
    pad2: Seq<u8>,
)
    requires
        match_at(s, pos, name + sep_text(pad1, pad2)),
        all_spaces(pad1),
        all_spaces(pad2),
        pos + name.len() + sep_text(pad1, pad2).len() == s.len() || !is_space(
            s[pos + name.len() + sep_text(pad1, pad2).len()],
        ),
    ensures
        spec_field_prefix(s, pos, name) == Some(
            pos + name.len() + pad1.len() + 1 + pad2.len(),
        ),
{
    lemma_match_split(s, pos, name, sep_text(pad1, pad2));
    lemma_separator_complete(s, pos + name.len(), pad1, pad2);
}

// ---------------------------------------------------------------------------
// Completeness of the numeric values
// ---------------------------------------------------------------------------

/// A nonempty digit text whose value fits parses as exactly that value.
pub proof fn lemma_dec_u32_complete(s: Seq<u8>, pos: int, vtext: Seq<u8>)
    requires
        match_at(s, pos, vtext),
        vtext.len() >= 1,
        all_digits(vtext),
        dec_value(vtext) <= u32::MAX,
        pos + vtext.len() == s.len() || !is_digit(s[pos + vtext.len()]),
    ensures
        spec_dec_u32(s, pos) == Some((dec_value(vtext) as u32, pos + vtext.len())),
        0 <= dec_value(vtext),
{
    lemma_run_over_window(s, pos, vtext, ByteClass::Digit);
    assert(s.subrange(pos, pos + vtext.len()) == vtext);
    lemma_dec_value_nonneg(vtext);
}

/// The value of a digit text is never negative.
pub proof fn lemma_dec_value_nonneg(v: Seq<u8>)
    requires
        all_digits(v),
    ensures
        dec_value(v) >= 0,
    decreases v.len(),
{
    if v.len() > 0 {
        assert(all_digits(v.drop_last())) by {
            assert(forall|i: int| 0 <= i < v.len() - 1 ==> v.drop_last()[i] == v[i]);
        }
        lemma_dec_value_nonneg(v.drop_last());
    }
}

/// The value of a hexadecimal digit text is never negative.
pub proof fn lemma_hex_value_nonneg(v: Seq<u8>)
    requires
        all_hex_digits(v),
    ensures
        hex_value(v) >= 0,
    decreases v.len(),
{
    if v.len() > 0 {
        assert(all_hex_digits(v.drop_last())) by {
            assert(forall|i: int| 0 <= i < v.len() - 1 ==> v.drop_last()[i] == v[i]);
        }
        lemma_hex_value_nonneg(v.drop_last());
    }
}

/// A `0x`- or `0X`-prefixed hexadecimal text whose value fits parses as
/// exactly that value: the prefix is case-insensitive.
pub proof fn lemma_hex_u32_complete(s: Seq<u8>, pos: int, pre: Seq<u8>, digits: Seq<u8>)
    requires
        match_at(s, pos, pre + digits),
        pre == seq![48u8, 120u8] || pre == seq![48u8, 88u8],
        digits.len() >= 1,
        all_hex_digits(digits),
        hex_value(digits) <= u32::MAX,
        pos + 2 + digits.len() == s.len() || !is_hex_digit(s[pos + 2 + digits.len()]),
    ensures
        spec_hex_u32(s, pos) == Some((hex_value(digits) as u32, pos + 2 + digits.len())),
{
    lemma_match_split(s, pos, pre, digits);
    lemma_run_over_window(s, pos + 2, digits, ByteClass::HexDigit);
    assert(s.subrange(pos + 2, pos + 2 + digits.len()) == digits);
    lemma_hex_value_nonneg(digits);
}

// ---------------------------------------------------------------------------
// Completeness of whole field lines
// ---------------------------------------------------------------------------

/// A matched field line decomposes into its name-and-separator, its value
/// text, and its closing line terminator, each matched in place.
pub proof fn lemma_field_line_parts(
    s: Seq<u8>,
    pos: int,
    name: Seq<u8>,
    pad1: Seq<u8>,
    pad2: Seq<u8>,
    vtext: Seq<u8>,
    eol: Seq<u8>,
)
    requires
        match_at(s, pos, line_text(name, pad1, pad2, vtext, eol)),
    ensures
        match_at(s, pos, name + sep_text(pad1, pad2)),
        match_at(s, pos + name.len() + pad1.len() + 1 + pad2.len(), vtext),
        match_at(s, pos + name.len() + pad1.len() + 1 + pad2.len() + vtext.len(), eol),
{
    assert(line_text(name, pad1, pad2, vtext, eol) =~= (name + sep_text(pad1, pad2)) + (vtext
        + eol));
    lemma_match_split(s, pos, name + sep_text(pad1, pad2), vtext + eol);
    lemma_match_split(s, pos + name.len() + pad1.len() + 1 + pad2.len(), vtext, eol);
}

/// The prefix of a matched field line parses up to the start of the value,
/// provided the value text does not begin with horizontal whitespace.
pub proof fn lemma_field_line_prefix(
    s: Seq<u8>,
    pos: int,
    name: Seq<u8>,
    pad1: Seq<u8>,
    pad2: Seq<u8>,
    vtext: Seq<u8>,
    eol: Seq<u8>,
)
    requires
        match_at(s, pos, line_text(name, pad1, pad2, vtext, eol)),
        all_spaces(pad1),
        all_spaces(pad2),
        is_eol(eol),
        vtext.len() > 0 ==> !is_space(vtext[0]),
    ensures
        spec_field_prefix(s, pos, name) == Some(pos + name.len() + pad1.len() + 1 + pad2.len()),
{
    lemma_field_line_parts(s, pos, name, pad1, pad2, vtext, eol);
    let vstart = pos + name.len() + pad1.len() + 1 + pad2.len();
    if vtext.len() > 0 {
        lemma_match_byte(s, vstart, vtext, 0);
    } else {
        lemma_match_byte(s, vstart, eol, 0);
    }
    lemma_field_prefix_complete(s, pos, name, pad1, pad2);
}

/// A matched line terminator parses as a line ending of its own length.
pub proof fn lemma_line_ending_complete(s: Seq<u8>, pos: int, eol: Seq<u8>)
    requires
        is_eol(eol),
        match_at(s, pos, eol),
    ensures
        spec_line_ending(s, pos) == Some(pos + eol.len()),
{
    if eol == seq![13u8, 10u8] {
        lemma_match_byte(s, pos, eol, 0);
        if match_at(s, pos, seq![10u8]) {
            lemma_match_byte(s, pos, seq![10u8], 0);
        }
    }
}

/// A field line holding a nonempty digit text whose value fits decodes to
/// exactly that value.
pub proof fn lemma_field_u32_complete(
    s: Seq<u8>,
    pos: int,
    name: Seq<u8>,
    pad1: Seq<u8>,
    pad2: Seq<u8>,
    vtext: Seq<u8>,
    eol: Seq<u8>,
)
    requires
        match_at(s, pos, line_text(name, pad1, pad2, vtext, eol)),
        all_spaces(pad1),
        all_spaces(pad2),
        is_eol(eol),
        vtext.len() >= 1,
        all_digits(vtext),
        dec_value(vtext) <= u32::MAX,
    ensures
        spec_field_u32(s, pos, name) == Some(
            (dec_value(vtext) as u32, pos + line_text(name, pad1, pad2, vtext, eol).len()),
        ),
{
    lemma_field_line_parts(s, pos, name, pad1, pad2, vtext, eol);
    lemma_field_line_prefix(s, pos, name, pad1, pad2, vtext, eol);
    let vstart = pos + name.len() + pad1.len() + 1 + pad2.len();
    lemma_match_byte(s, vstart + vtext.len(), eol, 0);
    lemma_dec_u32_complete(s, vstart, vtext);
    lemma_line_ending_complete(s, vstart + vtext.len(), eol);
}

/// A field line holding a case-insensitively prefixed hexadecimal text whose
/// value fits decodes to exactly that value.
pub proof fn lemma_field_hex_complete(
    s: Seq<u8>,
    pos: int,
    name: Seq<u8>,
    pad1: Seq<u8>,
    pad2: Seq<u8>,
    pre: Seq<u8>,
    digits: Seq<u8>,
    eol: Seq<u8>,
)
    requires
        match_at(s, pos, line_text(name, pad1, pad2, pre + digits, eol)),
        all_spaces(pad1),
        all_spaces(pad2),
        is_eol(eol),
        pre == seq![48u8, 120u8] || pre == seq![48u8, 88u8],
        digits.len() >= 1,
        all_hex_digits(digits),
        hex_value(digits) <= u32::MAX,
    ensures
        spec_field_hex(s, pos, name) == Some(
            (hex_value(digits) as u32, pos + line_text(name, pad1, pad2, pre + digits, eol).len()),
        ),
{
    let vtext = pre + digits;
    lemma_field_line_parts(s, pos, name, pad1, pad2, vtext, eol);
    lemma_field_line_prefix(s, pos, name, pad1, pad2, vtext, eol);
    let vstart = pos + name.len() + pad1.len() + 1 + pad2.len();
    lemma_match_byte(s, vstart + vtext.len(), eol, 0);
    lemma_hex_u32_complete(s, vstart, pre, digits);
    lemma_line_ending_complete(s, vstart + vtext.len(), eol);
}

/// A field line holding `yes` decodes to true, and one holding `no` decodes
/// to false.
pub proof fn lemma_field_bool_complete(
    s: Seq<u8>,
    pos: int,
    name: Seq<u8>,
    pad1: Seq<u8>,
    pad2: Seq<u8>,
    vtext: Seq<u8>,
    eol: Seq<u8>,
)
    requires
        match_at(s, pos, line_text(name, pad1, pad2, vtext, eol)),
        all_spaces(pad1),
        all_spaces(pad2),
        is_eol(eol),
        vtext == seq![121u8, 101u8, 115u8] || vtext == seq![110u8, 111u8],
    ensures
        spec_field_bool(s, pos, name) == Some(
            (
                vtext == seq![121u8, 101u8, 115u8],
                pos + line_text(name, pad1, pad2, vtext, eol).len(),
            ),
        ),
{
    lemma_field_line_parts(s, pos, name, pad1, pad2, vtext, eol);
    lemma_field_line_prefix(s, pos, name, pad1, pad2, vtext, eol);
    let vstart = pos + name.len() + pad1.len() + 1 + pad2.len();
    lemma_match_byte(s, vstart + vtext.len(), eol, 0);
    if vtext == seq![121u8, 101u8, 115u8] {
        lemma_boolean_exact(s, vstart);
    } else {
        assert(!match_at(s, vstart, seq![121u8, 101u8, 115u8])) by {
            if match_at(s, vstart, seq![121u8, 101u8, 115u8]) {
                lemma_match_byte(s, vstart, seq![121u8, 101u8, 115u8], 0);
                lemma_match_byte(s, vstart, vtext, 0);
            }
        }
        lemma_boolean_exact(s, vstart);
    }
    lemma_line_ending_complete(s, vstart + vtext.len(), eol);
}

// ---------------------------------------------------------------------------
// Token lists: order and text are preserved
// ---------------------------------------------------------------------------

/// A list token: nonempty, of lowercase letters, digits and underscores.
pub open spec fn valid_token(t: Seq<u8>) -> bool {
    t.len() >= 1 && forall|i: int| 0 <= i < t.len() ==> is_token_byte(t[i])
}

/// The text of a token list: the tokens joined by single spaces.
pub open spec fn join_tokens(toks: Seq<Seq<u8>>) -> Seq<u8>
    decreases toks.len(),
{
    if toks.len() == 0 {
        Seq::empty()
    } else if toks.len() == 1 {
        toks[0]
    } else {
        toks[0] + seq![32u8] + join_tokens(toks.skip(1))
    }
}

/// The text of a token list of valid tokens begins with the first token's
/// first byte.
pub proof fn lemma_join_tokens_head(toks: Seq<Seq<u8>>)
    requires
        toks.len() >= 1,
        forall|i: int| 0 <= i < toks.len() ==> valid_token(#[trigger] toks[i]),
    ensures
        join_tokens(toks).len() >= toks[0].len(),
        join_tokens(toks)[0] == toks[0][0],
{
    if toks.len() > 1 {
        assert((toks[0] + seq![32u8] + join_tokens(toks.skip(1)))[0] == toks[0][0]);
    }
}

/// Parsing the joined text of any valid tokens yields exactly those tokens,
/// in order and verbatim, and consumes exactly the joined text. The position
/// just past it must not extend the list: not a token byte, and not a space.
pub proof fn lemma_token_list_complete(s: Seq<u8>, pos: int, toks: Seq<Seq<u8>>)
    requires
        forall|i: int| 0 <= i < toks.len() ==> valid_token(#[trigger] toks[i]),
        match_at(s, pos, join_tokens(toks)),
        pos + join_tokens(toks).len() == s.len() || (!is_token_byte(
            s[pos + join_tokens(toks).len()],
        ) && s[pos + join_tokens(toks).len()] != 32),
    ensures
        spec_token_list(s, pos) == (toks, pos + join_tokens(toks).len()),
    decreases toks.len(),
{
    let e = pos + join_tokens(toks).len();
    if toks.len() == 0 {
        assert(toks =~= Seq::<Seq<u8>>::empty());
    } else if toks.len() == 1 {
        let t0 = toks[0];
        lemma_match_byte(s, pos, t0, 0);
        lemma_run_over_window(s, pos, t0, ByteClass::TokenByte);
        assert(s.subrange(pos, pos + t0.len()) == t0);
        assert(seq![t0] =~= toks);
    } else {
        let t0 = toks[0];
        let rest = toks.skip(1);
        let jrest = join_tokens(rest);
        assert(join_tokens(toks) =~= t0 + (seq![32u8] + jrest));
        lemma_match_split(s, pos, t0, seq![32u8] + jrest);
        let m = pos + t0.len();
        lemma_match_split(s, m, seq![32u8], jrest);
        lemma_match_byte(s, pos, t0, 0);
        lemma_match_byte(s, m, seq![32u8], 0);
        lemma_run_over_window(s, pos, t0, ByteClass::TokenByte);
        assert(s.subrange(pos, pos + t0.len()) == t0);
        lemma_join_tokens_head(rest);
        lemma_match_byte(s, m + 1, jrest, 0);
        assert(rest[0][0] == s[m + 1]);
        lemma_token_list_complete(s, m + 1, rest);
        assert(seq![t0] + rest =~= toks);
    }
}

/// A field line holding the joined text of any valid tokens decodes to
/// exactly those tokens, in order and verbatim; an empty value text decodes
/// to zero tokens.
pub proof fn lemma_field_list_complete(
    s: Seq<u8>,
    pos: int,
    name: Seq<u8>,
    pad1: Seq<u8>,
    pad2: Seq<u8>,
    toks: Seq<Seq<u8>>,
    eol: Seq<u8>,
)
    requires
        match_at(s, pos, line_text(name, pad1, pad2, join_tokens(toks), eol)),
        all_spaces(pad1),
        all_spaces(pad2),
        is_eol(eol),
        forall|i: int| 0 <= i < toks.len() ==> valid_token(#[trigger] toks[i]),
    ensures
        spec_field_list(s, pos, name) == Some(
            (toks, pos + line_text(name, pad1, pad2, join_tokens(toks), eol).len()),
        ),
{
    let vtext = join_tokens(toks);
    lemma_field_line_parts(s, pos, name, pad1, pad2, vtext, eol);
    if toks.len() >= 1 {
        lemma_join_tokens_head(toks);
    }
    lemma_field_line_prefix(s, pos, name, pad1, pad2, vtext, eol);
    let vstart = pos + name.len() + pad1.len() + 1 + pad2.len();
    lemma_match_byte(s, vstart + vtext.len(), eol, 0);
    lemma_token_list_complete(s, vstart, toks);
    lemma_line_ending_complete(s, vstart + vtext.len(), eol);
}

// ---------------------------------------------------------------------------
// The remaining value kinds
// ---------------------------------------------------------------------------

/// Every byte is an ASCII letter.
pub open spec fn all_alpha(v: Seq<u8>) -> bool {
    forall|i: int| 0 <= i < v.len() ==> is_alpha(v[i])
}

/// Every byte is an ASCII letter or digit.
pub open spec fn all_alnum(v: Seq<u8>) -> bool {
    forall|i: int| 0 <= i < v.len() ==> is_alnum(v[i])
}

/// No byte is a line break byte.
pub open spec fn no_line_break(v: Seq<u8>) -> bool {
    forall|i: int| 0 <= i < v.len() ==> is_line_byte(v[i])
}

/// A field line holding a nonempty text of ASCII letters decodes to exactly
/// that text.
pub proof fn lemma_field_alpha_complete(
    s: Seq<u8>,
    pos: int,
    name: Seq<u8>,
    pad1: Seq<u8>,
    pad2: Seq<u8>,
    vtext: Seq<u8>,
    eol: Seq<u8>,
)
    requires
        match_at(s, pos, line_text(name, pad1, pad2, vtext, eol)),
        all_spaces(pad1),
        all_spaces(pad2),
        is_eol(eol),
        vtext.len() >= 1,
        all_alpha(vtext),
    ensures
        spec_field_alpha(s, pos, name) == Some(
            (vtext, pos + line_text(name, pad1, pad2, vtext, eol).len()),
        ),
{
    lemma_field_line_parts(s, pos, name, pad1, pad2, vtext, eol);
    lemma_field_line_prefix(s, pos, name, pad1, pad2, vtext, eol);
    let vstart = pos + name.len() + pad1.len() + 1 + pad2.len();
    lemma_match_byte(s, vstart + vtext.len(), eol, 0);
    lemma_run_over_window(s, vstart, vtext, ByteClass::Alpha);
    assert(s.subrange(vstart, vstart + vtext.len()) == vtext);
    lemma_line_ending_complete(s, vstart + vtext.len(), eol);
}

/// A field line holding any text free of line break bytes decodes to exactly
/// that text, verbatim, empty or not.
pub proof fn lemma_field_line_complete(
    s: Seq<u8>,
    pos: int,
    name: Seq<u8>,
    pad1: Seq<u8>,
    pad2: Seq<u8>,
    vtext: Seq<u8>,
    eol: Seq<u8>,
)
    requires
        match_at(s, pos, line_text(name, pad1, pad2, vtext, eol)),
        all_spaces(pad1),
        all_spaces(pad2),
        is_eol(eol),
        no_line_break(vtext),
        vtext.len() > 0 ==> !is_space(vtext[0]),
    ensures
        spec_field_line(s, pos, name) == Some(
            (vtext, pos + line_text(name, pad1, pad2, vtext, eol).len()),
        ),
{
    lemma_field_line_parts(s, pos, name, pad1, pad2, vtext, eol);
    lemma_field_line_prefix(s, pos, name, pad1, pad2, vtext, eol);
    let vstart = pos + name.len() + pad1.len() + 1 + pad2.len();
    lemma_match_byte(s, vstart + vtext.len(), eol, 0);
    lemma_run_over_window(s, vstart, vtext, ByteClass::LineByte);
    assert(s.subrange(vstart, vstart + vtext.len()) == vtext);
    lemma_line_ending_complete(s, vstart + vtext.len(), eol);
}

/// A field line holding a possibly empty alphanumeric token decodes to the
/// token when one is present and to an absent value when the line break
/// follows the separator at once.
pub proof fn lemma_field_opt_alnum_complete(
    s: Seq<u8>,
    pos: int,
    name: Seq<u8>,
    pad1: Seq<u8>,
    pad2: Seq<u8>,
    vtext: Seq<u8>,
    eol: Seq<u8>,
)
    requires
        match_at(s, pos, line_text(name, pad1, pad2, vtext, eol)),
        all_spaces(pad1),
        all_spaces(pad2),
        is_eol(eol),
        all_alnum(vtext),
    ensures
        spec_field_opt_alnum(s, pos, name) == Some(
            (
                if vtext.len() == 0 {
                    None
                } else {
                    Some(vtext)
                },
                pos + line_text(name, pad1, pad2, vtext, eol).len(),
            ),
        ),
{
    lemma_field_line_parts(s, pos, name, pad1, pad2, vtext, eol);
    lemma_field_line_prefix(s, pos, name, pad1, pad2, vtext, eol);
    let vstart = pos + name.len() + pad1.len() + 1 + pad2.len();
    lemma_match_byte(s, vstart + vtext.len(), eol, 0);
    lemma_run_over_window(s, vstart, vtext, ByteClass::Alnum);
    assert(s.subrange(vstart, vstart + vtext.len()) == vtext);
    lemma_line_ending_complete(s, vstart + vtext.len(), eol);
}

/// A field line holding a plain decimal fraction — digits, a dot, digits —
/// decodes to exactly that text.
pub proof fn lemma_field_float_complete(
    s: Seq<u8>,
    pos: int,
    name: Seq<u8>,
    pad1: Seq<u8>,
    pad2: Seq<u8>,
    whole: Seq<u8>,
    frac: Seq<u8>,
    eol: Seq<u8>,
)
    requires
        match_at(s, pos, line_text(name, pad1, pad2, whole + seq![46u8] + frac, eol)),
        all_spaces(pad1),
        all_spaces(pad2),
        is_eol(eol),
        whole.len() >= 1,
        frac.len() >= 1,
        all_digits(whole),
        all_digits(frac),
    ensures
        spec_field_float(s, pos, name) == Some(
            (
                whole + seq![46u8] + frac,
                pos + line_text(name, pad1, pad2, whole + seq![46u8] + frac, eol).len(),
            ),
        ),
{
    let vtext = whole + seq![46u8] + frac;
    lemma_field_line_parts(s, pos, name, pad1, pad2, vtext, eol);
    assert(vtext[0] == whole[0]);
    lemma_field_line_prefix(s, pos, name, pad1, pad2, vtext, eol);
    let vstart = pos + name.len() + pad1.len() + 1 + pad2.len();
    let vend = vstart + vtext.len();
    lemma_match_byte(s, vend, eol, 0);
    assert(vtext =~= whole + (seq![46u8] + frac));
    lemma_match_split(s, vstart, whole, seq![46u8] + frac);
    let d = vstart + whole.len();
    lemma_match_split(s, d, seq![46u8], frac);
    lemma_match_byte(s, vstart, whole, 0);
    lemma_match_byte(s, d, seq![46u8], 0);
    lemma_run_over_window(s, vstart, whole, ByteClass::Digit);
    lemma_run_over_window(s, d + 1, frac, ByteClass::Digit);
    assert(!match_at(s, vstart, seq![43u8])) by {
        if match_at(s, vstart, seq![43u8]) {
            lemma_match_byte(s, vstart, seq![43u8], 0);
        }
    }
    assert(!match_at(s, vstart, seq![45u8])) by {
        if match_at(s, vstart, seq![45u8]) {
            lemma_match_byte(s, vstart, seq![45u8], 0);
        }
    }
    assert(match_at(s, d, seq![46u8]));
    assert(s.subrange(vstart, vend) =~= vtext);
    lemma_line_ending_complete(s, vend, eol);
}

/// A field line holding any decimal floating-point text of the general
/// form — an optional sign, digits, an optional fraction (whose digits may
/// be absent), and an optional exponent with its own optional sign — decodes
/// to exactly that text.
#[verifier::rlimit(60)]
pub proof fn lemma_field_float_general(
    s: Seq<u8>,
    pos: int,
    name: Seq<u8>,
    pad1: Seq<u8>,
    pad2: Seq<u8>,
    sign: Seq<u8>,
    whole: Seq<u8>,
    has_frac: bool,
    frac: Seq<u8>,
    has_exp: bool,
    emark: Seq<u8>,
    esign: Seq<u8>,
    edigits: Seq<u8>,
    vtext: Seq<u8>,
    eol: Seq<u8>,
)
    requires
        vtext == sign + whole + (if has_frac {
            seq![46u8] + frac
        } else {
            Seq::<u8>::empty()
        }) + (if has_exp {
            emark + esign + edigits
        } else {
            Seq::<u8>::empty()
        }),
        match_at(s, pos, line_text(name, pad1, pad2, vtext, eol)),
        all_spaces(pad1),
        all_spaces(pad2),
        is_eol(eol),
        sign == Seq::<u8>::empty() || sign == seq![43u8] || sign == seq![45u8],
        whole.len() >= 1,
        all_digits(whole),
        all_digits(frac),
        !has_frac ==> frac.len() == 0,
        has_exp ==> emark == seq![101u8] || emark == seq![69u8],
        has_exp ==> esign == Seq::<u8>::empty() || esign == seq![43u8] || esign == seq![45u8],
        has_exp ==> edigits.len() >= 1 && all_digits(edigits),
        !has_exp ==> emark.len() == 0 && esign.len() == 0 && edigits.len() == 0,
    ensures
        spec_field_float(s, pos, name) == Some(
            (vtext, pos + line_text(name, pad1, pad2, vtext, eol).len()),
        ),
{
    let fracpart: Seq<u8> = if has_frac {
        seq![46u8] + frac
    } else {
        Seq::<u8>::empty()
    };
    let exppart: Seq<u8> = if has_exp {
        emark + esign + edigits
    } else {
        Seq::<u8>::empty()
    };
    lemma_field_line_parts(s, pos, name, pad1, pad2, vtext, eol);
    assert(vtext[0] == sign.add(whole)[0]);
    lemma_field_line_prefix(s, pos, name, pad1, pad2, vtext, eol);
    let vstart = pos + name.len() + pad1.len() + 1 + pad2.len();
    let vend = vstart + vtext.len();
    lemma_match_byte(s, vend, eol, 0);
    assert(vtext =~= sign + (whole + (fracpart + exppart)));
    lemma_match_split(s, vstart, sign, whole + (fracpart + exppart));
    let i = vstart + sign.len();
    lemma_match_split(s, i, whole, fracpart + exppart);
    let dpos = i + whole.len();
    lemma_match_split(s, dpos, fracpart, exppart);
    let j = dpos + fracpart.len();
    lemma_match_byte(s, vstart, vtext, 0);
    lemma_match_byte(s, i, whole, 0);
    if sign.len() == 0 {
        assert(!match_at(s, vstart, seq![43u8]) && !match_at(s, vstart, seq![45u8])) by {
            if match_at(s, vstart, seq![43u8]) {
                lemma_match_byte(s, vstart, seq![43u8], 0);
            }
            if match_at(s, vstart, seq![45u8]) {
                lemma_match_byte(s, vstart, seq![45u8], 0);
            }
        }
    } else {
        lemma_match_byte(s, vstart, sign, 0);
    }
    if has_frac {
        assert(fracpart =~= seq![46u8] + frac);
        lemma_match_split(s, dpos, seq![46u8], frac);
        lemma_match_byte(s, dpos, seq![46u8], 0);
    } else if has_exp {
        lemma_match_byte(s, j, exppart, 0);
        assert(s[dpos] == emark[0]);
    }
    if has_exp {
        assert(exppart =~= emark + (esign + edigits));
        lemma_match_split(s, j, emark, esign + edigits);
        lemma_match_split(s, j + 1, esign, edigits);
        lemma_match_byte(s, j, emark, 0);
        let k = j + 1 + esign.len();
        lemma_match_byte(s, k, edigits, 0);
        if esign.len() == 0 {
            assert(!match_at(s, j + 1, seq![43u8]) && !match_at(s, j + 1, seq![45u8])) by {
                if match_at(s, j + 1, seq![43u8]) {
                    lemma_match_byte(s, j + 1, seq![43u8], 0);
                }
                if match_at(s, j + 1, seq![45u8]) {
                    lemma_match_byte(s, j + 1, seq![45u8], 0);
                }
            }
        } else {
            lemma_match_byte(s, j + 1, esign, 0);
        }
        lemma_run_over_window(s, i, whole, ByteClass::Digit);
        if has_frac {
            lemma_run_over_window(s, dpos + 1, frac, ByteClass::Digit);
        } else {
            assert(!match_at(s, dpos, seq![46u8])) by {
                if match_at(s, dpos, seq![46u8]) {
                    lemma_match_byte(s, dpos, seq![46u8], 0);
                }
            }
        }
        lemma_run_over_window(s, k, edigits, ByteClass::Digit);
    } else {
        lemma_run_over_window(s, i, whole, ByteClass::Digit);
        if has_frac {
            lemma_run_over_window(s, dpos + 1, frac, ByteClass::Digit);
        } else {
            assert(!match_at(s, dpos, seq![46u8])) by {
                if match_at(s, dpos, seq![46u8]) {
                    lemma_match_byte(s, dpos, seq![46u8], 0);
                }
            }
        }
    }
    assert(s.subrange(vstart, vend) =~= vtext);
    lemma_line_ending_complete(s, vend, eol);
}

// ---------------------------------------------------------------------------
// Cache size: the kilobyte count is scaled to bytes
// ---------------------------------------------------------------------------

/// The text of a cache size line: the name, a separator, a kilobyte count,
/// the verbatim suffix ` KB`, a line terminator.
pub open spec fn cache_line_text(
    name: Seq<u8>,
    pad1: Seq<u8>,
    pad2: Seq<u8>,
    kbtext: Seq<u8>,
    eol: Seq<u8>,
) -> Seq<u8> {
    name + sep_text(pad1, pad2) + kbtext + seq![32u8, 75u8, 66u8] + eol
}

/// A cache size line holding a kilobyte count decodes to that count times
/// 1024, whenever the product fits.
pub proof fn lemma_field_cache_complete(
    s: Seq<u8>,
    pos: int,
    name: Seq<u8>,
    pad1: Seq<u8>,
    pad2: Seq<u8>,
    kbtext: Seq<u8>,
    eol: Seq<u8>,
)
    requires
        match_at(s, pos, cache_line_text(name, pad1, pad2, kbtext, eol)),
        all_spaces(pad1),
        all_spaces(pad2),
        is_eol(eol),
        kbtext.len() >= 1,
        all_digits(kbtext),
        dec_value(kbtext) * 1024 <= u32::MAX,
    ensures
        spec_field_cache_size(s, pos, name) == Some(
            (
                (dec_value(kbtext) * 1024) as u32,
                pos + cache_line_text(name, pad1, pad2, kbtext, eol).len(),
            ),
        ),
{
    let whole = cache_line_text(name, pad1, pad2, kbtext, eol);
    assert(whole =~= (name + sep_text(pad1, pad2)) + (kbtext + (seq![32u8, 75u8, 66u8] + eol)));
    lemma_match_split(
        s,
        pos,
        name + sep_text(pad1, pad2),
        kbtext + (seq![32u8, 75u8, 66u8] + eol),
    );
    let vstart = pos + name.len() + pad1.len() + 1 + pad2.len();
    lemma_match_split(s, vstart, kbtext, seq![32u8, 75u8, 66u8] + eol);
    let kend = vstart + kbtext.len();
    lemma_match_split(s, kend, seq![32u8, 75u8, 66u8], eol);
    lemma_match_byte(s, vstart, kbtext, 0);
    lemma_field_prefix_complete(s, pos, name, pad1, pad2);
    lemma_match_byte(s, kend, seq![32u8, 75u8, 66u8], 0);
    lemma_dec_u32_complete(s, vstart, kbtext);
    lemma_line_ending_complete(s, kend + 3, eol);
    assert(dec_value(kbtext) <= u32::MAX);
}

// ---------------------------------------------------------------------------
// Address sizes: the two bit counts, each with its verbatim suffix
// ---------------------------------------------------------------------------

/// The text of an address widths value: the physical count and suffix, a
/// comma and space, the virtual count and suffix.
pub open spec fn address_text(ptext: Seq<u8>, vtext: Seq<u8>) -> Seq<u8> {
    ptext + lit_bits_physical() + seq![44u8, 32u8] + vtext + lit_bits_virtual()
}

/// An address sizes line built from two digit texts decodes to exactly their
/// two values.
pub proof fn lemma_field_address_complete(
    s: Seq<u8>,
    pos: int,
    name: Seq<u8>,
    pad1: Seq<u8>,
    pad2: Seq<u8>,
    ptext: Seq<u8>,
    vtext: Seq<u8>,
    eol: Seq<u8>,
)
    requires
        match_at(s, pos, line_text(name, pad1, pad2, address_text(ptext, vtext), eol)),
        all_spaces(pad1),
        all_spaces(pad2),
        is_eol(eol),
        ptext.len() >= 1,
        vtext.len() >= 1,
        all_digits(ptext),
        all_digits(vtext),
        dec_value(ptext) <= u32::MAX,
        dec_value(vtext) <= u32::MAX,
    ensures
        spec_field_address(s, pos, name) == Some(
            (
                (dec_value(ptext) as u32, dec_value(vtext) as u32),
                pos + line_text(name, pad1, pad2, address_text(ptext, vtext), eol).len(),
            ),
        ),
{
    let av = address_text(ptext, vtext);
    lemma_field_line_parts(s, pos, name, pad1, pad2, av, eol);
    assert(av[0] == ptext[0]);
    lemma_field_line_prefix(s, pos, name, pad1, pad2, av, eol);
    let vstart = pos + name.len() + pad1.len() + 1 + pad2.len();
    let aend = vstart + av.len();
    lemma_match_byte(s, aend, eol, 0);
    assert(av =~= ptext + (lit_bits_physical() + seq![44u8, 32u8] + vtext + lit_bits_virtual()));
    lemma_match_split(
        s,
        vstart,
        ptext,
        lit_bits_physical() + seq![44u8, 32u8] + vtext + lit_bits_virtual(),
    );
    let i = vstart + ptext.len();
    assert(lit_bits_physical() + seq![44u8, 32u8] + vtext + lit_bits_virtual()
        =~= lit_bits_physical() + (seq![44u8, 32u8] + vtext + lit_bits_virtual()));
    lemma_match_split(s, i, lit_bits_physical(), seq![44u8, 32u8] + vtext + lit_bits_virtual());
    let j = i + 14;
    assert(seq![44u8, 32u8] + vtext + lit_bits_virtual() =~= seq![44u8, 32u8] + (vtext
        + lit_bits_virtual()));
    lemma_match_split(s, j, seq![44u8, 32u8], vtext + lit_bits_virtual());
    let k0 = j + 2;
    lemma_match_split(s, k0, vtext, lit_bits_virtual());
    let k = k0 + vtext.len();
    lemma_match_byte(s, i, lit_bits_physical(), 0);
    lemma_dec_u32_complete(s, vstart, ptext);
    lemma_match_byte(s, k, lit_bits_virtual(), 0);
    lemma_dec_u32_complete(s, k0, vtext);
    lemma_line_ending_complete(s, aend, eol);
}

// ---------------------------------------------------------------------------
// The boolean decoder, exactly
// ---------------------------------------------------------------------------

/// The boolean decoder accepts exactly the literals `yes` and `no`, decoding
/// them to true and false; at any position where neither literal stands, it
/// rejects.
pub proof fn lemma_boolean_exact(s: Seq<u8>, pos: int)
    ensures
        match_at(s, pos, seq![121u8, 101u8, 115u8]) ==> spec_boolean(s, pos) == Some(
            (true, pos + 3),
        ),
        !match_at(s, pos, seq![121u8, 101u8, 115u8]) && match_at(s, pos, seq![110u8, 111u8])
            ==> spec_boolean(s, pos) == Some((false, pos + 2)),
        !match_at(s, pos, seq![121u8, 101u8, 115u8]) && !match_at(s, pos, seq![110u8, 111u8])
            ==> spec_boolean(s, pos) is None,
{
}

// ---------------------------------------------------------------------------
// A whole record, constructed field by field, parses to its decoded values
// ---------------------------------------------------------------------------

/// The raw material of one record: for each of the twenty-seven field
/// lines, in the fixed order, its own padding pair around the colon (entry
/// `k` of `pads` pads line `k`), the record's line terminator, and the value
/// text of every field.
pub struct RecordDesc {
    pub pads: Seq<(Seq<u8>, Seq<u8>)>,
    pub eol: Seq<u8>,
    pub processor: Seq<u8>,
    pub vendor_id: Seq<u8>,
    pub cpu_family: Seq<u8>,
    pub model: Seq<u8>,
    pub model_name: Seq<u8>,
    pub stepping: Seq<u8>,
    pub microcode_pre: Seq<u8>,
    pub microcode: Seq<u8>,
    pub cpu_mhz_whole: Seq<u8>,
    pub cpu_mhz_frac: Seq<u8>,
    pub cache_kb: Seq<u8>,
    pub physical_id: Seq<u8>,
    pub siblings: Seq<u8>,
    pub core_id: Seq<u8>,
    pub cpu_cores: Seq<u8>,
    pub apicid: Seq<u8>,
    pub initial_apicid: Seq<u8>,
    pub fpu: Seq<u8>,
    pub fpu_exception: Seq<u8>,
    pub cpuid_level: Seq<u8>,
    pub wp: Seq<u8>,
    pub flags: Seq<Seq<u8>>,
    pub vmx_flags: Seq<Seq<u8>>,
    pub bugs: Seq<Seq<u8>>,
    pub bogomips_whole: Seq<u8>,
    pub bogomips_frac: Seq<u8>,
    pub clflush_size: Seq<u8>,
    pub cache_alignment: Seq<u8>,
    pub address_physical: Seq<u8>,
    pub address_virtual: Seq<u8>,
    pub power_management: Seq<u8>,
}

/// Every padding is horizontal whitespace, the line terminator is one, and
/// every value text is valid for its field's decoder.
#[verifier::opaque]
pub open spec fn desc_valid(d: RecordDesc) -> bool {
    &&& d.pads.len() == 27
    &&& (forall|i: int| 0 <= i < 27 ==> all_spaces((#[trigger] d.pads[i]).0) && all_spaces(d.pads[i].1))
    &&& is_eol(d.eol)
    &&& d.processor.len() >= 1
    &&& all_digits(d.processor)
    &&& dec_value(d.processor) <= u32::MAX
    &&& d.vendor_id.len() >= 1
    &&& all_alpha(d.vendor_id)
    &&& d.cpu_family.len() >= 1
    &&& all_digits(d.cpu_family)
    &&& dec_value(d.cpu_family) <= u32::MAX
    &&& d.model.len() >= 1
    &&& all_digits(d.model)
    &&& dec_value(d.model) <= u32::MAX
    &&& no_line_break(d.model_name)
    &&& (d.model_name.len() > 0 ==> !is_space(d.model_name[0]))
    &&& d.stepping.len() >= 1
    &&& all_digits(d.stepping)
    &&& dec_value(d.stepping) <= u32::MAX
    &&& (d.microcode_pre == seq![48u8, 120u8] || d.microcode_pre == seq![48u8, 88u8])
    &&& d.microcode.len() >= 1
    &&& all_hex_digits(d.microcode)
    &&& hex_value(d.microcode) <= u32::MAX
    &&& d.cpu_mhz_whole.len() >= 1
    &&& d.cpu_mhz_frac.len() >= 1
    &&& all_digits(d.cpu_mhz_whole)
    &&& all_digits(d.cpu_mhz_frac)
    &&& d.cache_kb.len() >= 1
    &&& all_digits(d.cache_kb)
    &&& dec_value(d.cache_kb) * 1024 <= u32::MAX
    &&& d.physical_id.len() >= 1
    &&& all_digits(d.physical_id)
    &&& dec_value(d.physical_id) <= u32::MAX
    &&& d.siblings.len() >= 1
    &&& all_digits(d.siblings)
    &&& dec_value(d.siblings) <= u32::MAX
    &&& d.core_id.len() >= 1
    &&& all_digits(d.core_id)
    &&& dec_value(d.core_id) <= u32::MAX
    &&& d.cpu_cores.len() >= 1
    &&& all_digits(d.cpu_cores)
    &&& dec_value(d.cpu_cores) <= u32::MAX
    &&& d.apicid.len() >= 1
    &&& all_digits(d.apicid)
    &&& dec_value(d.apicid) <= u32::MAX
    &&& d.initial_apicid.len() >= 1
    &&& all_digits(d.initial_apicid)
    &&& dec_value(d.initial_apicid) <= u32::MAX
    &&& (d.fpu == seq![121u8, 101u8, 115u8] || d.fpu == seq![110u8, 111u8])
    &&& (d.fpu_exception == seq![121u8, 101u8, 115u8] || d.fpu_exception == seq![110u8, 111u8])
    &&& d.cpuid_level.len() >= 1
    &&& all_digits(d.cpuid_level)
    &&& dec_value(d.cpuid_level) <= u32::MAX
    &&& (d.wp == seq![121u8, 101u8, 115u8] || d.wp == seq![110u8, 111u8])
    &&& (forall|i: int| 0 <= i < d.flags.len() ==> valid_token(#[trigger] d.flags[i]))
    &&& (forall|i: int| 0 <= i < d.vmx_flags.len() ==> valid_token(#[trigger] d.vmx_flags[i]))
    &&& (forall|i: int| 0 <= i < d.bugs.len() ==> valid_token(#[trigger] d.bugs[i]))
    &&& d.bogomips_whole.len() >= 1
    &&& d.bogomips_frac.len() >= 1
    &&& all_digits(d.bogomips_whole)
    &&& all_digits(d.bogomips_frac)
    &&& d.clflush_size.len() >= 1
    &&& all_digits(d.clflush_size)
    &&& dec_value(d.clflush_size) <= u32::MAX
    &&& d.cache_alignment.len() >= 1
    &&& all_digits(d.cache_alignment)
    &&& dec_value(d.cache_alignment) <= u32::MAX
    &&& d.address_physical.len() >= 1
    &&& all_digits(d.address_physical)
    &&& dec_value(d.address_physical) <= u32::MAX
    &&& d.address_virtual.len() >= 1
    &&& all_digits(d.address_virtual)
    &&& dec_value(d.address_virtual) <= u32::MAX
    &&& all_alnum(d.power_management)
}

/// The text of the back half of the record: its last fourteen field lines.
#[verifier::opaque]
pub open spec fn desc_tail_text(d: RecordDesc) -> Seq<u8> {
    line_text(name_apicid(), d.pads[13].0, d.pads[13].1, d.apicid, d.eol) + (line_text(name_initial_apicid(), d.pads[14].0, d.pads[14].1, d.initial_apicid, d.eol) + (line_text(name_fpu(), d.pads[15].0, d.pads[15].1, d.fpu, d.eol) + (line_text(name_fpu_exception(), d.pads[16].0, d.pads[16].1, d.fpu_exception, d.eol) + (line_text(name_cpuid_level(), d.pads[17].0, d.pads[17].1, d.cpuid_level, d.eol) + (line_text(name_wp(), d.pads[18].0, d.pads[18].1, d.wp, d.eol) + (line_text(name_flags(), d.pads[19].0, d.pads[19].1, join_tokens(d.flags), d.eol) + (line_text(name_vmx_flags(), d.pads[20].0, d.pads[20].1, join_tokens(d.vmx_flags), d.eol) + (line_text(name_bugs(), d.pads[21].0, d.pads[21].1, join_tokens(d.bugs), d.eol) + (line_text(name_bogomips(), d.pads[22].0, d.pads[22].1, d.bogomips_whole + seq![46u8] + d.bogomips_frac, d.eol) + (line_text(name_clflush_size(), d.pads[23].0, d.pads[23].1, d.clflush_size, d.eol) + (line_text(name_cache_alignment(), d.pads[24].0, d.pads[24].1, d.cache_alignment, d.eol) + (line_text(name_address_sizes(), d.pads[25].0, d.pads[25].1, address_text(d.address_physical, d.address_virtual), d.eol) + (line_text(name_power_management(), d.pads[26].0, d.pads[26].1, d.power_management, d.eol))))))))))))))
}

/// The text of the whole record: its twenty-seven field lines in order.
#[verifier::opaque]
pub open spec fn desc_text(d: RecordDesc) -> Seq<u8> {
    line_text(name_processor(), d.pads[0].0, d.pads[0].1, d.processor, d.eol) + (line_text(name_vendor_id(), d.pads[1].0, d.pads[1].1, d.vendor_id, d.eol) + (line_text(name_cpu_family(), d.pads[2].0, d.pads[2].1, d.cpu_family, d.eol) + (line_text(name_model(), d.pads[3].0, d.pads[3].1, d.model, d.eol) + (line_text(name_model_name(), d.pads[4].0, d.pads[4].1, d.model_name, d.eol) + (line_text(name_stepping(), d.pads[5].0, d.pads[5].1, d.stepping, d.eol) + (line_text(name_microcode(), d.pads[6].0, d.pads[6].1, d.microcode_pre + d.microcode, d.eol) + (line_text(name_cpu_mhz(), d.pads[7].0, d.pads[7].1, d.cpu_mhz_whole + seq![46u8] + d.cpu_mhz_frac, d.eol) + (cache_line_text(name_cache_size(), d.pads[8].0, d.pads[8].1, d.cache_kb, d.eol) + (line_text(name_physical_id(), d.pads[9].0, d.pads[9].1, d.physical_id, d.eol) + (line_text(name_siblings(), d.pads[10].0, d.pads[10].1, d.siblings, d.eol) + (line_text(name_core_id(), d.pads[11].0, d.pads[11].1, d.core_id, d.eol) + (line_text(name_cpu_cores(), d.pads[12].0, d.pads[12].1, d.cpu_cores, d.eol) + (desc_tail_text(d))))))))))))))
}

/// What the back half of the record decodes to, field by field.
#[verifier::opaque]
pub open spec fn desc_cpu_tail(d: RecordDesc) -> CpuTailV {
    CpuTailV {
        apicid: dec_value(d.apicid) as u32,
        initial_apicid: dec_value(d.initial_apicid) as u32,
        fpu: d.fpu == seq![121u8, 101u8, 115u8],
        fpu_exception: d.fpu_exception == seq![121u8, 101u8, 115u8],
        cpuid_level: dec_value(d.cpuid_level) as u32,
        wp: d.wp == seq![121u8, 101u8, 115u8],
        flags: d.flags,
        vmx_flags: d.vmx_flags,
        bugs: d.bugs,
        bogomips: d.bogomips_whole + seq![46u8] + d.bogomips_frac,
        clflush_size: dec_value(d.clflush_size) as u32,
        cache_alignment: dec_value(d.cache_alignment) as u32,
        address_sizes: AddressSizes {
            physical_size: dec_value(d.address_physical) as u32,
            virtual_size: dec_value(d.address_virtual) as u32,
        },
        power_management: if d.power_management.len() == 0 {
            None
        } else {
            Some(d.power_management)
        },
    }
}

/// What the record decodes to, field by field.
#[verifier::opaque]
pub open spec fn desc_cpu(d: RecordDesc) -> CpuV {
    CpuV {
        processor: dec_value(d.processor) as u32,
        vendor_id: d.vendor_id,
        cpu_family: dec_value(d.cpu_family) as u32,
        model: dec_value(d.model) as u32,
        model_name: d.model_name,
        stepping: dec_value(d.stepping) as u32,
        microcode: hex_value(d.microcode) as u32,
        cpu_mhz: d.cpu_mhz_whole + seq![46u8] + d.cpu_mhz_frac,
        cache_size: (dec_value(d.cache_kb) * 1024) as u32,
        physical_id: dec_value(d.physical_id) as u32,
        siblings: dec_value(d.siblings) as u32,
        core_id: dec_value(d.core_id) as u32,
        cpu_cores: dec_value(d.cpu_cores) as u32,
        apicid: desc_cpu_tail(d).apicid,
        initial_apicid: desc_cpu_tail(d).initial_apicid,
        fpu: desc_cpu_tail(d).fpu,
        fpu_exception: desc_cpu_tail(d).fpu_exception,
        cpuid_level: desc_cpu_tail(d).cpuid_level,
        wp: desc_cpu_tail(d).wp,
        flags: desc_cpu_tail(d).flags,
        vmx_flags: desc_cpu_tail(d).vmx_flags,
        bugs: desc_cpu_tail(d).bugs,
        bogomips: desc_cpu_tail(d).bogomips,
        clflush_size: desc_cpu_tail(d).clflush_size,
        cache_alignment: desc_cpu_tail(d).cache_alignment,
        address_sizes: desc_cpu_tail(d).address_sizes,
        power_management: desc_cpu_tail(d).power_management,
    }
}

/// The back half of a record text parses as exactly its decoded values,
/// consuming exactly that text.
#[verifier::rlimit(100)]
proof fn lemma_record_tail_complete(s: Seq<u8>, pos: int, d: RecordDesc)
    requires
        desc_valid(d),
        match_at(s, pos, desc_tail_text(d)),
    ensures
        spec_parse_cpu_tail(s, pos) == Some((desc_cpu_tail(d), pos + desc_tail_text(d).len())),
{
    reveal(desc_valid);
    reveal(desc_tail_text);
    reveal(desc_cpu_tail);
    reveal(spec_parse_cpu_tail);
    let l1 = line_text(name_apicid(), d.pads[13].0, d.pads[13].1, d.apicid, d.eol);
    let l2 = line_text(name_initial_apicid(), d.pads[14].0, d.pads[14].1, d.initial_apicid, d.eol);
    let l3 = line_text(name_fpu(), d.pads[15].0, d.pads[15].1, d.fpu, d.eol);
    let l4 = line_text(name_fpu_exception(), d.pads[16].0, d.pads[16].1, d.fpu_exception, d.eol);
    let l5 = line_text(name_cpuid_level(), d.pads[17].0, d.pads[17].1, d.cpuid_level, d.eol);
    let l6 = line_text(name_wp(), d.pads[18].0, d.pads[18].1, d.wp, d.eol);
    let l7 = line_text(name_flags(), d.pads[19].0, d.pads[19].1, join_tokens(d.flags), d.eol);
    let l8 = line_text(name_vmx_flags(), d.pads[20].0, d.pads[20].1, join_tokens(d.vmx_flags), d.eol);
    let l9 = line_text(name_bugs(), d.pads[21].0, d.pads[21].1, join_tokens(d.bugs), d.eol);
    let l10 = line_text(name_bogomips(), d.pads[22].0, d.pads[22].1, d.bogomips_whole + seq![46u8] + d.bogomips_frac, d.eol);
    let l11 = line_text(name_clflush_size(), d.pads[23].0, d.pads[23].1, d.clflush_size, d.eol);
    let l12 = line_text(name_cache_alignment(), d.pads[24].0, d.pads[24].1, d.cache_alignment, d.eol);
    let l13 = line_text(name_address_sizes(), d.pads[25].0, d.pads[25].1, address_text(d.address_physical, d.address_virtual), d.eol);
    let l14 = line_text(name_power_management(), d.pads[26].0, d.pads[26].1, d.power_management, d.eol);
    let t14 = l14;
    let t13 = l13 + t14;
    let t12 = l12 + t13;
    let t11 = l11 + t12;
    let t10 = l10 + t11;
    let t9 = l9 + t10;
    let t8 = l8 + t9;
    let t7 = l7 + t8;
    let t6 = l6 + t7;
    let t5 = l5 + t6;
    let t4 = l4 + t5;
    let t3 = l3 + t4;
    let t2 = l2 + t3;
    let t1 = l1 + t2;
    assert(t1 == desc_tail_text(d));
    let p0 = pos;
    lemma_match_split(s, p0, l1, t2);
    lemma_field_u32_complete(s, p0, name_apicid(), d.pads[13].0, d.pads[13].1, d.apicid, d.eol);
    let p1 = p0 + l1.len();
    lemma_match_split(s, p1, l2, t3);
    lemma_field_u32_complete(s, p1, name_initial_apicid(), d.pads[14].0, d.pads[14].1, d.initial_apicid, d.eol);
    let p2 = p1 + l2.len();
    lemma_match_split(s, p2, l3, t4);
    lemma_field_bool_complete(s, p2, name_fpu(), d.pads[15].0, d.pads[15].1, d.fpu, d.eol);
    let p3 = p2 + l3.len();
    lemma_match_split(s, p3, l4, t5);
    lemma_field_bool_complete(s, p3, name_fpu_exception(), d.pads[16].0, d.pads[16].1, d.fpu_exception, d.eol);
    let p4 = p3 + l4.len();
    lemma_match_split(s, p4, l5, t6);
    lemma_field_u32_complete(s, p4, name_cpuid_level(), d.pads[17].0, d.pads[17].1, d.cpuid_level, d.eol);
    let p5 = p4 + l5.len();
    lemma_match_split(s, p5, l6, t7);
    lemma_field_bool_complete(s, p5, name_wp(), d.pads[18].0, d.pads[18].1, d.wp, d.eol);
    let p6 = p5 + l6.len();
    lemma_match_split(s, p6, l7, t8);
    lemma_field_list_complete(s, p6, name_flags(), d.pads[19].0, d.pads[19].1, d.flags, d.eol);
    let p7 = p6 + l7.len();
    lemma_match_split(s, p7, l8, t9);
    lemma_field_list_complete(s, p7, name_vmx_flags(), d.pads[20].0, d.pads[20].1, d.vmx_flags, d.eol);
    let p8 = p7 + l8.len();
    lemma_match_split(s, p8, l9, t10);
    lemma_field_list_complete(s, p8, name_bugs(), d.pads[21].0, d.pads[21].1, d.bugs, d.eol);
    let p9 = p8 + l9.len();
    lemma_match_split(s, p9, l10, t11);
    lemma_field_float_complete(s, p9, name_bogomips(), d.pads[22].0, d.pads[22].1, d.bogomips_whole, d.bogomips_frac, d.eol);
    let p10 = p9 + l10.len();
    lemma_match_split(s, p10, l11, t12);
    lemma_field_u32_complete(s, p10, name_clflush_size(), d.pads[23].0, d.pads[23].1, d.clflush_size, d.eol);
    let p11 = p10 + l11.len();
    lemma_match_split(s, p11, l12, t13);
    lemma_field_u32_complete(s, p11, name_cache_alignment(), d.pads[24].0, d.pads[24].1, d.cache_alignment, d.eol);
    let p12 = p11 + l12.len();
    lemma_match_split(s, p12, l13, t14);
    lemma_field_address_complete(s, p12, name_address_sizes(), d.pads[25].0, d.pads[25].1, d.address_physical, d.address_virtual, d.eol);
    let p13 = p12 + l13.len();
    lemma_field_opt_alnum_complete(s, p13, name_power_management(), d.pads[26].0, d.pads[26].1, d.power_management, d.eol);
    let p14 = p13 + l14.len();
    assert(p14 == pos + desc_tail_text(d).len());
}

/// A record text constructed field by field in the fixed order, each line
/// with its own padding and all lines closed by the record's line
/// terminator, parses as a whole record whose every field holds exactly the
/// value its text decodes to, consuming exactly the record text.
#[verifier::rlimit(100)]
pub proof fn lemma_record_complete(s: Seq<u8>, pos: int, d: RecordDesc)
    requires
        desc_valid(d),
        match_at(s, pos, desc_text(d)),
    ensures
        spec_parse_cpu(s, pos) == Some((desc_cpu(d), pos + desc_text(d).len())),
{
    reveal(desc_valid);
    reveal(desc_text);
    reveal(desc_cpu);
    reveal(spec_parse_cpu);
    let l1 = line_text(name_processor(), d.pads[0].0, d.pads[0].1, d.processor, d.eol);
    let l2 = line_text(name_vendor_id(), d.pads[1].0, d.pads[1].1, d.vendor_id, d.eol);
    let l3 = line_text(name_cpu_family(), d.pads[2].0, d.pads[2].1, d.cpu_family, d.eol);
    let l4 = line_text(name_model(), d.pads[3].0, d.pads[3].1, d.model, d.eol);
    let l5 = line_text(name_model_name(), d.pads[4].0, d.pads[4].1, d.model_name, d.eol);
    let l6 = line_text(name_stepping(), d.pads[5].0, d.pads[5].1, d.stepping, d.eol);
    let l7 = line_text(name_microcode(), d.pads[6].0, d.pads[6].1, d.microcode_pre + d.microcode, d.eol);
    let l8 = line_text(name_cpu_mhz(), d.pads[7].0, d.pads[7].1, d.cpu_mhz_whole + seq![46u8] + d.cpu_mhz_frac, d.eol);
    let l9 = cache_line_text(name_cache_size(), d.pads[8].0, d.pads[8].1, d.cache_kb, d.eol);
    let l10 = line_text(name_physical_id(), d.pads[9].0, d.pads[9].1, d.physical_id, d.eol);
    let l11 = line_text(name_siblings(), d.pads[10].0, d.pads[10].1, d.siblings, d.eol);
    let l12 = line_text(name_core_id(), d.pads[11].0, d.pads[11].1, d.core_id, d.eol);
    let l13 = line_text(name_cpu_cores(), d.pads[12].0, d.pads[12].1, d.cpu_cores, d.eol);
    let t14 = desc_tail_text(d);
    let t13 = l13 + t14;
    let t12 = l12 + t13;
    let t11 = l11 + t12;
    let t10 = l10 + t11;
    let t9 = l9 + t10;
    let t8 = l8 + t9;
    let t7 = l7 + t8;
    let t6 = l6 + t7;
    let t5 = l5 + t6;
    let t4 = l4 + t5;
    let t3 = l3 + t4;
    let t2 = l2 + t3;
    let t1 = l1 + t2;
    assert(t1 == desc_text(d));
    let p0 = pos;
    lemma_match_split(s, p0, l1, t2);
    lemma_field_u32_complete(s, p0, name_processor(), d.pads[0].0, d.pads[0].1, d.processor, d.eol);
    let p1 = p0 + l1.len();
    lemma_match_split(s, p1, l2, t3);
    lemma_field_alpha_complete(s, p1, name_vendor_id(), d.pads[1].0, d.pads[1].1, d.vendor_id, d.eol);
    let p2 = p1 + l2.len();
    lemma_match_split(s, p2, l3, t4);
    lemma_field_u32_complete(s, p2, name_cpu_family(), d.pads[2].0, d.pads[2].1, d.cpu_family, d.eol);
    let p3 = p2 + l3.len();
    lemma_match_split(s, p3, l4, t5);
    lemma_field_u32_complete(s, p3, name_model(), d.pads[3].0, d.pads[3].1, d.model, d.eol);
    let p4 = p3 + l4.len();
    lemma_match_split(s, p4, l5, t6);
    lemma_field_line_complete(s, p4, name_model_name(), d.pads[4].0, d.pads[4].1, d.model_name, d.eol);
    let p5 = p4 + l5.len();
    lemma_match_split(s, p5, l6, t7);
    lemma_field_u32_complete(s, p5, name_stepping(), d.pads[5].0, d.pads[5].1, d.stepping, d.eol);
    let p6 = p5 + l6.len();
    lemma_match_split(s, p6, l7, t8);
    lemma_field_hex_complete(s, p6, name_microcode(), d.pads[6].0, d.pads[6].1, d.microcode_pre, d.microcode, d.eol);
    let p7 = p6 + l7.len();
    lemma_match_split(s, p7, l8, t9);
    lemma_field_float_complete(s, p7, name_cpu_mhz(), d.pads[7].0, d.pads[7].1, d.cpu_mhz_whole, d.cpu_mhz_frac, d.eol);
    let p8 = p7 + l8.len();
    lemma_match_split(s, p8, l9, t10);
    lemma_field_cache_complete(s, p8, name_cache_size(), d.pads[8].0, d.pads[8].1, d.cache_kb, d.eol);
    let p9 = p8 + l9.len();
    lemma_match_split(s, p9, l10, t11);
    lemma_field_u32_complete(s, p9, name_physical_id(), d.pads[9].0, d.pads[9].1, d.physical_id, d.eol);
    let p10 = p9 + l10.len();
    lemma_match_split(s, p10, l11, t12);
    lemma_field_u32_complete(s, p10, name_siblings(), d.pads[10].0, d.pads[10].1, d.siblings, d.eol);
    let p11 = p10 + l11.len();
    lemma_match_split(s, p11, l12, t13);
    lemma_field_u32_complete(s, p11, name_core_id(), d.pads[11].0, d.pads[11].1, d.core_id, d.eol);
    let p12 = p11 + l12.len();
    lemma_match_split(s, p12, l13, t14);
    lemma_field_u32_complete(s, p12, name_cpu_cores(), d.pads[12].0, d.pads[12].1, d.cpu_cores, d.eol);
    let p13 = p12 + l13.len();
    lemma_record_tail_complete(s, p13, d);
    assert(pos + desc_text(d).len() == p13 + desc_tail_text(d).len());
}

// ---------------------------------------------------------------------------
// Whole documents: records joined by single blank lines parse in order
// ---------------------------------------------------------------------------

/// The text of one or more records joined by single blank lines: each record
/// ends with its own line break, so one further line terminator in the
/// record's own style makes the blank line between two records.
pub open spec fn docs_text(descs: Seq<RecordDesc>) -> Seq<u8>
    decreases descs.len(),
{
    if descs.len() == 0 {
        Seq::empty()
    } else if descs.len() == 1 {
        desc_text(descs[0])
    } else {
        desc_text(descs[0]) + (descs[0].eol + docs_text(descs.skip(1)))
    }
}

/// The line terminator of a valid record description is one.
proof fn lemma_desc_valid_eol(d: RecordDesc)
    requires
        desc_valid(d),
    ensures
        is_eol(d.eol),
{
    reveal(desc_valid);
}

/// A field line of any kind parses only where its field name stands: a
/// missing or out-of-order field fails at the point of the unexpected name.
pub proof fn lemma_field_needs_name(s: Seq<u8>, pos: int, name: Seq<u8>)
    ensures
        spec_field_prefix(s, pos, name) is Some ==> match_at(s, pos, name),
        spec_field_u32(s, pos, name) is Some ==> match_at(s, pos, name),
        spec_field_hex(s, pos, name) is Some ==> match_at(s, pos, name),
        spec_field_bool(s, pos, name) is Some ==> match_at(s, pos, name),
        spec_field_list(s, pos, name) is Some ==> match_at(s, pos, name),
        spec_field_alpha(s, pos, name) is Some ==> match_at(s, pos, name),
        spec_field_line(s, pos, name) is Some ==> match_at(s, pos, name),
        spec_field_float(s, pos, name) is Some ==> match_at(s, pos, name),
        spec_field_opt_alnum(s, pos, name) is Some ==> match_at(s, pos, name),
        spec_field_cache_size(s, pos, name) is Some ==> match_at(s, pos, name),
        spec_field_address(s, pos, name) is Some ==> match_at(s, pos, name),
{
}

/// A record parse fails wherever the name of its first field does not stand.
pub proof fn lemma_record_needs_first_name(s: Seq<u8>, pos: int)
    requires
        !match_at(s, pos, name_processor()),
    ensures
        spec_parse_cpu(s, pos) is None,
{
    reveal(spec_parse_cpu);
}

/// One or more records joined by single blank lines parse as exactly those
/// records, in order, consuming exactly the joined text — provided nothing
/// follows but the end of the input or one final line feed ending it.
#[verifier::rlimit(100)]
pub proof fn lemma_cpus_of_records(s: Seq<u8>, pos: int, descs: Seq<RecordDesc>)
    requires
        descs.len() >= 1,
        forall|i: int| 0 <= i < descs.len() ==> desc_valid(#[trigger] descs[i]),
        match_at(s, pos, docs_text(descs)),
        pos + docs_text(descs).len() == s.len() || (pos + docs_text(descs).len() + 1 == s.len()
            && s[pos + docs_text(descs).len()] == 10),
    ensures
        spec_parse_cpus(s, pos) == Some(
            (Seq::new(descs.len(), |i: int| desc_cpu(descs[i])), pos + docs_text(descs).len()),
        ),
    decreases descs.len(),
{
    if descs.len() == 1 {
        lemma_record_complete(s, pos, descs[0]);
        let p1 = pos + desc_text(descs[0]).len();
        if p1 < s.len() {
            assert(match_at(s, p1, seq![10u8])) by {
                assert(s.subrange(p1, p1 + 1) =~= seq![10u8]);
            }
            lemma_line_ending_complete(s, p1, seq![10u8]);
            lemma_record_needs_first_name(s, p1 + 1);
            assert(spec_parse_cpus(s, p1 + 1) is None);
        }
        assert(Seq::new(descs.len(), |i: int| desc_cpu(descs[i])) =~= seq![desc_cpu(descs[0])]);
    } else {
        let d0 = descs[0];
        let rest = descs.skip(1);
        lemma_match_split(s, pos, desc_text(d0), d0.eol + docs_text(rest));
        let p1 = pos + desc_text(d0).len();
        lemma_match_split(s, p1, d0.eol, docs_text(rest));
        lemma_record_complete(s, pos, d0);
        lemma_desc_valid_eol(d0);
        lemma_line_ending_complete(s, p1, d0.eol);
        assert(forall|i: int| 0 <= i < rest.len() ==> desc_valid(#[trigger] rest[i]));
        lemma_cpus_of_records(s, p1 + d0.eol.len(), rest);
        assert(seq![desc_cpu(d0)] + Seq::new(rest.len(), |i: int| desc_cpu(rest[i])) =~= Seq::new(
            descs.len(),
            |i: int| desc_cpu(descs[i]),
        ));
    }
}

/// A document of any number of records, constructed field by field and
/// record by record, joined by single blank lines with nothing after the
/// last record's own terminating line break, parses to exactly those
/// records, in input order.
pub proof fn lemma_document_complete(s: Seq<u8>, descs: Seq<RecordDesc>)
    requires
        descs.len() >= 1,
        forall|i: int| 0 <= i < descs.len() ==> desc_valid(#[trigger] descs[i]),
        s == docs_text(descs),
    ensures
        spec_parse_doc(s) == Some(Seq::new(descs.len(), |i: int| desc_cpu(descs[i]))),
{
    let dt = docs_text(descs);
    assert(match_at(s, 0, dt)) by {
        assert(s.subrange(0, dt.len() as int) =~= dt);
    }
    lemma_cpus_of_records(s, 0, descs);
}

/// Any content at all after the last record's own terminating line break —
/// a further blank line included — fails the whole parse.
pub proof fn lemma_document_rejects_trailing_content(s: Seq<u8>, tail: Seq<u8>)
    requires
        tail.len() > 0,
        spec_parse_cpus(s, 0) matches Some(ce) && ce.1 == s.len() - tail.len(),
    ensures
        spec_parse_doc(s) is None,
{
}

/// An input with no text holds no records, and the parse of it fails.
pub proof fn lemma_empty_document_fails(s: Seq<u8>)
    requires
        s.len() == 0,
    ensures
        spec_parse_doc(s) is None,
{
    lemma_record_needs_first_name(s, 0);
}


// ---------------------------------------------------------------------------
// Rejection of deviating address values and of truncated lines
// ---------------------------------------------------------------------------

/// The address widths value is rejected wherever any fixed part of it
/// deviates: no leading bit count, a wrong suffix after either count, or a
/// wrong separator between the two counts.
pub proof fn lemma_address_pair_rejects(s: Seq<u8>, pos: int)
    ensures
        spec_dec_u32(s, pos) is None ==> spec_physical_size(s, pos) is None,
        spec_dec_u32(s, pos) matches Some(pv) && !match_at(s, pv.1, lit_bits_physical())
            ==> spec_physical_size(s, pos) is None,
        spec_dec_u32(s, pos) matches Some(vv) && !match_at(s, vv.1, lit_bits_virtual())
            ==> spec_virtual_size(s, pos) is None,
        spec_physical_size(s, pos) is None ==> spec_address_pair(s, pos) is None,
        spec_physical_size(s, pos) matches Some(pv) && !match_at(s, pv.1, seq![44u8, 32u8])
            ==> spec_address_pair(s, pos) is None,
        spec_physical_size(s, pos) matches Some(pv) && spec_virtual_size(s, pv.1 + 2) is None
            ==> spec_address_pair(s, pos) is None,
{
}

/// A line ending always closes with a line feed byte.
pub proof fn lemma_line_ending_is_line_feed(s: Seq<u8>)
    ensures
        forall|p: int|
            (#[trigger] spec_line_ending(s, p)) is Some ==> s[spec_line_ending(s, p)->Some_0 - 1]
                == 10,
{
    assert forall|p: int| (#[trigger] spec_line_ending(s, p)) is Some implies s[spec_line_ending(
        s,
        p,
    )->Some_0 - 1] == 10 by {
        if match_at(s, p, seq![10u8]) {
            lemma_match_byte(s, p, seq![10u8], 0);
        } else {
            lemma_match_byte(s, p, seq![13u8, 10u8], 1);
        }
    }
}

/// Every successful field-line parse, of any kind, ends just past a line
/// feed: a field line truncated before its line terminator never parses.
pub proof fn lemma_field_ends_past_line_feed(s: Seq<u8>, pos: int, name: Seq<u8>)
    ensures
        spec_field_u32(s, pos, name) matches Some(ve) ==> s[ve.1 - 1] == 10,
        spec_field_hex(s, pos, name) matches Some(ve) ==> s[ve.1 - 1] == 10,
        spec_field_bool(s, pos, name) matches Some(ve) ==> s[ve.1 - 1] == 10,
        spec_field_list(s, pos, name) matches Some(ve) ==> s[ve.1 - 1] == 10,
        spec_field_alpha(s, pos, name) matches Some(ve) ==> s[ve.1 - 1] == 10,
        spec_field_line(s, pos, name) matches Some(ve) ==> s[ve.1 - 1] == 10,
        spec_field_float(s, pos, name) matches Some(ve) ==> s[ve.1 - 1] == 10,
        spec_field_opt_alnum(s, pos, name) matches Some(ve) ==> s[ve.1 - 1] == 10,
        spec_field_cache_size(s, pos, name) matches Some(ve) ==> s[ve.1 - 1] == 10,
        spec_field_address(s, pos, name) matches Some(ve) ==> s[ve.1 - 1] == 10,
{
    lemma_line_ending_is_line_feed(s);
}

/// Whatever text a whole record was parsed from ends with a line feed: a
/// record whose last line is truncated before its terminator never parses.
pub proof fn lemma_record_ends_past_line_feed(s: Seq<u8>, pos: int)
    ensures
        spec_parse_cpu(s, pos) matches Some(ce) ==> s[ce.1 - 1] == 10,
{
    reveal(spec_parse_cpu);
    reveal(spec_parse_cpu_tail);
    lemma_line_ending_is_line_feed(s);
}

} // verus!
