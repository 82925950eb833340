//! One parser per named field line. A field line is the field name, a
//! colon separator with optional horizontal padding, a typed value, and a
//! line break; each parser is proved to return exactly what the field's spec
//! function decodes.

use vstd::prelude::*;

use crate::grammar::{
    spec_address_pair, spec_field_address, spec_field_alpha, spec_field_bool,
    spec_field_cache_size, spec_field_float, spec_field_hex, spec_field_line, spec_field_list,
    spec_field_opt_alnum, spec_field_prefix, spec_field_u32, spec_physical_size,
    spec_virtual_size,
};
use crate::scan::{
    alpha_token_at, boolean_at, dec_u32_at, float_text_at, hex_u32_at, line_ending_at, match_lit,
    opt_alnum_at, rest_of_line_at, separator_at, token_list_at,
};

verus! {

/// The pair of address widths of one processor record, each a bit count.
#[derive(Debug, PartialEq, Eq, Structural, Clone, Copy)]
pub struct AddressSizes {
    pub physical_size: u32,
    pub virtual_size: u32,
}

/// View of an optional owned token as an optional byte sequence.
pub open spec fn opt_bytes_view(ov: Option<Vec<u8>>) -> Option<Seq<u8>> {
    match ov {
        Some(v) => Some(v@),
        None => None,
    }
}

/// The start of a field line: the name literally, then the separator.
fn field_prefix(s: &[u8], pos: usize, name: &[u8]) -> (r: Option<usize>)
    requires
        pos <= s.len(),
    ensures
        match r {
            Some(e) => spec_field_prefix(s@, pos as int, name@) == Some(e as int) && pos <= e
                <= s.len(),
            None => spec_field_prefix(s@, pos as int, name@) is None,
        },
{
    if match_lit(s, pos, name) {
        separator_at(s, pos + name.len())
    } else {
        None
    }
}

/// A field line holding a decimal integer.
fn field_u32(s: &[u8], pos: usize, name: &[u8]) -> (r: Option<(u32, usize)>)
    requires
        pos <= s.len(),
    ensures
        match r {
            Some((v, e)) => spec_field_u32(s@, pos as int, name@) == Some((v, e as int)) && pos
                < e <= s.len(),
            None => spec_field_u32(s@, pos as int, name@) is None,
        },
{
    match field_prefix(s, pos, name) {
        None => None,
        Some(v0) => match dec_u32_at(s, v0) {
            None => None,
            Some((v, v1)) => match line_ending_at(s, v1) {
                None => None,
                Some(end) => Some((v, end)),
            },
        },
    }
}

/// A field line holding a hexadecimal integer.
fn field_hex(s: &[u8], pos: usize, name: &[u8]) -> (r: Option<(u32, usize)>)
    requires
        pos <= s.len(),
    ensures
        match r {
            Some((v, e)) => spec_field_hex(s@, pos as int, name@) == Some((v, e as int)) && pos
                < e <= s.len(),
            None => spec_field_hex(s@, pos as int, name@) is None,
        },
{
    match field_prefix(s, pos, name) {
        None => None,
        Some(v0) => match hex_u32_at(s, v0) {
            None => None,
            Some((v, v1)) => match line_ending_at(s, v1) {
                None => None,
                Some(end) => Some((v, end)),
            },
        },
    }
}

/// A field line holding `yes` or `no`.
fn field_bool(s: &[u8], pos: usize, name: &[u8]) -> (r: Option<(bool, usize)>)
    requires
        pos <= s.len(),
    ensures
        match r {
            Some((v, e)) => spec_field_bool(s@, pos as int, name@) == Some((v, e as int)) && pos
                < e <= s.len(),
            None => spec_field_bool(s@, pos as int, name@) is None,
        },
{
    match field_prefix(s, pos, name) {
        None => None,
        Some(v0) => match boolean_at(s, v0) {
            None => None,
            Some((v, v1)) => match line_ending_at(s, v1) {
                None => None,
                Some(end) => Some((v, end)),
            },
        },
    }
}

/// A field line holding a possibly empty token list.
fn field_list(s: &[u8], pos: usize, name: &[u8]) -> (r: Option<(Vec<Vec<u8>>, usize)>)
    requires
        pos <= s.len(),
    ensures
        match r {
            Some((v, e)) => spec_field_list(s@, pos as int, name@) == Some(
                (v.deep_view(), e as int),
            ) && pos < e <= s.len(),
            None => spec_field_list(s@, pos as int, name@) is None,
        },
{
    match field_prefix(s, pos, name) {
        None => None,
        Some(v0) => {
            let (vs, v1) = token_list_at(s, v0);
            match line_ending_at(s, v1) {
                None => None,
                Some(end) => Some((vs, end)),
            }
        },
    }
}

/// A field line holding a token of ASCII letters.
fn field_alpha(s: &[u8], pos: usize, name: &[u8]) -> (r: Option<(Vec<u8>, usize)>)
    requires
        pos <= s.len(),
    ensures
        match r {
            Some((v, e)) => spec_field_alpha(s@, pos as int, name@) == Some((v@, e as int))
                && pos < e <= s.len(),
            None => spec_field_alpha(s@, pos as int, name@) is None,
        },
{
    match field_prefix(s, pos, name) {
        None => None,
        Some(v0) => match alpha_token_at(s, v0) {
            None => None,
            Some((v, v1)) => match line_ending_at(s, v1) {
                None => None,
                Some(end) => Some((v, end)),
            },
        },
    }
}

/// A field line holding free-form text running to the end of the line.
fn field_line(s: &[u8], pos: usize, name: &[u8]) -> (r: Option<(Vec<u8>, usize)>)
    requires
        pos <= s.len(),
    ensures
        match r {
            Some((v, e)) => spec_field_line(s@, pos as int, name@) == Some((v@, e as int)) && pos
                < e <= s.len(),
            None => spec_field_line(s@, pos as int, name@) is None,
        },
{
    match field_prefix(s, pos, name) {
        None => None,
        Some(v0) => {
            let (v, v1) = rest_of_line_at(s, v0);
            match line_ending_at(s, v1) {
                None => None,
                Some(end) => Some((v, end)),
            }
        },
    }
}

/// A field line holding the text of a decimal floating-point number.
fn field_float(s: &[u8], pos: usize, name: &[u8]) -> (r: Option<(Vec<u8>, usize)>)
    requires
        pos <= s.len(),
    ensures
        match r {
            Some((v, e)) => spec_field_float(s@, pos as int, name@) == Some((v@, e as int))
                && pos < e <= s.len(),
            None => spec_field_float(s@, pos as int, name@) is None,
        },
{
    match field_prefix(s, pos, name) {
        None => None,
        Some(v0) => match float_text_at(s, v0) {
            None => None,
            Some((v, v1)) => match line_ending_at(s, v1) {
                None => None,
                Some(end) => Some((v, end)),
            },
        },
    }
}

/// A field line holding an optional alphanumeric token.
fn field_opt_alnum(s: &[u8], pos: usize, name: &[u8]) -> (r: Option<(Option<Vec<u8>>, usize)>)
    requires
        pos <= s.len(),
    ensures
        match r {
            Some((v, e)) => spec_field_opt_alnum(s@, pos as int, name@) == Some(
                (opt_bytes_view(v), e as int),
            ) && pos < e <= s.len(),
            None => spec_field_opt_alnum(s@, pos as int, name@) is None,
        },
{
    match field_prefix(s, pos, name) {
        None => None,
        Some(v0) => {
            let (v, v1) = opt_alnum_at(s, v0);
            match line_ending_at(s, v1) {
                None => None,
                Some(end) => Some((v, end)),
            }
        },
    }
}

/// The cache size field line: a kilobyte count, the verbatim suffix ` KB`,
/// a line break. The decoded value is the count scaled to bytes; the line is
/// rejected when the scaled value does not fit in `u32`.
fn field_cache(s: &[u8], pos: usize, name: &[u8]) -> (r: Option<(u32, usize)>)
    requires
        pos <= s.len(),
    ensures
        match r {
            Some((v, e)) => spec_field_cache_size(s@, pos as int, name@) == Some((v, e as int))
                && pos < e <= s.len(),
            None => spec_field_cache_size(s@, pos as int, name@) is None,
        },
{
    match field_prefix(s, pos, name) {
        None => None,
        Some(v0) => match dec_u32_at(s, v0) {
            None => None,
            Some((kb, v1)) => {
                let kb_lit: [u8; 3] = [32u8, 75u8, 66u8];
                proof {
                    assert(kb_lit@ =~= seq![32u8, 75u8, 66u8]);
                }
                if match_lit(s, v1, kb_lit.as_slice()) {
                    match line_ending_at(s, v1 + 3) {
                        None => None,
                        Some(end) => {
                            if kb <= 4194303 {
                                Some((kb * 1024, end))
                            } else {
                                None
                            }
                        },
                    }
                } else {
                    None
                }
            },
        },
    }
}

/// A bit count with the ` bits physical` suffix at `pos`.
pub fn physical_size(s: &[u8], pos: usize) -> (r: Option<(u32, usize)>)
    requires
        pos <= s.len(),
    ensures
        match r {
            Some((v, e)) => spec_physical_size(s@, pos as int) == Some((v, e as int)) && pos < e
                <= s.len(),
            None => spec_physical_size(s@, pos as int) is None,
        },
{
    match dec_u32_at(s, pos) {
        None => None,
        Some((v, i)) => {
            let suffix: [u8; 14] = [
                32u8, 98u8, 105u8, 116u8, 115u8, 32u8, 112u8, 104u8, 121u8, 115u8, 105u8, 99u8,
                97u8, 108u8,
            ];
            proof {
                assert(suffix@ =~= crate::grammar::lit_bits_physical());
            }
            if match_lit(s, i, suffix.as_slice()) {
                Some((v, i + 14))
            } else {
                None
            }
        },
    }
}

/// A bit count with the ` bits virtual` suffix at `pos`.
pub fn virtual_size(s: &[u8], pos: usize) -> (r: Option<(u32, usize)>)
    requires
        pos <= s.len(),
    ensures
        match r {
            Some((v, e)) => spec_virtual_size(s@, pos as int) == Some((v, e as int)) && pos < e
                <= s.len(),
            None => spec_virtual_size(s@, pos as int) is None,
        },
{
    match dec_u32_at(s, pos) {
        None => None,
        Some((v, i)) => {
            let suffix: [u8; 13] = [
                32u8, 98u8, 105u8, 116u8, 115u8, 32u8, 118u8, 105u8, 114u8, 116u8, 117u8, 97u8,
                108u8,
            ];
            proof {
                assert(suffix@ =~= crate::grammar::lit_bits_virtual());
            }
            if match_lit(s, i, suffix.as_slice()) {
                Some((v, i + 13))
            } else {
                None
            }
        },
    }
}

/// The pair of address widths at `pos`.
fn address_pair_at(s: &[u8], pos: usize) -> (r: Option<(AddressSizes, usize)>)
    requires
        pos <= s.len(),
    ensures
        match r {
            Some((v, e)) => spec_address_pair(s@, pos as int) == Some(
                ((v.physical_size, v.virtual_size), e as int),
            ) && pos < e <= s.len(),
            None => spec_address_pair(s@, pos as int) is None,
        },
{
    match physical_size(s, pos) {
        None => None,
        Some((p, i)) => {
            let comma: [u8; 2] = [44u8, 32u8];
            proof {
                assert(comma@ =~= seq![44u8, 32u8]);
            }
            if match_lit(s, i, comma.as_slice()) {
                match virtual_size(s, i + 2) {
                    None => None,
                    Some((v, k)) => Some(
                        (AddressSizes { physical_size: p, virtual_size: v }, k),
                    ),
                }
            } else {
                None
            }
        },
    }
}

/// The address sizes field line.
fn field_address(s: &[u8], pos: usize, name: &[u8]) -> (r: Option<(AddressSizes, usize)>)
    requires
        pos <= s.len(),
    ensures
        match r {
            Some((v, e)) => spec_field_address(s@, pos as int, name@) == Some(
                ((v.physical_size, v.virtual_size), e as int),
            ) && pos < e <= s.len(),
            None => spec_field_address(s@, pos as int, name@) is None,
        },
{
    match field_prefix(s, pos, name) {
        None => None,
        Some(v0) => match address_pair_at(s, v0) {
            None => None,
            Some((v, v1)) => match line_ending_at(s, v1) {
                None => None,
                Some(end) => Some((v, end)),
            },
        },
    }
}

/// The field-name literal `processor`.
pub open spec fn name_processor() -> Seq<u8> {
    seq![112u8, 114u8, 111u8, 99u8, 101u8, 115u8, 115u8, 111u8, 114u8]
}

/// The field-name literal `vendor_id`.
pub open spec fn name_vendor_id() -> Seq<u8> {
    seq![118u8, 101u8, 110u8, 100u8, 111u8, 114u8, 95u8, 105u8, 100u8]
}

/// The field-name literal `cpu family`.
pub open spec fn name_cpu_family() -> Seq<u8> {
    seq![99u8, 112u8, 117u8, 32u8, 102u8, 97u8, 109u8, 105u8, 108u8, 121u8]
}

/// The field-name literal `model`.
pub open spec fn name_model() -> Seq<u8> {
    seq![109u8, 111u8, 100u8, 101u8, 108u8]
}

/// The field-name literal `model name`.
pub open spec fn name_model_name() -> Seq<u8> {
    seq![109u8, 111u8, 100u8, 101u8, 108u8, 32u8, 110u8, 97u8, 109u8, 101u8]
}

/// The field-name literal `stepping`.
pub open spec fn name_stepping() -> Seq<u8> {
    seq![115u8, 116u8, 101u8, 112u8, 112u8, 105u8, 110u8, 103u8]
}

/// The field-name literal `microcode`.
pub open spec fn name_microcode() -> Seq<u8> {
    seq![109u8, 105u8, 99u8, 114u8, 111u8, 99u8, 111u8, 100u8, 101u8]
}

/// The field-name literal `cpu MHz`.
pub open spec fn name_cpu_mhz() -> Seq<u8> {
    seq![99u8, 112u8, 117u8, 32u8, 77u8, 72u8, 122u8]
}

/// The field-name literal `cache size`.
pub open spec fn name_cache_size() -> Seq<u8> {
    seq![99u8, 97u8, 99u8, 104u8, 101u8, 32u8, 115u8, 105u8, 122u8, 101u8]
}

/// The field-name literal `physical id`.
pub open spec fn name_physical_id() -> Seq<u8> {
    seq![112u8, 104u8, 121u8, 115u8, 105u8, 99u8, 97u8, 108u8, 32u8, 105u8, 100u8]
}

/// The field-name literal `siblings`.
pub open spec fn name_siblings() -> Seq<u8> {
    seq![115u8, 105u8, 98u8, 108u8, 105u8, 110u8, 103u8, 115u8]
}

/// The field-name literal `core id`.
pub open spec fn name_core_id() -> Seq<u8> {
    seq![99u8, 111u8, 114u8, 101u8, 32u8, 105u8, 100u8]
}

/// The field-name literal `cpu cores`.
pub open spec fn name_cpu_cores() -> Seq<u8> {
    seq![99u8, 112u8, 117u8, 32u8, 99u8, 111u8, 114u8, 101u8, 115u8]
}

/// The field-name literal `apicid`.
pub open spec fn name_apicid() -> Seq<u8> {
    seq![97u8, 112u8, 105u8, 99u8, 105u8, 100u8]
}

/// The field-name literal `initial apicid`.
pub open spec fn name_initial_apicid() -> Seq<u8> {
    seq![105u8, 110u8, 105u8, 116u8, 105u8, 97u8, 108u8, 32u8, 97u8, 112u8, 105u8, 99u8, 105u8, 100u8]
}

/// The field-name literal `fpu`.
pub open spec fn name_fpu() -> Seq<u8> {
    seq![102u8, 112u8, 117u8]
}

/// The field-name literal `fpu_exception`.
pub open spec fn name_fpu_exception() -> Seq<u8> {
    seq![102u8, 112u8, 117u8, 95u8, 101u8, 120u8, 99u8, 101u8, 112u8, 116u8, 105u8, 111u8, 110u8]
}

/// The field-name literal `cpuid level`.
pub open spec fn name_cpuid_level() -> Seq<u8> {
    seq![99u8, 112u8, 117u8, 105u8, 100u8, 32u8, 108u8, 101u8, 118u8, 101u8, 108u8]
}

/// The field-name literal `wp`.
pub open spec fn name_wp() -> Seq<u8> {
    seq![119u8, 112u8]
}

/// The field-name literal `flags`.
pub open spec fn name_flags() -> Seq<u8> {
    seq![102u8, 108u8, 97u8, 103u8, 115u8]
}

/// The field-name literal `vmx flags`.
pub open spec fn name_vmx_flags() -> Seq<u8> {
    seq![118u8, 109u8, 120u8, 32u8, 102u8, 108u8, 97u8, 103u8, 115u8]
}

/// The field-name literal `bugs`.
pub open spec fn name_bugs() -> Seq<u8> {
    seq![98u8, 117u8, 103u8, 115u8]
}

/// The field-name literal `bogomips`.
pub open spec fn name_bogomips() -> Seq<u8> {
    seq![98u8, 111u8, 103u8, 111u8, 109u8, 105u8, 112u8, 115u8]
}

/// The field-name literal `clflush size`.
pub open spec fn name_clflush_size() -> Seq<u8> {
    seq![99u8, 108u8, 102u8, 108u8, 117u8, 115u8, 104u8, 32u8, 115u8, 105u8, 122u8, 101u8]
}

/// The field-name literal `cache_alignment`.
pub open spec fn name_cache_alignment() -> Seq<u8> {
    seq![99u8, 97u8, 99u8, 104u8, 101u8, 95u8, 97u8, 108u8, 105u8, 103u8, 110u8, 109u8, 101u8, 110u8, 116u8]
}

/// The field-name literal `address sizes`.
pub open spec fn name_address_sizes() -> Seq<u8> {
    seq![97u8, 100u8, 100u8, 114u8, 101u8, 115u8, 115u8, 32u8, 115u8, 105u8, 122u8, 101u8, 115u8]
}

/// The field-name literal `power management`.
pub open spec fn name_power_management() -> Seq<u8> {
    seq![112u8, 111u8, 119u8, 101u8, 114u8, 32u8, 109u8, 97u8, 110u8, 97u8, 103u8, 101u8, 109u8, 101u8, 110u8, 116u8]
}

/// What the `processor` field line decodes to: a decimal integer.
pub open spec fn spec_processor(s: Seq<u8>, pos: int) -> Option<(u32, int)> {
    spec_field_u32(s, pos, name_processor())
}

/// What the `vendor_id` field line decodes to: a token of ASCII letters.
pub open spec fn spec_vendor_id(s: Seq<u8>, pos: int) -> Option<(Seq<u8>, int)> {
    spec_field_alpha(s, pos, name_vendor_id())
}

/// What the `cpu family` field line decodes to: a decimal integer.
pub open spec fn spec_cpu_family(s: Seq<u8>, pos: int) -> Option<(u32, int)> {
    spec_field_u32(s, pos, name_cpu_family())
}

/// What the `model` field line decodes to: a decimal integer.
pub open spec fn spec_model(s: Seq<u8>, pos: int) -> Option<(u32, int)> {
    spec_field_u32(s, pos, name_model())
}

/// What the `model name` field line decodes to: free-form text running to the end of the line.
pub open spec fn spec_model_name(s: Seq<u8>, pos: int) -> Option<(Seq<u8>, int)> {
    spec_field_line(s, pos, name_model_name())
}

/// What the `stepping` field line decodes to: a decimal integer.
pub open spec fn spec_stepping(s: Seq<u8>, pos: int) -> Option<(u32, int)> {
    spec_field_u32(s, pos, name_stepping())
}

/// What the `microcode` field line decodes to: a hexadecimal integer.
pub open spec fn spec_microcode(s: Seq<u8>, pos: int) -> Option<(u32, int)> {
    spec_field_hex(s, pos, name_microcode())
}

/// What the `cpu MHz` field line decodes to: the text of a decimal floating-point number.
pub open spec fn spec_cpu_mhz(s: Seq<u8>, pos: int) -> Option<(Seq<u8>, int)> {
    spec_field_float(s, pos, name_cpu_mhz())
}

/// What the `cache size` field line decodes to: a kilobyte count scaled to bytes.
pub open spec fn spec_cache_size(s: Seq<u8>, pos: int) -> Option<(u32, int)> {
    spec_field_cache_size(s, pos, name_cache_size())
}

/// What the `physical id` field line decodes to: a decimal integer.
pub open spec fn spec_physical_id(s: Seq<u8>, pos: int) -> Option<(u32, int)> {
    spec_field_u32(s, pos, name_physical_id())
}

/// What the `siblings` field line decodes to: a decimal integer.
pub open spec fn spec_siblings(s: Seq<u8>, pos: int) -> Option<(u32, int)> {
    spec_field_u32(s, pos, name_siblings())
}

/// What the `core id` field line decodes to: a decimal integer.
pub open spec fn spec_core_id(s: Seq<u8>, pos: int) -> Option<(u32, int)> {
    spec_field_u32(s, pos, name_core_id())
}

/// What the `cpu cores` field line decodes to: a decimal integer.
pub open spec fn spec_cpu_cores(s: Seq<u8>, pos: int) -> Option<(u32, int)> {
    spec_field_u32(s, pos, name_cpu_cores())
}

/// What the `apicid` field line decodes to: a decimal integer.
pub open spec fn spec_apicid(s: Seq<u8>, pos: int) -> Option<(u32, int)> {
    spec_field_u32(s, pos, name_apicid())
}

/// What the `initial apicid` field line decodes to: a decimal integer.
pub open spec fn spec_initial_apicid(s: Seq<u8>, pos: int) -> Option<(u32, int)> {
    spec_field_u32(s, pos, name_initial_apicid())
}

/// What the `fpu` field line decodes to: a `yes` or `no` value.
pub open spec fn spec_fpu(s: Seq<u8>, pos: int) -> Option<(bool, int)> {
    spec_field_bool(s, pos, name_fpu())
}

/// What the `fpu_exception` field line decodes to: a `yes` or `no` value.
pub open spec fn spec_fpu_exception(s: Seq<u8>, pos: int) -> Option<(bool, int)> {
    spec_field_bool(s, pos, name_fpu_exception())
}

/// What the `cpuid level` field line decodes to: a decimal integer.
pub open spec fn spec_cpuid_level(s: Seq<u8>, pos: int) -> Option<(u32, int)> {
    spec_field_u32(s, pos, name_cpuid_level())
}

/// What the `wp` field line decodes to: a `yes` or `no` value.
pub open spec fn spec_wp(s: Seq<u8>, pos: int) -> Option<(bool, int)> {
    spec_field_bool(s, pos, name_wp())
}

/// What the `flags` field line decodes to: a possibly empty token list.
pub open spec fn spec_flags(s: Seq<u8>, pos: int) -> Option<(Seq<Seq<u8>>, int)> {
    spec_field_list(s, pos, name_flags())
}

/// What the `vmx flags` field line decodes to: a possibly empty token list.
pub open spec fn spec_vmx_flags(s: Seq<u8>, pos: int) -> Option<(Seq<Seq<u8>>, int)> {
    spec_field_list(s, pos, name_vmx_flags())
}

/// What the `bugs` field line decodes to: a possibly empty token list.
pub open spec fn spec_bugs(s: Seq<u8>, pos: int) -> Option<(Seq<Seq<u8>>, int)> {
    spec_field_list(s, pos, name_bugs())
}

/// What the `bogomips` field line decodes to: the text of a decimal floating-point number.
pub open spec fn spec_bogomips(s: Seq<u8>, pos: int) -> Option<(Seq<u8>, int)> {
    spec_field_float(s, pos, name_bogomips())
}

/// What the `clflush size` field line decodes to: a decimal integer.
pub open spec fn spec_clflush_size(s: Seq<u8>, pos: int) -> Option<(u32, int)> {
    spec_field_u32(s, pos, name_clflush_size())
}

/// What the `cache_alignment` field line decodes to: a decimal integer.
pub open spec fn spec_cache_alignment(s: Seq<u8>, pos: int) -> Option<(u32, int)> {
    spec_field_u32(s, pos, name_cache_alignment())
}

/// What the `address sizes` field line decodes to: the physical and virtual address widths.
pub open spec fn spec_address_sizes(s: Seq<u8>, pos: int) -> Option<((u32, u32), int)> {
    spec_field_address(s, pos, name_address_sizes())
}

/// What the `power management` field line decodes to: an optional alphanumeric token.
pub open spec fn spec_power_management(s: Seq<u8>, pos: int) -> Option<(Option<Seq<u8>>, int)> {
    spec_field_opt_alnum(s, pos, name_power_management())
}

/// Parses the `processor` field line at `pos`.
pub fn processor(s: &[u8], pos: usize) -> (r: Option<(u32, usize)>)
    requires
        pos <= s.len(),
    ensures
        match r {
            Some((v, e)) => spec_processor(s@, pos as int) == Some((v, e as int)) && pos < e <= s.len(),
            None => spec_processor(s@, pos as int) is None,
        },
{
    let name: [u8; 9] = [112u8, 114u8, 111u8, 99u8, 101u8, 115u8, 115u8, 111u8, 114u8];
    proof {
        assert(name@ =~= name_processor());
    }
    field_u32(s, pos, name.as_slice())
}

/// Parses the `vendor_id` field line at `pos`.
pub fn vendor_id(s: &[u8], pos: usize) -> (r: Option<(Vec<u8>, usize)>)
    requires
        pos <= s.len(),
    ensures
        match r {
            Some((v, e)) => spec_vendor_id(s@, pos as int) == Some((v@, e as int)) && pos < e <= s.len(),
            None => spec_vendor_id(s@, pos as int) is None,
        },
{
    let name: [u8; 9] = [118u8, 101u8, 110u8, 100u8, 111u8, 114u8, 95u8, 105u8, 100u8];
    proof {
        assert(name@ =~= name_vendor_id());
    }
    field_alpha(s, pos, name.as_slice())
}

/// Parses the `cpu family` field line at `pos`.
pub fn cpu_family(s: &[u8], pos: usize) -> (r: Option<(u32, usize)>)
    requires
        pos <= s.len(),
    ensures
        match r {
            Some((v, e)) => spec_cpu_family(s@, pos as int) == Some((v, e as int)) && pos < e <= s.len(),
            None => spec_cpu_family(s@, pos as int) is None,
        },
{
    let name: [u8; 10] = [99u8, 112u8, 117u8, 32u8, 102u8, 97u8, 109u8, 105u8, 108u8, 121u8];
    proof {
        assert(name@ =~= name_cpu_family());
    }
    field_u32(s, pos, name.as_slice())
}

/// Parses the `model` field line at `pos`.
pub fn model(s: &[u8], pos: usize) -> (r: Option<(u32, usize)>)
    requires
        pos <= s.len(),
    ensures
        match r {
            Some((v, e)) => spec_model(s@, pos as int) == Some((v, e as int)) && pos < e <= s.len(),
            None => spec_model(s@, pos as int) is None,
        },
{
    let name: [u8; 5] = [109u8, 111u8, 100u8, 101u8, 108u8];
    proof {
        assert(name@ =~= name_model());
    }
    field_u32(s, pos, name.as_slice())
}

/// Parses the `model name` field line at `pos`.
pub fn model_name(s: &[u8], pos: usize) -> (r: Option<(Vec<u8>, usize)>)
    requires
        pos <= s.len(),
    ensures
        match r {
            Some((v, e)) => spec_model_name(s@, pos as int) == Some((v@, e as int)) && pos < e <= s.len(),
            None => spec_model_name(s@, pos as int) is None,
        },
{
    let name: [u8; 10] = [109u8, 111u8, 100u8, 101u8, 108u8, 32u8, 110u8, 97u8, 109u8, 101u8];
    proof {
        assert(name@ =~= name_model_name());
    }
    field_line(s, pos, name.as_slice())
}

/// Parses the `stepping` field line at `pos`.
pub fn stepping(s: &[u8], pos: usize) -> (r: Option<(u32, usize)>)
    requires
        pos <= s.len(),
    ensures
        match r {
            Some((v, e)) => spec_stepping(s@, pos as int) == Some((v, e as int)) && pos < e <= s.len(),
            None => spec_stepping(s@, pos as int) is None,
        },
{
    let name: [u8; 8] = [115u8, 116u8, 101u8, 112u8, 112u8, 105u8, 110u8, 103u8];
    proof {
        assert(name@ =~= name_stepping());
    }
    field_u32(s, pos, name.as_slice())
}

/// Parses the `microcode` field line at `pos`.
pub fn microcode(s: &[u8], pos: usize) -> (r: Option<(u32, usize)>)
    requires
        pos <= s.len(),
    ensures
        match r {
            Some((v, e)) => spec_microcode(s@, pos as int) == Some((v, e as int)) && pos < e <= s.len(),
            None => spec_microcode(s@, pos as int) is None,
        },
{
    let name: [u8; 9] = [109u8, 105u8, 99u8, 114u8, 111u8, 99u8, 111u8, 100u8, 101u8];
    proof {
        assert(name@ =~= name_microcode());
    }
    field_hex(s, pos, name.as_slice())
}

/// Parses the `cpu MHz` field line at `pos`.
pub fn cpu_mhz(s: &[u8], pos: usize) -> (r: Option<(Vec<u8>, usize)>)
    requires
        pos <= s.len(),
    ensures
        match r {
            Some((v, e)) => spec_cpu_mhz(s@, pos as int) == Some((v@, e as int)) && pos < e <= s.len(),
            None => spec_cpu_mhz(s@, pos as int) is None,
        },
{
    let name: [u8; 7] = [99u8, 112u8, 117u8, 32u8, 77u8, 72u8, 122u8];
    proof {
        assert(name@ =~= name_cpu_mhz());
    }
    field_float(s, pos, name.as_slice())
}

/// Parses the `cache size` field line at `pos`.
pub fn cache_size(s: &[u8], pos: usize) -> (r: Option<(u32, usize)>)
    requires
        pos <= s.len(),
    ensures
        match r {
            Some((v, e)) => spec_cache_size(s@, pos as int) == Some((v, e as int)) && pos < e <= s.len(),
            None => spec_cache_size(s@, pos as int) is None,
        },
{
    let name: [u8; 10] = [99u8, 97u8, 99u8, 104u8, 101u8, 32u8, 115u8, 105u8, 122u8, 101u8];
    proof {
        assert(name@ =~= name_cache_size());
    }
    field_cache(s, pos, name.as_slice())
}

/// Parses the `physical id` field line at `pos`.
pub fn physical_id(s: &[u8], pos: usize) -> (r: Option<(u32, usize)>)
    requires
        pos <= s.len(),
    ensures
        match r {
            Some((v, e)) => spec_physical_id(s@, pos as int) == Some((v, e as int)) && pos < e <= s.len(),
            None => spec_physical_id(s@, pos as int) is None,
        },
{
    let name: [u8; 11] = [112u8, 104u8, 121u8, 115u8, 105u8, 99u8, 97u8, 108u8, 32u8, 105u8, 100u8];
    proof {
        assert(name@ =~= name_physical_id());
    }
    field_u32(s, pos, name.as_slice())
}

/// Parses the `siblings` field line at `pos`.
pub fn siblings(s: &[u8], pos: usize) -> (r: Option<(u32, usize)>)
    requires
        pos <= s.len(),
    ensures
        match r {
            Some((v, e)) => spec_siblings(s@, pos as int) == Some((v, e as int)) && pos < e <= s.len(),
            None => spec_siblings(s@, pos as int) is None,
        },
{
    let name: [u8; 8] = [115u8, 105u8, 98u8, 108u8, 105u8, 110u8, 103u8, 115u8];
    proof {
        assert(name@ =~= name_siblings());
    }
    field_u32(s, pos, name.as_slice())
}

/// Parses the `core id` field line at `pos`.
pub fn core_id(s: &[u8], pos: usize) -> (r: Option<(u32, usize)>)
    requires
        pos <= s.len(),
    ensures
        match r {
            Some((v, e)) => spec_core_id(s@, pos as int) == Some((v, e as int)) && pos < e <= s.len(),
            None => spec_core_id(s@, pos as int) is None,
        },
{
    let name: [u8; 7] = [99u8, 111u8, 114u8, 101u8, 32u8, 105u8, 100u8];
    proof {
        assert(name@ =~= name_core_id());
    }
    field_u32(s, pos, name.as_slice())
}

/// Parses the `cpu cores` field line at `pos`.
pub fn cpu_cores(s: &[u8], pos: usize) -> (r: Option<(u32, usize)>)
    requires
        pos <= s.len(),
    ensures
        match r {
            Some((v, e)) => spec_cpu_cores(s@, pos as int) == Some((v, e as int)) && pos < e <= s.len(),
            None => spec_cpu_cores(s@, pos as int) is None,
        },
{
    let name: [u8; 9] = [99u8, 112u8, 117u8, 32u8, 99u8, 111u8, 114u8, 101u8, 115u8];
    proof {
        assert(name@ =~= name_cpu_cores());
    }
    field_u32(s, pos, name.as_slice())
}

/// Parses the `apicid` field line at `pos`.
pub fn apicid(s: &[u8], pos: usize) -> (r: Option<(u32, usize)>)
    requires
        pos <= s.len(),
    ensures
        match r {
            Some((v, e)) => spec_apicid(s@, pos as int) == Some((v, e as int)) && pos < e <= s.len(),
            None => spec_apicid(s@, pos as int) is None,
        },
{
    let name: [u8; 6] = [97u8, 112u8, 105u8, 99u8, 105u8, 100u8];
    proof {
        assert(name@ =~= name_apicid());
    }
    field_u32(s, pos, name.as_slice())
}

/// Parses the `initial apicid` field line at `pos`.
pub fn initial_apicid(s: &[u8], pos: usize) -> (r: Option<(u32, usize)>)
    requires
        pos <= s.len(),
    ensures
        match r {
            Some((v, e)) => spec_initial_apicid(s@, pos as int) == Some((v, e as int)) && pos < e <= s.len(),
            None => spec_initial_apicid(s@, pos as int) is None,
        },
{
    let name: [u8; 14] = [105u8, 110u8, 105u8, 116u8, 105u8, 97u8, 108u8, 32u8, 97u8, 112u8, 105u8, 99u8, 105u8, 100u8];
    proof {
        assert(name@ =~= name_initial_apicid());
    }
    field_u32(s, pos, name.as_slice())
}

/// Parses the `fpu` field line at `pos`.
pub fn fpu(s: &[u8], pos: usize) -> (r: Option<(bool, usize)>)
    requires
        pos <= s.len(),
    ensures
        match r {
            Some((v, e)) => spec_fpu(s@, pos as int) == Some((v, e as int)) && pos < e <= s.len(),
            None => spec_fpu(s@, pos as int) is None,
        },
{
    let name: [u8; 3] = [102u8, 112u8, 117u8];
    proof {
        assert(name@ =~= name_fpu());
    }
    field_bool(s, pos, name.as_slice())
}

/// Parses the `fpu_exception` field line at `pos`.
pub fn fpu_exception(s: &[u8], pos: usize) -> (r: Option<(bool, usize)>)
    requires
        pos <= s.len(),
    ensures
        match r {
            Some((v, e)) => spec_fpu_exception(s@, pos as int) == Some((v, e as int)) && pos < e <= s.len(),
            None => spec_fpu_exception(s@, pos as int) is None,
        },
{
    let name: [u8; 13] = [102u8, 112u8, 117u8, 95u8, 101u8, 120u8, 99u8, 101u8, 112u8, 116u8, 105u8, 111u8, 110u8];
    proof {
        assert(name@ =~= name_fpu_exception());
    }
    field_bool(s, pos, name.as_slice())
}

/// Parses the `cpuid level` field line at `pos`.
pub fn cpuid_level(s: &[u8], pos: usize) -> (r: Option<(u32, usize)>)
    requires
        pos <= s.len(),
    ensures
        match r {
            Some((v, e)) => spec_cpuid_level(s@, pos as int) == Some((v, e as int)) && pos < e <= s.len(),
            None => spec_cpuid_level(s@, pos as int) is None,
        },
{
    let name: [u8; 11] = [99u8, 112u8, 117u8, 105u8, 100u8, 32u8, 108u8, 101u8, 118u8, 101u8, 108u8];
    proof {
        assert(name@ =~= name_cpuid_level());
    }
    field_u32(s, pos, name.as_slice())
}

/// Parses the `wp` field line at `pos`.
pub fn wp(s: &[u8], pos: usize) -> (r: Option<(bool, usize)>)
    requires
        pos <= s.len(),
    ensures
        match r {
            Some((v, e)) => spec_wp(s@, pos as int) == Some((v, e as int)) && pos < e <= s.len(),
            None => spec_wp(s@, pos as int) is None,
        },
{
    let name: [u8; 2] = [119u8, 112u8];
    proof {
        assert(name@ =~= name_wp());
    }
    field_bool(s, pos, name.as_slice())
}

/// Parses the `flags` field line at `pos`.
pub fn flags(s: &[u8], pos: usize) -> (r: Option<(Vec<Vec<u8>>, usize)>)
    requires
        pos <= s.len(),
    ensures
        match r {
            Some((v, e)) => spec_flags(s@, pos as int) == Some((v.deep_view(), e as int)) && pos < e <= s.len(),
            None => spec_flags(s@, pos as int) is None,
        },
{
    let name: [u8; 5] = [102u8, 108u8, 97u8, 103u8, 115u8];
    proof {
        assert(name@ =~= name_flags());
    }
    field_list(s, pos, name.as_slice())
}

/// Parses the `vmx flags` field line at `pos`.
pub fn vmx_flags(s: &[u8], pos: usize) -> (r: Option<(Vec<Vec<u8>>, usize)>)
    requires
        pos <= s.len(),
    ensures
        match r {
            Some((v, e)) => spec_vmx_flags(s@, pos as int) == Some((v.deep_view(), e as int)) && pos < e <= s.len(),
            None => spec_vmx_flags(s@, pos as int) is None,
        },
{
    let name: [u8; 9] = [118u8, 109u8, 120u8, 32u8, 102u8, 108u8, 97u8, 103u8, 115u8];
    proof {
        assert(name@ =~= name_vmx_flags());
    }
    field_list(s, pos, name.as_slice())
}

/// Parses the `bugs` field line at `pos`.
pub fn bugs(s: &[u8], pos: usize) -> (r: Option<(Vec<Vec<u8>>, usize)>)
    requires
        pos <= s.len(),
    ensures
        match r {
            Some((v, e)) => spec_bugs(s@, pos as int) == Some((v.deep_view(), e as int)) && pos < e <= s.len(),
            None => spec_bugs(s@, pos as int) is None,
        },
{
    let name: [u8; 4] = [98u8, 117u8, 103u8, 115u8];
    proof {
        assert(name@ =~= name_bugs());
    }
    field_list(s, pos, name.as_slice())
}

/// Parses the `bogomips` field line at `pos`.
pub fn bogomips(s: &[u8], pos: usize) -> (r: Option<(Vec<u8>, usize)>)
    requires
        pos <= s.len(),
    ensures
        match r {
            Some((v, e)) => spec_bogomips(s@, pos as int) == Some((v@, e as int)) && pos < e <= s.len(),
            None => spec_bogomips(s@, pos as int) is None,
        },
{
    let name: [u8; 8] = [98u8, 111u8, 103u8, 111u8, 109u8, 105u8, 112u8, 115u8];
    proof {
        assert(name@ =~= name_bogomips());
    }
    field_float(s, pos, name.as_slice())
}

/// Parses the `clflush size` field line at `pos`.
pub fn clflush_size(s: &[u8], pos: usize) -> (r: Option<(u32, usize)>)
    requires
        pos <= s.len(),
    ensures
        match r {
            Some((v, e)) => spec_clflush_size(s@, pos as int) == Some((v, e as int)) && pos < e <= s.len(),
            None => spec_clflush_size(s@, pos as int) is None,
        },
{
    let name: [u8; 12] = [99u8, 108u8, 102u8, 108u8, 117u8, 115u8, 104u8, 32u8, 115u8, 105u8, 122u8, 101u8];
    proof {
        assert(name@ =~= name_clflush_size());
    }
    field_u32(s, pos, name.as_slice())
}

/// Parses the `cache_alignment` field line at `pos`.
pub fn cache_alignment(s: &[u8], pos: usize) -> (r: Option<(u32, usize)>)
    requires
        pos <= s.len(),
    ensures
        match r {
            Some((v, e)) => spec_cache_alignment(s@, pos as int) == Some((v, e as int)) && pos < e <= s.len(),
            None => spec_cache_alignment(s@, pos as int) is None,
        },
{
    let name: [u8; 15] = [99u8, 97u8, 99u8, 104u8, 101u8, 95u8, 97u8, 108u8, 105u8, 103u8, 110u8, 109u8, 101u8, 110u8, 116u8];
    proof {
        assert(name@ =~= name_cache_alignment());
    }
    field_u32(s, pos, name.as_slice())
}

/// Parses the `address sizes` field line at `pos`.
pub fn address_sizes(s: &[u8], pos: usize) -> (r: Option<(AddressSizes, usize)>)
    requires
        pos <= s.len(),
    ensures
        match r {
            Some((v, e)) => spec_address_sizes(s@, pos as int) == Some(((v.physical_size, v.virtual_size), e as int)) && pos < e <= s.len(),
            None => spec_address_sizes(s@, pos as int) is None,
        },
{
    let name: [u8; 13] = [97u8, 100u8, 100u8, 114u8, 101u8, 115u8, 115u8, 32u8, 115u8, 105u8, 122u8, 101u8, 115u8];
    proof {
        assert(name@ =~= name_address_sizes());
    }
    field_address(s, pos, name.as_slice())
}

/// Parses the `power management` field line at `pos`.
pub fn power_management(s: &[u8], pos: usize) -> (r: Option<(Option<Vec<u8>>, usize)>)
    requires
        pos <= s.len(),
    ensures
        match r {
            Some((v, e)) => spec_power_management(s@, pos as int) == Some((opt_bytes_view(v), e as int)) && pos < e <= s.len(),
            None => spec_power_management(s@, pos as int) is None,
        },
{
    let name: [u8; 16] = [112u8, 111u8, 119u8, 101u8, 114u8, 32u8, 109u8, 97u8, 110u8, 97u8, 103u8, 101u8, 109u8, 101u8, 110u8, 116u8];
    proof {
        assert(name@ =~= name_power_management());
    }
    field_opt_alnum(s, pos, name.as_slice())
}

} // verus!
