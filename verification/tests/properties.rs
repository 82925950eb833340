//! Scenario tests for the documented properties of the grammar: exact
//! decoded values, rejection of malformed lines, record ordering and
//! document boundaries.

use cpuinfo::fields::{address_sizes, cache_size, flags, fpu, microcode, power_management, processor};
use cpuinfo::record::cpu;
use cpuinfo::{cpuinfo, ParseError};

fn record_text() -> String {
    "processor\t: 6\nvendor_id\t: GenuineIntel\ncpu family\t: 6\nmodel\t\t: 94\nmodel name\t: Intel(R) Core(TM) i7-6700K CPU @ 4.00GHz\nstepping\t: 3\nmicrocode\t: 0xf0\ncpu MHz\t\t: 800.004\ncache size\t: 8192 KB\nphysical id\t: 0\nsiblings\t: 8\ncore id\t\t: 2\ncpu cores\t: 4\napicid\t\t: 5\ninitial apicid\t: 5\nfpu\t\t: yes\nfpu_exception\t: yes\ncpuid level\t: 22\nwp\t\t: yes\nflags\t\t: fpu vme de pse tsc msr pae mce cx8 apic sep mtrr pge mca cmov pat pse36 clflush dts acpi mmx fxsr sse sse2 ss ht tm pbe syscall nx pdpe1gb rdtscp lm constant_tsc art arch_perfmon pebs bts rep_good nopl xtopology nonstop_tsc cpuid aperfmperf pni pclmulqdq dtes64 monitor ds_cpl vmx est tm2 ssse3 sdbg fma cx16 xtpr pdcm pcid sse4_1 sse4_2 x2apic movbe popcnt tsc_deadline_timer aes xsave avx f16c rdrand lahf_lm abm 3dnowprefetch cpuid_fault invpcid_single pti ssbd ibrs ibpb stibp tpr_shadow vnmi flexpriority ept vpid ept_ad fsgsbase tsc_adjust bmi1 avx2 smep bmi2 erms invpcid mpx rdseed adx smap clflushopt intel_pt xsaveopt xsavec xgetbv1 xsaves dtherm ida arat pln pts hwp hwp_notify hwp_act_window hwp_epp md_clear flush_l1d arch_capabilities\nvmx flags\t: vnmi preemption_timer invvpid ept_x_only ept_ad ept_1gb flexpriority tsc_offset vtpr mtf vapic ept vpid unrestricted_guest ple shadow_vmcs pml\nbugs\t\t: cpu_meltdown spectre_v1 spectre_v2 spec_store_bypass l1tf mds swapgs taa itlb_multihit srbds mmio_stale_data retbleed\nbogomips\t: 8003.30\nclflush size\t: 64\ncache_alignment\t: 64\naddress sizes\t: 39 bits physical, 48 bits virtual\npower management:\n".to_string()
}

#[test]
fn hex_prefix_is_case_insensitive() {
    let lower = microcode("microcode\t: 0xf0\n".as_bytes(), 0);
    assert_eq!(lower.unwrap().0, 240);
    let upper = microcode("microcode\t: 0XAB\n".as_bytes(), 0);
    assert_eq!(upper.unwrap().0, 171);
}

#[test]
fn hex_without_digits_is_rejected() {
    assert!(microcode("microcode\t: 0x\n".as_bytes(), 0).is_none());
    assert!(microcode("microcode\t: f0\n".as_bytes(), 0).is_none());
}

#[test]
fn boolean_other_token_is_rejected() {
    assert!(fpu("fpu\t\t: maybe\n".as_bytes(), 0).is_none());
    assert!(fpu("fpu\t\t: 1\n".as_bytes(), 0).is_none());
}

#[test]
fn empty_token_list_yields_zero_tokens() {
    let result = flags("flags\t\t:\n".as_bytes(), 0);
    assert!(result.is_some());
    assert_eq!(result.unwrap().0.len(), 0);
}

#[test]
fn token_list_preserves_order_and_text() {
    let result = flags("flags\t\t: fpu vme de\n".as_bytes(), 0);
    assert_eq!(
        result.unwrap().0,
        vec![b"fpu".to_vec(), b"vme".to_vec(), b"de".to_vec()]
    );
}

#[test]
fn power_management_value_present() {
    let result = power_management("power management: performance\n".as_bytes(), 0);
    assert_eq!(result.unwrap().0, Some(b"performance".to_vec()));
}

#[test]
fn address_sizes_malformed_suffix_is_rejected() {
    assert!(address_sizes(
        "address sizes\t: 39 physical, 48 bits virtual\n".as_bytes(),
        0
    )
    .is_none());
    assert!(address_sizes(
        "address sizes\t: 39 bits physical 48 bits virtual\n".as_bytes(),
        0
    )
    .is_none());
    assert!(address_sizes(
        "address sizes\t: 39 bits physical, 48 bits\n".as_bytes(),
        0
    )
    .is_none());
}

#[test]
fn document_of_two_records_parses_in_order() {
    let one = record_text();
    let two = one.replace("processor\t: 6", "processor\t: 7");
    let text = format!("{}\n{}", one, two);
    let parsed = cpuinfo(&text).unwrap();
    assert_eq!(parsed.cpus.len(), 2);
    assert_eq!(parsed.cpus[0].processor, 6);
    assert_eq!(parsed.cpus[1].processor, 7);
}

#[test]
fn missing_blank_line_between_records_fails() {
    let one = record_text();
    let text = format!("{}{}", one, record_text());
    assert!(cpuinfo(&text).is_err());
}

#[test]
fn empty_input_fails_as_empty() {
    assert_eq!(cpuinfo("").unwrap_err(), ParseError::EmptyInput);
}

#[test]
fn garbage_input_fails_as_malformed() {
    assert_eq!(cpuinfo("not a listing\n").unwrap_err(), ParseError::Malformed);
}

#[test]
fn single_record_document_decodes_every_field() {
    let text = record_text();
    let parsed = cpuinfo(&text).unwrap();
    assert_eq!(parsed.cpus.len(), 1);
    let c = &parsed.cpus[0];
    assert_eq!(c.processor, 6);
    assert_eq!(c.vendor_id, b"GenuineIntel".to_vec());
    assert_eq!(c.cpu_family, 6);
    assert_eq!(c.model, 94);
    assert_eq!(
        c.model_name,
        b"Intel(R) Core(TM) i7-6700K CPU @ 4.00GHz".to_vec()
    );
    assert_eq!(c.stepping, 3);
    assert_eq!(c.microcode, 240);
    assert_eq!(
        String::from_utf8(c.cpu_mhz.clone()).unwrap().parse::<f32>().unwrap(),
        800.004
    );
    assert_eq!(c.cache_size, 8192 * 1024);
    assert_eq!(c.physical_id, 0);
    assert_eq!(c.siblings, 8);
    assert_eq!(c.core_id, 2);
    assert_eq!(c.cpu_cores, 4);
    assert_eq!(c.apicid, 5);
    assert_eq!(c.initial_apicid, 5);
    assert!(c.fpu);
    assert!(c.fpu_exception);
    assert_eq!(c.cpuid_level, 22);
    assert!(c.wp);
    assert_eq!(c.flags.len(), 116);
    assert_eq!(c.flags[0], b"fpu".to_vec());
    assert_eq!(c.vmx_flags.len(), 17);
    assert_eq!(c.bugs.len(), 12);
    assert_eq!(
        String::from_utf8(c.bogomips.clone()).unwrap().parse::<f32>().unwrap(),
        8003.30
    );
    assert_eq!(c.clflush_size, 64);
    assert_eq!(c.cache_alignment, 64);
    assert_eq!(c.address_sizes.physical_size, 39);
    assert_eq!(c.address_sizes.virtual_size, 48);
    assert!(c.power_management.is_none());
}

#[test]
fn reordered_fields_fail() {
    let text = record_text();
    let swapped = text
        .replace("vendor_id\t: GenuineIntel\n", "@VENDOR@")
        .replace("cpu family\t: 6\n", "vendor_id\t: GenuineIntel\n")
        .replace("@VENDOR@", "cpu family\t: 6\n");
    assert!(cpu(swapped.as_bytes(), 0).is_none());
    assert!(cpuinfo(&swapped).is_err());
}

#[test]
fn reordered_list_fields_fail() {
    let text = record_text();
    let swapped = text
        .replace("vmx flags\t: ", "@VMX@")
        .replace("bugs\t\t: ", "vmx flags\t: ")
        .replace("@VMX@", "bugs\t\t: ");
    assert!(cpu(swapped.as_bytes(), 0).is_none());
    assert!(cpuinfo(&swapped).is_err());
}

#[test]
fn truncated_field_line_fails() {
    let text = record_text();
    let cut = text.replace("cache size\t: 8192 KB\n", "cache size\t: 8192 K");
    assert!(cpuinfo(&cut).is_err());
}

#[test]
fn trailing_text_after_last_record_fails() {
    let text = format!("{}extra\n", record_text());
    assert!(cpuinfo(&text).is_err());
    let text2 = format!("{}\n\n", record_text());
    assert!(cpuinfo(&text2).is_err());
}

#[test]
fn trailing_blank_line_after_last_record_fails() {
    let text = format!("{}\n", record_text());
    assert!(cpuinfo(&text).is_err());
}

#[test]
fn cache_size_is_scaled_to_bytes() {
    let text = record_text();
    let parsed = cpuinfo(&text).unwrap();
    assert_eq!(parsed.cpus[0].cache_size, 8388608);
}

#[test]
fn carriage_return_line_endings_are_accepted() {
    let text = record_text().replace('\n', "\r\n");
    let parsed = cpuinfo(&text).unwrap();
    assert_eq!(parsed.cpus.len(), 1);
    assert_eq!(parsed.cpus[0].processor, 6);
}

#[test]
fn decimal_values_fill_but_do_not_pass_the_integer_range() {
    let max = processor("processor\t: 4294967295\n".as_bytes(), 0);
    assert_eq!(max.unwrap().0, 4294967295);
    assert!(processor("processor\t: 4294967296\n".as_bytes(), 0).is_none());
}

#[test]
fn hexadecimal_values_fill_but_do_not_pass_the_integer_range() {
    let max = microcode("microcode\t: 0xffffffff\n".as_bytes(), 0);
    assert_eq!(max.unwrap().0, 4294967295);
    assert!(microcode("microcode\t: 0x100000000\n".as_bytes(), 0).is_none());
}

#[test]
fn cache_size_too_large_to_scale_is_rejected() {
    let big = cache_size("cache size\t: 4194303 KB\n".as_bytes(), 0);
    assert_eq!(big.unwrap().0, 4194303 * 1024);
    assert!(cache_size("cache size\t: 4194304 KB\n".as_bytes(), 0).is_none());
}

#[test]
fn cache_size_requires_the_verbatim_space_kb_suffix() {
    assert!(cache_size("cache size\t: 8192KB\n".as_bytes(), 0).is_none());
    assert!(cache_size("cache size\t: 8192  KB\n".as_bytes(), 0).is_none());
    assert!(cache_size("cache size\t: 8192\tKB\n".as_bytes(), 0).is_none());
}
