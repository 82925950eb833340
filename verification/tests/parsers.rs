//! The per-field parser tests: each field line parsed from its literal text.

use cpuinfo::fields::{
    address_sizes, apicid, bogomips, bugs, cache_alignment, cache_size, clflush_size, core_id,
    cpu_cores, cpu_family, cpu_mhz, cpuid_level, flags, fpu, fpu_exception, initial_apicid,
    microcode, model, model_name, physical_id, power_management, processor, siblings, stepping,
    vendor_id, vmx_flags, wp, AddressSizes,
};

#[test]
fn parses_processor() {
    let result = processor("processor\t: 0\n".as_bytes(), 0);
    assert!(result.is_some());
    assert_eq!(result.unwrap().0, 0);
}

#[test]
fn parses_cpu_family() {
    let result = cpu_family("cpu family\t: 6\n".as_bytes(), 0);
    assert!(result.is_some());
    assert_eq!(result.unwrap().0, 6);
}

#[test]
fn parses_model() {
    let result = model("model\t\t: 94\n".as_bytes(), 0);
    assert!(result.is_some());
    assert_eq!(result.unwrap().0, 94);
}

#[test]
fn parses_stepping() {
    let result = stepping("stepping\t: 3\n".as_bytes(), 0);
    assert!(result.is_some());
    assert_eq!(result.unwrap().0, 3);
}

#[test]
fn parses_microcode() {
    let result = microcode("microcode\t: 0xf0\n".as_bytes(), 0);
    assert!(result.is_some());
    assert_eq!(result.unwrap().0, 240);
}

#[test]
fn parses_cache_size() {
    let result = cache_size("cache size\t: 8192 KB\n".as_bytes(), 0);
    assert!(result.is_some());
    assert_eq!(result.unwrap().0, 8192 * 1024);
}

#[test]
fn parses_physical_id() {
    let result = physical_id("physical id\t: 0\n".as_bytes(), 0);
    assert!(result.is_some());
    assert_eq!(result.unwrap().0, 0);
}

#[test]
fn parses_siblings() {
    let result = siblings("siblings\t: 8\n".as_bytes(), 0);
    assert!(result.is_some());
    assert_eq!(result.unwrap().0, 8);
}

#[test]
fn parses_core_id() {
    let result = core_id("core id\t\t: 2\n".as_bytes(), 0);
    assert!(result.is_some());
    assert_eq!(result.unwrap().0, 2);
}

#[test]
fn parses_cpu_cores() {
    let result = cpu_cores("cpu cores\t: 4\n".as_bytes(), 0);
    assert!(result.is_some());
    assert_eq!(result.unwrap().0, 4);
}

#[test]
fn parses_apicid() {
    let result = apicid("apicid\t\t: 5\n".as_bytes(), 0);
    assert!(result.is_some());
    assert_eq!(result.unwrap().0, 5);
}

#[test]
fn parses_initial_apicid() {
    let result = initial_apicid("initial apicid\t: 5\n".as_bytes(), 0);
    assert!(result.is_some());
    assert_eq!(result.unwrap().0, 5);
}

#[test]
fn parses_cpuid_level() {
    let result = cpuid_level("cpuid level\t: 22\n".as_bytes(), 0);
    assert!(result.is_some());
    assert_eq!(result.unwrap().0, 22);
}

#[test]
fn parses_clflush_size() {
    let result = clflush_size("clflush size\t: 64\n".as_bytes(), 0);
    assert!(result.is_some());
    assert_eq!(result.unwrap().0, 64);
}

#[test]
fn parses_cache_alignment() {
    let result = cache_alignment("cache_alignment\t: 64\n".as_bytes(), 0);
    assert!(result.is_some());
    assert_eq!(result.unwrap().0, 64);
}

#[test]
fn parses_fpu() {
    let result = fpu("fpu\t\t: yes\n".as_bytes(), 0);
    assert!(result.is_some());
    assert_eq!(result.unwrap().0, true);
}

#[test]
fn parses_fpu_exception() {
    let result = fpu_exception("fpu_exception\t\t: yes\n".as_bytes(), 0);
    assert!(result.is_some());
    assert_eq!(result.unwrap().0, true);
}

#[test]
fn parses_wp() {
    let result = wp("wp\t\t: no\n".as_bytes(), 0);
    assert!(result.is_some());
    assert_eq!(result.unwrap().0, false);
}

#[test]
fn parses_vendor_id() {
    let result = vendor_id("vendor_id\t: GenuineIntel\n".as_bytes(), 0);
    assert!(result.is_some());
    assert_eq!(result.unwrap().0, b"GenuineIntel".to_vec());
}

#[test]
fn parses_model_name() {
    let result = model_name(
        "model name\t: Intel(R) Core(TM) i7-6700K CPU @ 4.00GHz\n".as_bytes(),
        0,
    );
    assert!(result.is_some());
    assert_eq!(
        result.unwrap().0,
        b"Intel(R) Core(TM) i7-6700K CPU @ 4.00GHz".to_vec()
    );
}

#[test]
fn parses_cpu_mhz() {
    let result = cpu_mhz("cpu MHz\t\t: 4000.000\n".as_bytes(), 0);
    assert!(result.is_some());
    let text = String::from_utf8(result.unwrap().0).unwrap();
    assert_eq!(text.parse::<f32>().unwrap(), 4000.00);
}

#[test]
fn parses_bogomips() {
    let result = bogomips("bogomips\t: 8003.30\n".as_bytes(), 0);
    assert!(result.is_some());
    let text = String::from_utf8(result.unwrap().0).unwrap();
    assert_eq!(text.parse::<f32>().unwrap(), 8003.3);
}

#[test]
fn parses_flags() {
    let result = flags("flags\t\t: fpu vme de pse tsc msr pae mce cx8 apic sep mtrr pge mca cmov pat pse36 clflush dts acpi mmx fxsr sse sse2 ss ht tm pbe syscall nx pdpe1gb rdtscp lm constant_tsc art arch_perfmon pebs bts rep_good nopl xtopology nonstop_tsc cpuid aperfmperf pni pclmulqdq dtes64 monitor ds_cpl vmx est tm2 ssse3 sdbg fma cx16 xtpr pdcm pcid sse4_1 sse4_2 x2apic movbe popcnt tsc_deadline_timer aes xsave avx f16c rdrand lahf_lm abm 3dnowprefetch cpuid_fault invpcid_single pti ssbd ibrs ibpb stibp tpr_shadow vnmi flexpriority ept vpid ept_ad fsgsbase tsc_adjust bmi1 avx2 smep bmi2 erms invpcid mpx rdseed adx smap clflushopt intel_pt xsaveopt xsavec xgetbv1 xsaves dtherm ida arat pln pts hwp hwp_notify hwp_act_window hwp_epp md_clear flush_l1d arch_capabilities\n".as_bytes(), 0);
    assert!(result.is_some());
    assert_eq!(
        result.unwrap().0,
        vec![
            b"fpu".to_vec(),
            b"vme".to_vec(),
            b"de".to_vec(),
            b"pse".to_vec(),
            b"tsc".to_vec(),
            b"msr".to_vec(),
            b"pae".to_vec(),
            b"mce".to_vec(),
            b"cx8".to_vec(),
            b"apic".to_vec(),
            b"sep".to_vec(),
            b"mtrr".to_vec(),
            b"pge".to_vec(),
            b"mca".to_vec(),
            b"cmov".to_vec(),
            b"pat".to_vec(),
            b"pse36".to_vec(),
            b"clflush".to_vec(),
            b"dts".to_vec(),
            b"acpi".to_vec(),
            b"mmx".to_vec(),
            b"fxsr".to_vec(),
            b"sse".to_vec(),
            b"sse2".to_vec(),
            b"ss".to_vec(),
            b"ht".to_vec(),
            b"tm".to_vec(),
            b"pbe".to_vec(),
            b"syscall".to_vec(),
            b"nx".to_vec(),
            b"pdpe1gb".to_vec(),
            b"rdtscp".to_vec(),
            b"lm".to_vec(),
            b"constant_tsc".to_vec(),
            b"art".to_vec(),
            b"arch_perfmon".to_vec(),
            b"pebs".to_vec(),
            b"bts".to_vec(),
            b"rep_good".to_vec(),
            b"nopl".to_vec(),
            b"xtopology".to_vec(),
            b"nonstop_tsc".to_vec(),
            b"cpuid".to_vec(),
            b"aperfmperf".to_vec(),
            b"pni".to_vec(),
            b"pclmulqdq".to_vec(),
            b"dtes64".to_vec(),
            b"monitor".to_vec(),
            b"ds_cpl".to_vec(),
            b"vmx".to_vec(),
            b"est".to_vec(),
            b"tm2".to_vec(),
            b"ssse3".to_vec(),
            b"sdbg".to_vec(),
            b"fma".to_vec(),
            b"cx16".to_vec(),
            b"xtpr".to_vec(),
            b"pdcm".to_vec(),
            b"pcid".to_vec(),
            b"sse4_1".to_vec(),
            b"sse4_2".to_vec(),
            b"x2apic".to_vec(),
            b"movbe".to_vec(),
            b"popcnt".to_vec(),
            b"tsc_deadline_timer".to_vec(),
            b"aes".to_vec(),
            b"xsave".to_vec(),
            b"avx".to_vec(),
            b"f16c".to_vec(),
            b"rdrand".to_vec(),
            b"lahf_lm".to_vec(),
            b"abm".to_vec(),
            b"3dnowprefetch".to_vec(),
            b"cpuid_fault".to_vec(),
            b"invpcid_single".to_vec(),
            b"pti".to_vec(),
            b"ssbd".to_vec(),
            b"ibrs".to_vec(),
            b"ibpb".to_vec(),
            b"stibp".to_vec(),
            b"tpr_shadow".to_vec(),
            b"vnmi".to_vec(),
            b"flexpriority".to_vec(),
            b"ept".to_vec(),
            b"vpid".to_vec(),
            b"ept_ad".to_vec(),
            b"fsgsbase".to_vec(),
            b"tsc_adjust".to_vec(),
            b"bmi1".to_vec(),
            b"avx2".to_vec(),
            b"smep".to_vec(),
            b"bmi2".to_vec(),
            b"erms".to_vec(),
            b"invpcid".to_vec(),
            b"mpx".to_vec(),
            b"rdseed".to_vec(),
            b"adx".to_vec(),
            b"smap".to_vec(),
            b"clflushopt".to_vec(),
            b"intel_pt".to_vec(),
            b"xsaveopt".to_vec(),
            b"xsavec".to_vec(),
            b"xgetbv1".to_vec(),
            b"xsaves".to_vec(),
            b"dtherm".to_vec(),
            b"ida".to_vec(),
            b"arat".to_vec(),
            b"pln".to_vec(),
            b"pts".to_vec(),
            b"hwp".to_vec(),
            b"hwp_notify".to_vec(),
            b"hwp_act_window".to_vec(),
            b"hwp_epp".to_vec(),
            b"md_clear".to_vec(),
            b"flush_l1d".to_vec(),
            b"arch_capabilities".to_vec(),
        ]
    )
}

#[test]
fn parses_vmx_flags() {
    let result = vmx_flags("vmx flags\t: vnmi preemption_timer invvpid ept_x_only ept_ad ept_1gb flexpriority tsc_offset vtpr mtf vapic ept vpid unrestricted_guest ple shadow_vmcs pml\n".as_bytes(), 0);
    assert!(result.is_some());
    assert_eq!(
        result.unwrap().0,
        vec![
            b"vnmi".to_vec(),
            b"preemption_timer".to_vec(),
            b"invvpid".to_vec(),
            b"ept_x_only".to_vec(),
            b"ept_ad".to_vec(),
            b"ept_1gb".to_vec(),
            b"flexpriority".to_vec(),
            b"tsc_offset".to_vec(),
            b"vtpr".to_vec(),
            b"mtf".to_vec(),
            b"vapic".to_vec(),
            b"ept".to_vec(),
            b"vpid".to_vec(),
            b"unrestricted_guest".to_vec(),
            b"ple".to_vec(),
            b"shadow_vmcs".to_vec(),
            b"pml".to_vec(),
        ]
    )
}

#[test]
fn parses_bugs() {
    let result = bugs("bugs\t\t: cpu_meltdown spectre_v1 spectre_v2 spec_store_bypass l1tf mds swapgs taa itlb_multihit srbds mmio_stale_data retbleed\n".as_bytes(), 0);
    assert!(result.is_some());
    assert_eq!(
        result.unwrap().0,
        vec![
            b"cpu_meltdown".to_vec(),
            b"spectre_v1".to_vec(),
            b"spectre_v2".to_vec(),
            b"spec_store_bypass".to_vec(),
            b"l1tf".to_vec(),
            b"mds".to_vec(),
            b"swapgs".to_vec(),
            b"taa".to_vec(),
            b"itlb_multihit".to_vec(),
            b"srbds".to_vec(),
            b"mmio_stale_data".to_vec(),
            b"retbleed".to_vec(),
        ]
    )
}

#[test]
fn parses_address_sizes() {
    let result = address_sizes(
        "address sizes\t: 39 bits physical, 48 bits virtual\n".as_bytes(),
        0,
    );
    assert!(result.is_some());
    assert_eq!(
        result.unwrap().0,
        AddressSizes { physical_size: 39, virtual_size: 48 }
    )
}

#[test]
fn parses_power_management() {
    let result = power_management("power management:\n".as_bytes(), 0);
    assert!(result.is_some());
    assert!(result.unwrap().0.is_none());
}
