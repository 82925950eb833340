//! The record and document assemblers: one record is every field line in
//! the fixed order; a document is one or more records separated by single
//! blank lines.

use vstd::prelude::*;

use crate::fields;
use crate::fields::{
    opt_bytes_view, spec_address_sizes, spec_apicid, spec_bogomips, spec_bugs,
    spec_cache_alignment, spec_cache_size, spec_clflush_size, spec_core_id, spec_cpu_cores,
    spec_cpu_family, spec_cpu_mhz, spec_cpuid_level, spec_flags, spec_fpu, spec_fpu_exception,
    spec_initial_apicid, spec_microcode, spec_model, spec_model_name, spec_physical_id,
    spec_power_management, spec_processor, spec_siblings, spec_stepping, spec_vendor_id,
    spec_vmx_flags, spec_wp, AddressSizes,
};
use crate::grammar::spec_line_ending;
use crate::scan::line_ending_at;

verus! {

/// One parsed processor record: every field of the fixed-order block.
/// Clock speed and the relative-performance score are kept as the exact
/// decimal text that was matched; a caller that wants a binary floating-
/// point value converts that text itself.
#[derive(Debug)]
pub struct Cpu {
    pub processor: u32,
    pub vendor_id: Vec<u8>,
    pub cpu_family: u32,
    pub model: u32,
    pub model_name: Vec<u8>,
    pub stepping: u32,
    pub microcode: u32,
    pub cpu_mhz: Vec<u8>,
    pub cache_size: u32,
    pub physical_id: u32,
    pub siblings: u32,
    pub core_id: u32,
    pub cpu_cores: u32,
    pub apicid: u32,
    pub initial_apicid: u32,
    pub fpu: bool,
    pub fpu_exception: bool,
    pub cpuid_level: u32,
    pub wp: bool,
    pub flags: Vec<Vec<u8>>,
    pub vmx_flags: Vec<Vec<u8>>,
    pub bugs: Vec<Vec<u8>>,
    pub bogomips: Vec<u8>,
    pub clflush_size: u32,
    pub cache_alignment: u32,
    pub address_sizes: AddressSizes,
    pub power_management: Option<Vec<u8>>,
}

/// The mathematical model of a record: what each field line decodes to.
pub struct CpuV {
    pub processor: u32,
    pub vendor_id: Seq<u8>,
    pub cpu_family: u32,
    pub model: u32,
    pub model_name: Seq<u8>,
    pub stepping: u32,
    pub microcode: u32,
    pub cpu_mhz: Seq<u8>,
    pub cache_size: u32,
    pub physical_id: u32,
    pub siblings: u32,
    pub core_id: u32,
    pub cpu_cores: u32,
    pub apicid: u32,
    pub initial_apicid: u32,
    pub fpu: bool,
    pub fpu_exception: bool,
    pub cpuid_level: u32,
    pub wp: bool,
    pub flags: Seq<Seq<u8>>,
    pub vmx_flags: Seq<Seq<u8>>,
    pub bugs: Seq<Seq<u8>>,
    pub bogomips: Seq<u8>,
    pub clflush_size: u32,
    pub cache_alignment: u32,
    pub address_sizes: AddressSizes,
    pub power_management: Option<Seq<u8>>,
}

impl View for Cpu {
    type V = CpuV;

    open spec fn view(&self) -> CpuV {
        CpuV {
            processor: self.processor,
            vendor_id: self.vendor_id@,
            cpu_family: self.cpu_family,
            model: self.model,
            model_name: self.model_name@,
            stepping: self.stepping,
            microcode: self.microcode,
            cpu_mhz: self.cpu_mhz@,
            cache_size: self.cache_size,
            physical_id: self.physical_id,
            siblings: self.siblings,
            core_id: self.core_id,
            cpu_cores: self.cpu_cores,
            apicid: self.apicid,
            initial_apicid: self.initial_apicid,
            fpu: self.fpu,
            fpu_exception: self.fpu_exception,
            cpuid_level: self.cpuid_level,
            wp: self.wp,
            flags: self.flags.deep_view(),
            vmx_flags: self.vmx_flags.deep_view(),
            bugs: self.bugs.deep_view(),
            bogomips: self.bogomips@,
            clflush_size: self.clflush_size,
            cache_alignment: self.cache_alignment,
            address_sizes: self.address_sizes,
            power_management: opt_bytes_view(self.power_management),
        }
    }
}

impl DeepView for Cpu {
    type V = CpuV;

    open spec fn deep_view(&self) -> CpuV {
        self.view()
    }
}

/// The mathematical model of the back half of a record: what each of its
/// last fourteen field lines decodes to.
pub struct CpuTailV {
    pub apicid: u32,
    pub initial_apicid: u32,
    pub fpu: bool,
    pub fpu_exception: bool,
    pub cpuid_level: u32,
    pub wp: bool,
    pub flags: Seq<Seq<u8>>,
    pub vmx_flags: Seq<Seq<u8>>,
    pub bugs: Seq<Seq<u8>>,
    pub bogomips: Seq<u8>,
    pub clflush_size: u32,
    pub cache_alignment: u32,
    pub address_sizes: AddressSizes,
    pub power_management: Option<Seq<u8>>,
}

/// The back half of a record: its last fourteen field lines in order.
#[verifier::opaque]
pub open spec fn spec_parse_cpu_tail(s: Seq<u8>, pos: int) -> Option<(CpuTailV, int)> {
    match spec_apicid(s, pos) {
        None => None,
        Some((apicid, p)) => {
        match spec_initial_apicid(s, p) {
            None => None,
            Some((initial_apicid, p)) => {
            match spec_fpu(s, p) {
                None => None,
                Some((fpu, p)) => {
                match spec_fpu_exception(s, p) {
                    None => None,
                    Some((fpu_exception, p)) => {
                    match spec_cpuid_level(s, p) {
                        None => None,
                        Some((cpuid_level, p)) => {
                        match spec_wp(s, p) {
                            None => None,
                            Some((wp, p)) => {
                            match spec_flags(s, p) {
                                None => None,
                                Some((flags, p)) => {
                                match spec_vmx_flags(s, p) {
                                    None => None,
                                    Some((vmx_flags, p)) => {
                                    match spec_bugs(s, p) {
                                        None => None,
                                        Some((bugs, p)) => {
                                        match spec_bogomips(s, p) {
                                            None => None,
                                            Some((bogomips, p)) => {
                                            match spec_clflush_size(s, p) {
                                                None => None,
                                                Some((clflush_size, p)) => {
                                                match spec_cache_alignment(s, p) {
                                                    None => None,
                                                    Some((cache_alignment, p)) => {
                                                    match spec_address_sizes(s, p) {
                                                        None => None,
                                                        Some((address_sizes, p)) => {
                                                        match spec_power_management(s, p) {
                                                            None => None,
                                                            Some((power_management, p)) => {
                                                                Some((CpuTailV {
                                                                    apicid,
                                                                    initial_apicid,
                                                                    fpu,
                                                                    fpu_exception,
                                                                    cpuid_level,
                                                                    wp,
                                                                    flags,
                                                                    vmx_flags,
                                                                    bugs,
                                                                    bogomips,
                                                                    clflush_size,
                                                                    cache_alignment,
                                                                    address_sizes: AddressSizes { physical_size: address_sizes.0, virtual_size: address_sizes.1 },
                                                                    power_management,
                                                                }, p))
                                                            },
                                                        }
                                                        },
                                                    }
                                                    },
                                                }
                                                },
                                            }
                                            },
                                        }
                                        },
                                    }
                                    },
                                }
                                },
                            }
                            },
                        }
                        },
                    }
                    },
                }
                },
            }
            },
        }
        },
    }
}

/// One whole record: every field line in the fixed order — the first
/// thirteen, then the back half.
#[verifier::opaque]
pub open spec fn spec_parse_cpu(s: Seq<u8>, pos: int) -> Option<(CpuV, int)> {
    match spec_processor(s, pos) {
        None => None,
        Some((processor, p)) => {
        match spec_vendor_id(s, p) {
            None => None,
            Some((vendor_id, p)) => {
            match spec_cpu_family(s, p) {
                None => None,
                Some((cpu_family, p)) => {
                match spec_model(s, p) {
                    None => None,
                    Some((model, p)) => {
                    match spec_model_name(s, p) {
                        None => None,
                        Some((model_name, p)) => {
                        match spec_stepping(s, p) {
                            None => None,
                            Some((stepping, p)) => {
                            match spec_microcode(s, p) {
                                None => None,
                                Some((microcode, p)) => {
                                match spec_cpu_mhz(s, p) {
                                    None => None,
                                    Some((cpu_mhz, p)) => {
                                    match spec_cache_size(s, p) {
                                        None => None,
                                        Some((cache_size, p)) => {
                                        match spec_physical_id(s, p) {
                                            None => None,
                                            Some((physical_id, p)) => {
                                            match spec_siblings(s, p) {
                                                None => None,
                                                Some((siblings, p)) => {
                                                match spec_core_id(s, p) {
                                                    None => None,
                                                    Some((core_id, p)) => {
                                                    match spec_cpu_cores(s, p) {
                                                        None => None,
                                                        Some((cpu_cores, p)) => {
                                                            match spec_parse_cpu_tail(s, p) {
                                                                None => None,
                                                                Some((t, end)) => Some((CpuV {
                                                                    processor,
                                                                    vendor_id,
                                                                    cpu_family,
                                                                    model,
                                                                    model_name,
                                                                    stepping,
                                                                    microcode,
                                                                    cpu_mhz,
                                                                    cache_size,
                                                                    physical_id,
                                                                    siblings,
                                                                    core_id,
                                                                    cpu_cores,
                                                                    apicid: t.apicid,
                                                                    initial_apicid: t.initial_apicid,
                                                                    fpu: t.fpu,
                                                                    fpu_exception: t.fpu_exception,
                                                                    cpuid_level: t.cpuid_level,
                                                                    wp: t.wp,
                                                                    flags: t.flags,
                                                                    vmx_flags: t.vmx_flags,
                                                                    bugs: t.bugs,
                                                                    bogomips: t.bogomips,
                                                                    clflush_size: t.clflush_size,
                                                                    cache_alignment: t.cache_alignment,
                                                                    address_sizes: t.address_sizes,
                                                                    power_management: t.power_management,
                                                                }, end)),
                                                            }
                                                        },
                                                    }
                                                    },
                                                }
                                                },
                                            }
                                            },
                                        }
                                        },
                                    }
                                    },
                                }
                                },
                            }
                            },
                        }
                        },
                    }
                    },
                }
                },
            }
            },
        }
        },
    }
}

/// Parses one whole record at `pos`: every field line in the fixed order,
/// failing at the first line that does not match.
#[verifier::rlimit(100)]
pub fn cpu(s: &[u8], pos: usize) -> (r: Option<(Cpu, usize)>)
    requires
        pos <= s.len(),
    ensures
        match r {
            Some((c, e)) => spec_parse_cpu(s@, pos as int) == Some((c@, e as int)) && pos
                < e <= s.len(),
            None => spec_parse_cpu(s@, pos as int) is None,
        },
{
    proof {
        reveal(spec_parse_cpu);
        reveal(spec_parse_cpu_tail);
    }
    let (processor, p) = match fields::processor(s, pos) {
        Some(x) => x,
        None => {
            return None;
        },
    };
    let (vendor_id, p) = match fields::vendor_id(s, p) {
        Some(x) => x,
        None => {
            return None;
        },
    };
    let (cpu_family, p) = match fields::cpu_family(s, p) {
        Some(x) => x,
        None => {
            return None;
        },
    };
    let (model, p) = match fields::model(s, p) {
        Some(x) => x,
        None => {
            return None;
        },
    };
    let (model_name, p) = match fields::model_name(s, p) {
        Some(x) => x,
        None => {
            return None;
        },
    };
    let (stepping, p) = match fields::stepping(s, p) {
        Some(x) => x,
        None => {
            return None;
        },
    };
    let (microcode, p) = match fields::microcode(s, p) {
        Some(x) => x,
        None => {
            return None;
        },
    };
    let (cpu_mhz, p) = match fields::cpu_mhz(s, p) {
        Some(x) => x,
        None => {
            return None;
        },
    };
    let (cache_size, p) = match fields::cache_size(s, p) {
        Some(x) => x,
        None => {
            return None;
        },
    };
    let (physical_id, p) = match fields::physical_id(s, p) {
        Some(x) => x,
        None => {
            return None;
        },
    };
    let (siblings, p) = match fields::siblings(s, p) {
        Some(x) => x,
        None => {
            return None;
        },
    };
    let (core_id, p) = match fields::core_id(s, p) {
        Some(x) => x,
        None => {
            return None;
        },
    };
    let (cpu_cores, p) = match fields::cpu_cores(s, p) {
        Some(x) => x,
        None => {
            return None;
        },
    };
    let (apicid, p) = match fields::apicid(s, p) {
        Some(x) => x,
        None => {
            return None;
        },
    };
    let (initial_apicid, p) = match fields::initial_apicid(s, p) {
        Some(x) => x,
        None => {
            return None;
        },
    };
    let (fpu, p) = match fields::fpu(s, p) {
        Some(x) => x,
        None => {
            return None;
        },
    };
    let (fpu_exception, p) = match fields::fpu_exception(s, p) {
        Some(x) => x,
        None => {
            return None;
        },
    };
    let (cpuid_level, p) = match fields::cpuid_level(s, p) {
        Some(x) => x,
        None => {
            return None;
        },
    };
    let (wp, p) = match fields::wp(s, p) {
        Some(x) => x,
        None => {
            return None;
        },
    };
    let (flags, p) = match fields::flags(s, p) {
        Some(x) => x,
        None => {
            return None;
        },
    };
    let (vmx_flags, p) = match fields::vmx_flags(s, p) {
        Some(x) => x,
        None => {
            return None;
        },
    };
    let (bugs, p) = match fields::bugs(s, p) {
        Some(x) => x,
        None => {
            return None;
        },
    };
    let (bogomips, p) = match fields::bogomips(s, p) {
        Some(x) => x,
        None => {
            return None;
        },
    };
    let (clflush_size, p) = match fields::clflush_size(s, p) {
        Some(x) => x,
        None => {
            return None;
        },
    };
    let (cache_alignment, p) = match fields::cache_alignment(s, p) {
        Some(x) => x,
        None => {
            return None;
        },
    };
    let (address_sizes, p) = match fields::address_sizes(s, p) {
        Some(x) => x,
        None => {
            return None;
        },
    };
    let (power_management, p) = match fields::power_management(s, p) {
        Some(x) => x,
        None => {
            return None;
        },
    };
    let c = Cpu {
        processor,
        vendor_id,
        cpu_family,
        model,
        model_name,
        stepping,
        microcode,
        cpu_mhz,
        cache_size,
        physical_id,
        siblings,
        core_id,
        cpu_cores,
        apicid,
        initial_apicid,
        fpu,
        fpu_exception,
        cpuid_level,
        wp,
        flags,
        vmx_flags,
        bugs,
        bogomips,
        clflush_size,
        cache_alignment,
        address_sizes,
        power_management,
    };
    Some((c, p))
}

/// One or more records separated by single blank lines. A blank line is
/// consumed only when another whole record follows it. The guard on the
/// recursion is always true where a record was just parsed; it keeps the
/// definition total.
pub open spec fn spec_parse_cpus(s: Seq<u8>, pos: int) -> Option<(Seq<CpuV>, int)>
    decreases s.len() - pos,
{
    match spec_parse_cpu(s, pos) {
        None => None,
        Some((c, p1)) => match spec_line_ending(s, p1) {
            None => Some((seq![c], p1)),
            Some(p2) => {
                if pos < p2 <= s.len() {
                    match spec_parse_cpus(s, p2) {
                        None => Some((seq![c], p1)),
                        Some((rest, p3)) => Some((seq![c] + rest, p3)),
                    }
                } else {
                    Some((seq![c], p1))
                }
            },
        },
    }
}

/// Parses one or more blank-line-separated records at `pos`. A blank line is
/// consumed only when another whole record follows it; the returned position
/// is just past the last record.
pub fn cpus(s: &[u8], pos: usize) -> (r: Option<(Vec<Cpu>, usize)>)
    requires
        pos <= s.len(),
    ensures
        match r {
            Some((cs, e)) => spec_parse_cpus(s@, pos as int) == Some((cs.deep_view(), e as int))
                && pos < e <= s.len() && cs.len() >= 1,
            None => spec_parse_cpus(s@, pos as int) is None,
        },
    decreases s.len() - pos,
{
    match cpu(s, pos) {
        None => None,
        Some((c, p1)) => {
            let ghost cv = c@;
            match line_ending_at(s, p1) {
                None => {
                    let mut v: Vec<Cpu> = Vec::new();
                    v.push(c);
                    proof {
                        assert(v.deep_view() =~= seq![cv]);
                    }
                    Some((v, p1))
                },
                Some(p2) => {
                    match cpus(s, p2) {
                        None => {
                            let mut v: Vec<Cpu> = Vec::new();
                            v.push(c);
                            proof {
                                assert(v.deep_view() =~= seq![cv]);
                            }
                            Some((v, p1))
                        },
                        Some((mut rest, p3)) => {
                            let ghost rv = rest.deep_view();
                            rest.insert(0, c);
                            proof {
                                assert(rest.deep_view() =~= seq![cv] + rv);
                            }
                            Some((rest, p3))
                        },
                    }
                },
            }
        },
    }
}

} // verus!
