//! CPU identification from the results of the CPUID instruction.

use vstd::prelude::*;
use vstd::string::StringSliceAdditionalSpecFns;
use crate::util::push_str;

verus! {

/// The four registers that CPUID returns.
#[derive(Debug, Clone, Copy)]
pub struct CpuidResult {
    pub eax: u32,
    pub ebx: u32,
    pub ecx: u32,
    pub edx: u32,
}

/// CPU vendor.
#[derive(Debug, Clone, Copy, PartialEq, Eq, Structural)]
pub enum CpuVendor {
    Intel,
    AMD,
    Unknown,
}

/// The four bytes of a register, least significant first.
pub open spec fn reg_bytes(r: u32) -> Seq<u8> {
    seq![(r & 0xFF) as u8, ((r >> 8) & 0xFF) as u8, ((r >> 16) & 0xFF) as u8, ((r >> 24) & 0xFF) as u8]
}

/// The 12-byte vendor string of leaf 0: EBX, EDX, then ECX.
pub open spec fn vendor_string(r: CpuidResult) -> Seq<u8> {
    reg_bytes(r.ebx) + reg_bytes(r.edx) + reg_bytes(r.ecx)
}

/// "GenuineIntel".
pub open spec fn intel_id() -> Seq<u8> {
    seq![71u8, 101, 110, 117, 105, 110, 101, 73, 110, 116, 101, 108]
}

/// "AuthenticAMD".
pub open spec fn amd_id() -> Seq<u8> {
    seq![65u8, 117, 116, 104, 101, 110, 116, 105, 99, 65, 77, 68]
}

/// The vendor that a leaf-0 result names.
pub open spec fn vendor_of(r: CpuidResult) -> CpuVendor {
    if vendor_string(r) == intel_id() {
        CpuVendor::Intel
    } else if vendor_string(r) == amd_id() {
        CpuVendor::AMD
    } else {
        CpuVendor::Unknown
    }
}

fn push_reg(v: &mut Vec<u8>, r: u32)
    ensures
        final(v)@ == old(v)@ + reg_bytes(r),
{
    v.push((r & 0xFF) as u8);
    v.push(((r >> 8) & 0xFF) as u8);
    v.push(((r >> 16) & 0xFF) as u8);
    v.push(((r >> 24) & 0xFF) as u8);
    assert(v@ =~= old(v)@ + reg_bytes(r));
}

fn same_bytes(a: &Vec<u8>, b: &[u8]) -> (eq: bool)
    ensures
        eq == (a@ == b@),
{
    if a.len() != b.len() {
        return false;
    }
    let mut i: usize = 0;
    while i < a.len()
        invariant
            a@.len() == b@.len(),
            i <= a@.len(),
            forall|j: int| 0 <= j < i ==> a@[j] == b@[j],
        decreases a@.len() - i,
    {
        if a[i] != b[i] {
            return false;
        }
        i = i + 1;
    }
    assert(a@ =~= b@);
    true
}

/// The vendor named by the result of CPUID leaf 0.
pub fn get_vendor(result: CpuidResult) -> (v: CpuVendor)
    ensures
        v == vendor_of(result),
{
    let mut id: Vec<u8> = Vec::new();
    push_reg(&mut id, result.ebx);
    push_reg(&mut id, result.edx);
    push_reg(&mut id, result.ecx);
    let intel: [u8; 12] = [71, 101, 110, 117, 105, 110, 101, 73, 110, 116, 101, 108];
    let amd: [u8; 12] = [65, 117, 116, 104, 101, 110, 116, 105, 99, 65, 77, 68];
    assert(intel@ =~= intel_id());
    assert(amd@ =~= amd_id());
    if same_bytes(&id, intel.as_slice()) {
        CpuVendor::Intel
    } else if same_bytes(&id, amd.as_slice()) {
        CpuVendor::AMD
    } else {
        CpuVendor::Unknown
    }
}

/// Whether bit `n` of `bits` is set.
pub open spec fn bit_set(bits: u32, n: u32) -> bool {
    bits & (1u32 << n) != 0
}

/// Feature flags of CPUID leaf 1, EDX.
pub struct CpuFeatures {
    pub bits: u32,
}

impl CpuFeatures {
    /// The features in the EDX of a leaf-1 result.
    pub fn detect(result: CpuidResult) -> (f: CpuFeatures)
        ensures
            f.bits == result.edx,
    {
        CpuFeatures { bits: result.edx }
    }

    /// x87 FPU on chip.
    pub fn has_fpu(&self) -> (b: bool)
        ensures
            b == bit_set(self.bits, 0),
    {
        self.bits & (1 << 0) != 0
    }

    /// Page size extension.
    pub fn has_pse(&self) -> (b: bool)
        ensures
            b == bit_set(self.bits, 3),
    {
        self.bits & (1 << 3) != 0
    }

    /// Time stamp counter.
    pub fn has_tsc(&self) -> (b: bool)
        ensures
            b == bit_set(self.bits, 4),
    {
        self.bits & (1 << 4) != 0
    }

    /// Model specific registers.
    pub fn has_msr(&self) -> (b: bool)
        ensures
            b == bit_set(self.bits, 5),
    {
        self.bits & (1 << 5) != 0
    }

    /// Physical address extension.
    pub fn has_pae(&self) -> (b: bool)
        ensures
            b == bit_set(self.bits, 6),
    {
        self.bits & (1 << 6) != 0
    }

    /// On-chip APIC.
    pub fn has_apic(&self) -> (b: bool)
        ensures
            b == bit_set(self.bits, 9),
    {
        self.bits & (1 << 9) != 0
    }

    /// SYSENTER and SYSEXIT.
    pub fn has_sep(&self) -> (b: bool)
        ensures
            b == bit_set(self.bits, 11),
    {
        self.bits & (1 << 11) != 0
    }

    /// Page global enable.
    pub fn has_pge(&self) -> (b: bool)
        ensures
            b == bit_set(self.bits, 13),
    {
        self.bits & (1 << 13) != 0
    }

    /// Page attribute table.
    pub fn has_pat(&self) -> (b: bool)
        ensures
            b == bit_set(self.bits, 16),
    {
        self.bits & (1 << 16) != 0
    }

    /// MMX.
    pub fn has_mmx(&self) -> (b: bool)
        ensures
            b == bit_set(self.bits, 23),
    {
        self.bits & (1 << 23) != 0
    }

    /// SSE.
    pub fn has_sse(&self) -> (b: bool)
        ensures
            b == bit_set(self.bits, 25),
    {
        self.bits & (1 << 25) != 0
    }

    /// SSE2.
    pub fn has_sse2(&self) -> (b: bool)
        ensures
            b == bit_set(self.bits, 26),
    {
        self.bits & (1 << 26) != 0
    }
}

/// Feature flags of CPUID leaf 1, ECX.
pub struct ExtendedCpuFeatures {
    pub bits: u32,
}

impl ExtendedCpuFeatures {
    /// The features in the ECX of a leaf-1 result.
    pub fn detect(result: CpuidResult) -> (f: ExtendedCpuFeatures)
        ensures
            f.bits == result.ecx,
    {
        ExtendedCpuFeatures { bits: result.ecx }
    }

    /// SSE3.
    pub fn has_sse3(&self) -> (b: bool)
        ensures
            b == bit_set(self.bits, 0),
    {
        self.bits & (1 << 0) != 0
    }

    /// Supplemental SSE3.
    pub fn has_ssse3(&self) -> (b: bool)
        ensures
            b == bit_set(self.bits, 9),
    {
        self.bits & (1 << 9) != 0
    }

    /// SSE4.1.
    pub fn has_sse4_1(&self) -> (b: bool)
        ensures
            b == bit_set(self.bits, 19),
    {
        self.bits & (1 << 19) != 0
    }

    /// SSE4.2.
    pub fn has_sse4_2(&self) -> (b: bool)
        ensures
            b == bit_set(self.bits, 20),
    {
        self.bits & (1 << 20) != 0
    }

    /// AVX.
    pub fn has_avx(&self) -> (b: bool)
        ensures
            b == bit_set(self.bits, 28),
    {
        self.bits & (1 << 28) != 0
    }

    /// x2APIC.
    pub fn has_x2apic(&self) -> (b: bool)
        ensures
            b == bit_set(self.bits, 21),
    {
        self.bits & (1 << 21) != 0
    }
}

/// `name` if `present`, else nothing.
pub open spec fn flag_text(present: bool, name: Seq<u8>) -> Seq<u8> {
    if present { name } else { Seq::empty() }
}

/// The vendor line of the CPU report.
pub open spec fn vendor_line(v: CpuVendor) -> Seq<u8> {
    match v {
        CpuVendor::Intel => "  Vendor: Intel\n".spec_bytes(),
        CpuVendor::AMD => "  Vendor: AMD\n".spec_bytes(),
        CpuVendor::Unknown => "  Vendor: Unknown\n".spec_bytes(),
    }
}

/// The leaf-1 EDX part of the feature list: each present feature's name and a space.
pub open spec fn edx_feature_text(edx: u32) -> Seq<u8> {
    edx_base_text(edx) + edx_simd_text(edx)
}

/// FPU, TSC, MSR and PAE, as far as present.
pub open spec fn edx_base_text(edx: u32) -> Seq<u8> {
    flag_text(bit_set(edx, 0), "FPU ".spec_bytes())
        + flag_text(bit_set(edx, 4), "TSC ".spec_bytes())
        + flag_text(bit_set(edx, 5), "MSR ".spec_bytes())
        + flag_text(bit_set(edx, 6), "PAE ".spec_bytes())
}

/// APIC, SSE and SSE2, as far as present.
pub open spec fn edx_simd_text(edx: u32) -> Seq<u8> {
    flag_text(bit_set(edx, 9), "APIC ".spec_bytes())
        + flag_text(bit_set(edx, 25), "SSE ".spec_bytes())
        + flag_text(bit_set(edx, 26), "SSE2 ".spec_bytes())
}

/// The leaf-1 ECX part of the feature list.
pub open spec fn ecx_feature_text(ecx: u32) -> Seq<u8> {
    flag_text(bit_set(ecx, 0), "SSE3 ".spec_bytes())
        + flag_text(bit_set(ecx, 9), "SSSE3 ".spec_bytes())
        + flag_text(bit_set(ecx, 19), "SSE4.1 ".spec_bytes())
        + flag_text(bit_set(ecx, 20), "SSE4.2 ".spec_bytes())
        + flag_text(bit_set(ecx, 28), "AVX ".spec_bytes())
}

/// The feature list of the CPU report: each present feature's name and a space.
pub open spec fn feature_text(edx: u32, ecx: u32) -> Seq<u8> {
    edx_feature_text(edx) + ecx_feature_text(ecx)
}

/// The CPU report for the results of leaves 0 and 1.
pub open spec fn cpu_info_text(leaf0: CpuidResult, leaf1: CpuidResult) -> Seq<u8> {
    "CPU Info:\n".spec_bytes() + vendor_line(vendor_of(leaf0)) + "  Features: ".spec_bytes()
        + feature_text(leaf1.edx, leaf1.ecx) + "\n".spec_bytes()
}

fn push_flag(out: &mut Vec<u8>, present: bool, name: &str)
    ensures
        final(out)@ == old(out)@ + flag_text(present, name.spec_bytes()),
{
    if present {
        push_str(out, name);
    } else {
        assert(old(out)@ + Seq::<u8>::empty() =~= old(out)@);
    }
}

fn push_edx_base(out: &mut Vec<u8>, features: &CpuFeatures)
    ensures
        final(out)@ == old(out)@ + edx_base_text(features.bits),
{
    let ghost o = out@;
    push_flag(out, features.has_fpu(), "FPU ");
    push_flag(out, features.has_tsc(), "TSC ");
    push_flag(out, features.has_msr(), "MSR ");
    push_flag(out, features.has_pae(), "PAE ");
    assert(out@ =~= o + edx_base_text(features.bits));
}

fn push_edx_simd(out: &mut Vec<u8>, features: &CpuFeatures)
    ensures
        final(out)@ == old(out)@ + edx_simd_text(features.bits),
{
    let ghost o = out@;
    push_flag(out, features.has_apic(), "APIC ");
    push_flag(out, features.has_sse(), "SSE ");
    push_flag(out, features.has_sse2(), "SSE2 ");
    assert(out@ =~= o + edx_simd_text(features.bits));
}

fn push_edx_features(out: &mut Vec<u8>, features: &CpuFeatures)
    ensures
        final(out)@ == old(out)@ + edx_feature_text(features.bits),
{
    let ghost o = out@;
    push_edx_base(out, features);
    push_edx_simd(out, features);
    assert(out@ =~= o + edx_feature_text(features.bits));
}

fn push_ecx_features(out: &mut Vec<u8>, features: &ExtendedCpuFeatures)
    ensures
        final(out)@ == old(out)@ + ecx_feature_text(features.bits),
{
    let ghost o = out@;
    push_flag(out, features.has_sse3(), "SSE3 ");
    push_flag(out, features.has_ssse3(), "SSSE3 ");
    push_flag(out, features.has_sse4_1(), "SSE4.1 ");
    push_flag(out, features.has_sse4_2(), "SSE4.2 ");
    push_flag(out, features.has_avx(), "AVX ");
    assert(out@ =~= o + ecx_feature_text(features.bits));
}

/// Write the CPU report for the results of CPUID leaves 0 and 1 to the serial output
/// `out`.
pub fn print_cpu_info(leaf0: CpuidResult, leaf1: CpuidResult, out: &mut Vec<u8>)
    ensures
        final(out)@ == old(out)@ + cpu_info_text(leaf0, leaf1),
{
    let vendor = get_vendor(leaf0);
    let features = CpuFeatures::detect(leaf1);
    let ext_features = ExtendedCpuFeatures::detect(leaf1);
    push_str(out, "CPU Info:\n");
    match vendor {
        CpuVendor::Intel => push_str(out, "  Vendor: Intel\n"),
        CpuVendor::AMD => push_str(out, "  Vendor: AMD\n"),
        CpuVendor::Unknown => push_str(out, "  Vendor: Unknown\n"),
    }
    push_str(out, "  Features: ");
    let ghost mid = out@;
    push_edx_features(out, &features);
    push_ecx_features(out, &ext_features);
    assert(out@ =~= mid + feature_text(leaf1.edx, leaf1.ecx));
    push_str(out, "\n");
    assert(out@ =~= old(out)@ + cpu_info_text(leaf0, leaf1));
}

} // verus!
