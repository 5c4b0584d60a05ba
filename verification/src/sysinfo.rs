//! System information for the shell: what the kernel reports about itself, and its
//! human-readable formatting.

use vstd::prelude::*;
use vstd::string::StringSliceAdditionalSpecFns;
use crate::arch::cpuid::{bit_set, CpuidResult};
use crate::arch::pit::{uptime_secs, Timer};
use crate::fmt::{decimal_bytes, digit, digits_rev, lemma_u64_digits, push_decimal, truncated, write_truncated};
use crate::mem::frame_allocator::{stats, FrameAllocator, FRAME_SIZE};
use crate::util::{ascii_chars, is_ascii_bytes};

verus! {

/// What `fetch` and the other information commands show.
pub struct SystemInfo {
    pub os_name: &'static str,
    pub os_version: &'static str,
    pub kernel_version: &'static str,
    pub uptime_seconds: u64,
    pub cpu_vendor: &'static str,
    pub cpu_features: CpuFeatures,
    pub memory_total: usize,
    pub memory_allocated: usize,
    pub memory_free: usize,
}

/// CPU feature flags.
#[derive(Debug, Clone, Copy)]
pub struct CpuFeatures {
    pub fpu: bool,
    pub tsc: bool,
    pub sse: bool,
    pub sse2: bool,
    pub sse3: bool,
    pub sse4_1: bool,
    pub sse4_2: bool,
    pub avx: bool,
    pub avx2: bool,
}

/// Add a feature name to a space-separated list when the feature is present.
pub open spec fn join_step(prev: Seq<u8>, present: bool, name: Seq<u8>) -> Seq<u8> {
    if !present {
        prev
    } else if prev.len() > 0 {
        prev.push(32) + name
    } else {
        name
    }
}

/// The names of the present features, separated by single spaces, in the order FPU,
/// TSC, SSE, SSE2, SSE3, SSE4.1, SSE4.2, AVX, AVX2.
pub open spec fn features_text(f: CpuFeatures) -> Seq<u8> {
    let t1 = join_step(Seq::empty(), f.fpu, seq![70u8, 80, 85]);
    let t2 = join_step(t1, f.tsc, seq![84u8, 83, 67]);
    let t3 = join_step(t2, f.sse, seq![83u8, 83, 69]);
    let t4 = join_step(t3, f.sse2, seq![83u8, 83, 69, 50]);
    let t5 = join_step(t4, f.sse3, seq![83u8, 83, 69, 51]);
    let t6 = join_step(t5, f.sse4_1, seq![83u8, 83, 69, 52, 46, 49]);
    let t7 = join_step(t6, f.sse4_2, seq![83u8, 83, 69, 52, 46, 50]);
    let t8 = join_step(t7, f.avx, seq![65u8, 86, 88]);
    join_step(t8, f.avx2, seq![65u8, 86, 88, 50])
}

fn push_feature(out: &mut Vec<u8>, present: bool, name: &[u8])
    requires
        is_ascii_bytes(old(out)@),
        is_ascii_bytes(name@),
    ensures
        final(out)@ == join_step(old(out)@, present, name@),
        is_ascii_bytes(final(out)@),
{
    if present {
        if out.len() > 0 {
            out.push(32);
        }
        let mut i: usize = 0;
        let ghost start = out@;
        while i < name.len()
            invariant
                out@ == start + name@.subrange(0, i as int),
                is_ascii_bytes(start),
                is_ascii_bytes(name@),
                i <= name@.len(),
            decreases name@.len() - i,
        {
            out.push(name[i]);
            assert(name@.subrange(0, i + 1) =~= name@.subrange(0, i as int).push(name@[i as int]));
            i = i + 1;
        }
        assert(name@.subrange(0, name@.len() as int) =~= name@);
        assert(out@ =~= join_step(old(out)@, present, name@));
    }
}

impl CpuFeatures {
    /// The names of the present features, separated by spaces, cut to the length of
    /// `buf`, written at its start.
    pub fn as_string<'a>(&self, buf: &'a mut [u8]) -> (s: &'a str)
        ensures
            final(buf)@.len() == old(buf)@.len(),
            final(buf)@.subrange(0, truncated(features_text(*self), old(buf)@.len() as int).len() as int)
                == truncated(features_text(*self), old(buf)@.len() as int),
            forall|j: int| truncated(features_text(*self), old(buf)@.len() as int).len() <= j < old(buf)@.len()
                ==> final(buf)@[j] == old(buf)@[j],
            s@ == ascii_chars(truncated(features_text(*self), old(buf)@.len() as int)),
        s.spec_bytes() == truncated(features_text(*self), old(buf)@.len() as int),
    {
        let mut full: Vec<u8> = Vec::new();
        let fpu: [u8; 3] = [70, 80, 85];
        let tsc: [u8; 3] = [84, 83, 67];
        let sse: [u8; 3] = [83, 83, 69];
        let sse2: [u8; 4] = [83, 83, 69, 50];
        let sse3: [u8; 4] = [83, 83, 69, 51];
        let sse4_1: [u8; 6] = [83, 83, 69, 52, 46, 49];
        let sse4_2: [u8; 6] = [83, 83, 69, 52, 46, 50];
        let avx: [u8; 3] = [65, 86, 88];
        let avx2: [u8; 4] = [65, 86, 88, 50];
        proof {
            assert(fpu@ =~= seq![70u8, 80, 85]);
            assert(tsc@ =~= seq![84u8, 83, 67]);
            assert(sse@ =~= seq![83u8, 83, 69]);
            assert(sse2@ =~= seq![83u8, 83, 69, 50]);
            assert(sse3@ =~= seq![83u8, 83, 69, 51]);
            assert(sse4_1@ =~= seq![83u8, 83, 69, 52, 46, 49]);
            assert(sse4_2@ =~= seq![83u8, 83, 69, 52, 46, 50]);
            assert(avx@ =~= seq![65u8, 86, 88]);
            assert(avx2@ =~= seq![65u8, 86, 88, 50]);
        }
        push_feature(&mut full, self.fpu, fpu.as_slice());
        push_feature(&mut full, self.tsc, tsc.as_slice());
        push_feature(&mut full, self.sse, sse.as_slice());
        push_feature(&mut full, self.sse2, sse2.as_slice());
        push_feature(&mut full, self.sse3, sse3.as_slice());
        push_feature(&mut full, self.sse4_1, sse4_1.as_slice());
        push_feature(&mut full, self.sse4_2, sse4_2.as_slice());
        push_feature(&mut full, self.avx, avx.as_slice());
        push_feature(&mut full, self.avx2, avx2.as_slice());
        write_truncated(buf, &full)
    }
}

/// The features that a CPUID leaf-1 result shows; AVX2 is not looked up.
pub open spec fn features_of(r: CpuidResult) -> CpuFeatures {
    CpuFeatures {
        fpu: bit_set(r.edx, 0),
        tsc: bit_set(r.edx, 4),
        sse: bit_set(r.edx, 25),
        sse2: bit_set(r.edx, 26),
        sse3: bit_set(r.ecx, 0),
        sse4_1: bit_set(r.ecx, 19),
        sse4_2: bit_set(r.ecx, 20),
        avx: bit_set(r.ecx, 28),
        avx2: false,
    }
}

/// The system information: the CPU vendor string and the leaf-1 CPUID result, the
/// frame allocator's counts in bytes, and the uptime of `timer`.
pub fn get_system_info(cpu_vendor: &'static str, cpu_info: CpuidResult, frames: &FrameAllocator, timer: &Timer) -> (info: SystemInfo)
    requires
        frames.total_frames * FRAME_SIZE <= usize::MAX,
        frames.allocated_frames * FRAME_SIZE <= usize::MAX,
        timer.ticks * 10 <= u64::MAX,
    ensures
        info.os_name@ == "m5rOS"@,
        info.os_version@ == "0.2.0"@,
        info.kernel_version@ == "0.2.0-dev"@,
        info.uptime_seconds == timer.ticks * 10 / 1000,
        info.cpu_vendor == cpu_vendor,
        info.cpu_features == features_of(cpu_info),
        info.memory_total == frames.total_frames * FRAME_SIZE,
        info.memory_allocated == frames.allocated_frames * FRAME_SIZE,
        info.memory_free == (if frames.allocated_frames <= frames.total_frames {
            frames.total_frames - frames.allocated_frames
        } else {
            0
        }) * FRAME_SIZE,
{
    let cpu_features = CpuFeatures {
        fpu: cpu_info.edx & (1 << 0) != 0,
        tsc: cpu_info.edx & (1 << 4) != 0,
        sse: cpu_info.edx & (1 << 25) != 0,
        sse2: cpu_info.edx & (1 << 26) != 0,
        sse3: cpu_info.ecx & (1 << 0) != 0,
        sse4_1: cpu_info.ecx & (1 << 19) != 0,
        sse4_2: cpu_info.ecx & (1 << 20) != 0,
        avx: cpu_info.ecx & (1 << 28) != 0,
        avx2: false,
    };
    let (total_frames, allocated_frames, free_frames) = stats(frames);
    assert(free_frames * FRAME_SIZE <= total_frames * FRAME_SIZE) by (nonlinear_arith)
        requires free_frames <= total_frames;
    let memory_total = total_frames * FRAME_SIZE;
    let memory_allocated = allocated_frames * FRAME_SIZE;
    let memory_free = free_frames * FRAME_SIZE;
    let uptime_seconds = uptime_secs(timer);
    SystemInfo {
        os_name: "m5rOS",
        os_version: "0.2.0",
        kernel_version: "0.2.0-dev",
        uptime_seconds,
        cpu_vendor,
        cpu_features,
        memory_total,
        memory_allocated,
        memory_free,
    }
}

/// The value and unit letters that `format_size` shows for `bytes`: whole GiB, MiB or
/// KiB when at least one, else bytes.
pub open spec fn size_parts(bytes: usize) -> (usize, Seq<u8>) {
    if bytes >= 1073741824 {
        ((bytes / 1073741824) as usize, seq![71u8, 66])
    } else if bytes >= 1048576 {
        ((bytes / 1048576) as usize, seq![77u8, 66])
    } else if bytes >= 1024 {
        ((bytes / 1024) as usize, seq![75u8, 66])
    } else {
        (bytes, seq![66u8])
    }
}

/// The size text: the value, a space and the unit.
pub open spec fn size_text(bytes: usize) -> Seq<u8> {
    decimal_bytes(size_parts(bytes).0 as nat).push(32) + size_parts(bytes).1
}

/// Format a byte count for people, as "<n> GB", "<n> MB", "<n> KB" or "<n> B", cut to the
/// length of `buf` and written at its start.
pub fn format_size<'a>(bytes: usize, buf: &'a mut [u8]) -> (s: &'a str)
    ensures
        final(buf)@.len() == old(buf)@.len(),
        final(buf)@.subrange(0, truncated(size_text(bytes), old(buf)@.len() as int).len() as int)
            == truncated(size_text(bytes), old(buf)@.len() as int),
        forall|j: int| truncated(size_text(bytes), old(buf)@.len() as int).len() <= j < old(buf)@.len()
            ==> final(buf)@[j] == old(buf)@[j],
        s@ == ascii_chars(truncated(size_text(bytes), old(buf)@.len() as int)),
        s.spec_bytes() == truncated(size_text(bytes), old(buf)@.len() as int),
{
    let kb: usize = 1024;
    let mb: usize = kb * 1024;
    let gb: usize = mb * 1024;
    let mut full: Vec<u8> = Vec::new();
    let value: usize = if bytes >= gb {
        bytes / gb
    } else if bytes >= mb {
        bytes / mb
    } else if bytes >= kb {
        bytes / kb
    } else {
        bytes
    };
    proof {
        crate::fmt::lemma_u64_digits(value as u64);
    }
    push_decimal(&mut full, value as u64);
    full.push(32);
    if bytes >= gb {
        full.push(71);
        full.push(66);
    } else if bytes >= mb {
        full.push(77);
        full.push(66);
    } else if bytes >= kb {
        full.push(75);
        full.push(66);
    } else {
        full.push(66);
    }
    proof {
        assert(full@ =~= size_text(bytes));
        assert(is_ascii_bytes(full@));
    }
    write_truncated(buf, &full)
}

/// Two ASCII digits for the tens and ones of `v`, the tens taken modulo 256 as a byte.
pub open spec fn two_digits(v: u64) -> Seq<u8> {
    seq![(48 + ((v / 10) as u8)) as u8, digit((v % 10) as int)]
}

/// The hours of an uptime in decimal, at least two digits.
pub open spec fn hour_digits(hours: u64) -> Seq<u8> {
    if hours < 10 { seq![48u8] + decimal_bytes(hours as nat) } else { decimal_bytes(hours as nat) }
}

/// The uptime text: "HH:MM:SS", the hours taking more digits past 99.
pub open spec fn uptime_text(seconds: u64) -> Seq<u8> {
    let hours = (seconds / 3600) as u64;
    let minutes = ((seconds % 3600) / 60) as u64;
    let secs = (seconds % 60) as u64;
    hour_digits(hours) + seq![58u8] + two_digits(minutes) + seq![58u8] + two_digits(secs)
}

fn push_two_digits(out: &mut Vec<u8>, v: u64)
    requires
        ((v / 10) as u8) < 80,
        is_ascii_bytes(old(out)@),
    ensures
        final(out)@ == old(out)@ + two_digits(v),
        is_ascii_bytes(final(out)@),
{
    let tens = (v / 10) as u8;
    let ones = (v % 10) as u8;
    out.push(48 + tens);
    out.push(48 + ones);
    assert(final(out)@ =~= old(out)@ + two_digits(v));
}

/// Format an uptime in seconds as "HH:MM:SS", cut to the length of `buf` and written
/// at its start.
pub fn format_uptime<'a>(seconds: u64, buf: &'a mut [u8]) -> (s: &'a str)
    ensures
        final(buf)@.len() == old(buf)@.len(),
        final(buf)@.subrange(0, truncated(uptime_text(seconds), old(buf)@.len() as int).len() as int)
            == truncated(uptime_text(seconds), old(buf)@.len() as int),
        forall|j: int| truncated(uptime_text(seconds), old(buf)@.len() as int).len() <= j < old(buf)@.len()
            ==> final(buf)@[j] == old(buf)@[j],
        s@ == ascii_chars(truncated(uptime_text(seconds), old(buf)@.len() as int)),
        s.spec_bytes() == truncated(uptime_text(seconds), old(buf)@.len() as int),
{
    let hours = seconds / 3600;
    let minutes = (seconds % 3600) / 60;
    let secs = seconds % 60;
    let mut full: Vec<u8> = Vec::new();
    if hours < 10 {
        full.push(48);
    }
    push_decimal(&mut full, hours);
    proof {
        lemma_u64_digits(hours);
        let d = decimal_bytes(hours as nat);
        assert forall|i: int| 0 <= i < d.len() implies #[trigger] d[i] < 128 by {
            assert(d[i] == digits_rev(hours as nat)[d.len() - 1 - i]);
        }
        assert(full@ =~= hour_digits(hours));
        assert forall|i: int| 0 <= i < full@.len() implies #[trigger] full@[i] < 128 by {
            if hours < 10 && i > 0 {
                assert(full@[i] == d[i - 1]);
            }
        }
    }
    full.push(58);
    assert(((minutes / 10) as u8) < 80 && ((secs / 10) as u8) < 80);
    push_two_digits(&mut full, minutes);
    full.push(58);
    push_two_digits(&mut full, secs);
    proof {
        assert(full@ =~= uptime_text(seconds));
    }
    write_truncated(buf, &full)
}

} // verus!
