//! CPU feature flags and the SIMD capability derived from them.
use vstd::prelude::*;

verus! {

/// CPU feature flags for SIMD optimization.
#[derive(Debug, Clone, Copy, PartialEq, Eq)]
pub struct CpuFeatures {
    /// SSE4.2 support.
    pub sse42: bool,
    /// AVX support.
    pub avx: bool,
    /// AVX2 support.
    pub avx2: bool,
    /// AVX-512F (foundation) support.
    pub avx512f: bool,
    /// AVX-512BW (byte/word) support.
    pub avx512bw: bool,
    /// AVX-512VL (vector length) support.
    pub avx512vl: bool,
    /// POPCNT instruction support.
    pub popcnt: bool,
    /// BMI1 support.
    pub bmi1: bool,
    /// BMI2 support.
    pub bmi2: bool,
    /// LZCNT support.
    pub lzcnt: bool,
    /// AES-NI support.
    pub aesni: bool,
    /// PCLMULQDQ support.
    pub pclmulqdq: bool,
    /// NEON support (always on for AArch64).
    pub neon: bool,
    /// SVE support.
    pub sve: bool,
    /// SVE2 support.
    pub sve2: bool,
    /// AES support (ARM).
    pub aes_arm: bool,
    /// SHA1 support (ARM).
    pub sha1_arm: bool,
    /// SHA2 support (ARM).
    pub sha2_arm: bool,
    /// CRC32 support (ARM).
    pub crc32_arm: bool,
    /// Number of logical CPUs.
    pub cpu_count: usize,
    /// Cache line size (bytes).
    pub cache_line_size: usize,
}

/// Results of the runtime feature probes of an x86_64 CPU.
#[derive(Debug, Clone, Copy, PartialEq, Eq)]
pub struct X86Probe {
    pub sse42: bool,
    pub avx: bool,
    pub avx2: bool,
    pub avx512f: bool,
    pub avx512bw: bool,
    pub avx512vl: bool,
    pub popcnt: bool,
    pub bmi1: bool,
    pub bmi2: bool,
    pub lzcnt: bool,
    pub aes: bool,
    pub pclmulqdq: bool,
}

/// Results of the runtime feature probes of an AArch64 CPU.
#[derive(Debug, Clone, Copy, PartialEq, Eq)]
pub struct Aarch64Probe {
    pub sve: bool,
    pub sve2: bool,
    pub aes: bool,
    pub sha2: bool,
    pub crc: bool,
}

/// SIMD capability levels, from weakest to strongest in declaration order.
#[derive(Debug, Clone, Copy, PartialEq, Eq, PartialOrd, Ord, Hash)]
pub enum SimdCapability {
    /// No SIMD, scalar operations only.
    Scalar,
    /// SSE4.2 (128-bit).
    Sse42,
    /// AVX (256-bit float, 128-bit int).
    Avx,
    /// AVX2 (256-bit).
    Avx2,
    /// AVX-512 (512-bit).
    Avx512,
    /// ARM NEON (128-bit).
    Neon,
    /// ARM SVE (variable width).
    Sve,
    /// ARM SVE2.
    Sve2,
}

/// Position of a capability in the declaration order of `SimdCapability`.
pub open spec fn simd_rank(c: SimdCapability) -> int {
    match c {
        SimdCapability::Scalar => 0,
        SimdCapability::Sse42 => 1,
        SimdCapability::Avx => 2,
        SimdCapability::Avx2 => 3,
        SimdCapability::Avx512 => 4,
        SimdCapability::Neon => 5,
        SimdCapability::Sve => 6,
        SimdCapability::Sve2 => 7,
    }
}

/// Vector width in bits of a capability.
pub open spec fn simd_bits(c: SimdCapability) -> int {
    match c {
        SimdCapability::Scalar => 64,
        SimdCapability::Sse42 | SimdCapability::Neon => 128,
        SimdCapability::Avx | SimdCapability::Avx2 | SimdCapability::Sve => 256,
        SimdCapability::Avx512 | SimdCapability::Sve2 => 512,
    }
}

impl SimdCapability {
    /// Get the vector width in bits.
    pub fn vector_bits(self) -> (r: usize)
        ensures
            r == simd_bits(self),
    {
        match self {
            SimdCapability::Scalar => 64,
            SimdCapability::Sse42 | SimdCapability::Neon => 128,
            SimdCapability::Avx | SimdCapability::Avx2 | SimdCapability::Sve => 256,
            SimdCapability::Avx512 | SimdCapability::Sve2 => 512,
        }
    }

    /// Get the vector width in bytes.
    pub fn vector_bytes(self) -> (r: usize)
        ensures
            r == simd_bits(self) / 8,
    {
        self.vector_bits() / 8
    }

    /// Position of this capability in declaration order.
    fn rank(self) -> (r: u8)
        ensures
            r == simd_rank(self),
    {
        match self {
            SimdCapability::Scalar => 0,
            SimdCapability::Sse42 => 1,
            SimdCapability::Avx => 2,
            SimdCapability::Avx2 => 3,
            SimdCapability::Avx512 => 4,
            SimdCapability::Neon => 5,
            SimdCapability::Sve => 6,
            SimdCapability::Sve2 => 7,
        }
    }

    /// Check if this capability is at least as good as another, comparing
    /// positions in declaration order.
    pub fn is_at_least(self, other: Self) -> (r: bool)
        ensures
            r == (simd_rank(self) >= simd_rank(other)),
    {
        self.rank() >= other.rank()
    }

    /// Display name of the capability.
    pub fn name(&self) -> (r: &'static str)
        ensures
            r@ == simd_name(*self),
    {
        match self {
            SimdCapability::Scalar => "Scalar",
            SimdCapability::Sse42 => "SSE4.2",
            SimdCapability::Avx => "AVX",
            SimdCapability::Avx2 => "AVX2",
            SimdCapability::Avx512 => "AVX-512",
            SimdCapability::Neon => "NEON",
            SimdCapability::Sve => "SVE",
            SimdCapability::Sve2 => "SVE2",
        }
    }
}

/// Display name of a capability.
pub open spec fn simd_name(c: SimdCapability) -> Seq<char> {
    match c {
        SimdCapability::Scalar => "Scalar"@,
        SimdCapability::Sse42 => "SSE4.2"@,
        SimdCapability::Avx => "AVX"@,
        SimdCapability::Avx2 => "AVX2"@,
        SimdCapability::Avx512 => "AVX-512"@,
        SimdCapability::Neon => "NEON"@,
        SimdCapability::Sve => "SVE"@,
        SimdCapability::Sve2 => "SVE2"@,
    }
}

/// `is_at_least` is reflexive, transitive and total: it is a total preorder
/// on capabilities, and two capabilities at least as good as each other are equal.
pub proof fn lemma_is_at_least_total_order(a: SimdCapability, b: SimdCapability, c: SimdCapability)
    ensures
        simd_rank(a) >= simd_rank(a),
        simd_rank(a) >= simd_rank(b) && simd_rank(b) >= simd_rank(c) ==> simd_rank(a) >= simd_rank(c),
        simd_rank(a) >= simd_rank(b) || simd_rank(b) >= simd_rank(a),
        simd_rank(a) >= simd_rank(b) && simd_rank(b) >= simd_rank(a) ==> a == b,
{
}

/// The best capability of a set of feature flags.
pub open spec fn best_capability(f: CpuFeatures) -> SimdCapability {
    if f.avx512f && f.avx512bw && f.avx512vl {
        SimdCapability::Avx512
    } else if f.avx2 {
        SimdCapability::Avx2
    } else if f.sve2 {
        SimdCapability::Sve2
    } else if f.sve {
        SimdCapability::Sve
    } else if f.avx {
        SimdCapability::Avx
    } else if f.sse42 {
        SimdCapability::Sse42
    } else if f.neon {
        SimdCapability::Neon
    } else {
        SimdCapability::Scalar
    }
}

/// Cache line size assumed for the current target.
pub open spec fn default_cache_line() -> usize {
    64
}

impl CpuFeatures {
    /// Feature set of an x86_64 CPU from its probe results.
    pub fn detect_x86_64(cpu_count: usize, probe: X86Probe) -> (r: Self)
        ensures
            r.sse42 == probe.sse42 && r.avx == probe.avx && r.avx2 == probe.avx2,
            r.avx512f == probe.avx512f && r.avx512bw == probe.avx512bw && r.avx512vl == probe.avx512vl,
            r.popcnt == probe.popcnt && r.bmi1 == probe.bmi1 && r.bmi2 == probe.bmi2,
            r.lzcnt == probe.lzcnt && r.aesni == probe.aes && r.pclmulqdq == probe.pclmulqdq,
            !r.neon && !r.sve && !r.sve2 && !r.aes_arm && !r.sha1_arm && !r.sha2_arm && !r.crc32_arm,
            r.cpu_count == cpu_count,
            r.cache_line_size == Self::spec_detect_cache_line_size(false, false),
    {
        CpuFeatures {
            sse42: probe.sse42,
            avx: probe.avx,
            avx2: probe.avx2,
            avx512f: probe.avx512f,
            avx512bw: probe.avx512bw,
            avx512vl: probe.avx512vl,
            popcnt: probe.popcnt,
            bmi1: probe.bmi1,
            bmi2: probe.bmi2,
            lzcnt: probe.lzcnt,
            aesni: probe.aes,
            pclmulqdq: probe.pclmulqdq,
            neon: false,
            sve: false,
            sve2: false,
            aes_arm: false,
            sha1_arm: false,
            sha2_arm: false,
            crc32_arm: false,
            cpu_count,
            cache_line_size: Self::detect_cache_line_size(false, false),
        }
    }

    /// Feature set of an AArch64 CPU from its probe results; `macos` tells
    /// whether the target is macOS (Apple Silicon uses 128-byte cache lines).
    pub fn detect_aarch64(cpu_count: usize, probe: Aarch64Probe, macos: bool) -> (r: Self)
        ensures
            !r.sse42 && !r.avx && !r.avx2 && !r.avx512f && !r.avx512bw && !r.avx512vl,
            r.popcnt && !r.bmi1 && !r.bmi2 && r.lzcnt && !r.aesni && !r.pclmulqdq,
            r.neon && r.sve == probe.sve && r.sve2 == probe.sve2 && r.aes_arm == probe.aes,
            r.sha1_arm == probe.sha2 && r.sha2_arm == probe.sha2 && r.crc32_arm == probe.crc,
            r.cpu_count == cpu_count,
            r.cache_line_size == Self::spec_detect_cache_line_size(true, macos),
    {
        CpuFeatures {
            sse42: false,
            avx: false,
            avx2: false,
            avx512f: false,
            avx512bw: false,
            avx512vl: false,
            popcnt: true,
            bmi1: false,
            bmi2: false,
            lzcnt: true,
            aesni: false,
            pclmulqdq: false,
            neon: true,
            sve: probe.sve,
            sve2: probe.sve2,
            aes_arm: probe.aes,
            sha1_arm: probe.sha2,
            sha2_arm: probe.sha2,
            crc32_arm: probe.crc,
            cpu_count,
            cache_line_size: Self::detect_cache_line_size(true, macos),
        }
    }

    /// Feature set of a CPU of another architecture: no feature, 64-byte lines.
    pub fn default_features(cpu_count: usize) -> (r: Self)
        ensures
            !r.sse42 && !r.avx && !r.avx2 && !r.avx512f && !r.avx512bw && !r.avx512vl,
            !r.popcnt && !r.bmi1 && !r.bmi2 && !r.lzcnt && !r.aesni && !r.pclmulqdq,
            !r.neon && !r.sve && !r.sve2 && !r.aes_arm && !r.sha1_arm && !r.sha2_arm && !r.crc32_arm,
            r.cpu_count == cpu_count,
            r.cache_line_size == 64,
    {
        CpuFeatures {
            sse42: false,
            avx: false,
            avx2: false,
            avx512f: false,
            avx512bw: false,
            avx512vl: false,
            popcnt: false,
            bmi1: false,
            bmi2: false,
            lzcnt: false,
            aesni: false,
            pclmulqdq: false,
            neon: false,
            sve: false,
            sve2: false,
            aes_arm: false,
            sha1_arm: false,
            sha2_arm: false,
            crc32_arm: false,
            cpu_count,
            cache_line_size: 64,
        }
    }

    /// Cache line size: 128 bytes on AArch64 macOS, 64 bytes elsewhere.
    pub open spec fn spec_detect_cache_line_size(aarch64: bool, macos: bool) -> usize {
        if aarch64 && macos { 128 } else { 64 }
    }

    /// Cache line size: 128 bytes on AArch64 macOS (Apple Silicon), 64 elsewhere.
    pub fn detect_cache_line_size(aarch64: bool, macos: bool) -> (r: usize)
        ensures
            r == Self::spec_detect_cache_line_size(aarch64, macos),
    {
        if aarch64 && macos {
            128
        } else {
            64
        }
    }

    /// Check if any SIMD is available.
    pub fn has_simd(&self) -> (r: bool)
        ensures
            r == (self.sse42 || self.avx || self.avx2 || self.neon),
    {
        self.sse42 || self.avx || self.avx2 || self.neon
    }

    /// Check if wide SIMD (256-bit+) is available.
    pub fn has_wide_simd(&self) -> (r: bool)
        ensures
            r == (self.avx2 || self.avx512f || self.sve),
    {
        self.avx2 || self.avx512f || self.sve
    }

    /// Check if AVX-512 is fully available.
    pub fn has_avx512(&self) -> (r: bool)
        ensures
            r == (self.avx512f && self.avx512bw && self.avx512vl),
    {
        self.avx512f && self.avx512bw && self.avx512vl
    }

    /// Check if hardware AES is available.
    pub fn has_aes(&self) -> (r: bool)
        ensures
            r == (self.aesni || self.aes_arm),
    {
        self.aesni || self.aes_arm
    }

    /// Check if hardware SHA is available.
    pub fn has_sha(&self) -> (r: bool)
        ensures
            r == self.sha2_arm,
    {
        self.sha2_arm
    }

    /// Get the best available SIMD capability.
    pub fn best_simd_capability(&self) -> (r: SimdCapability)
        ensures
            r == best_capability(*self),
    {
        if self.has_avx512() {
            SimdCapability::Avx512
        } else if self.avx2 {
            SimdCapability::Avx2
        } else if self.sve2 {
            SimdCapability::Sve2
        } else if self.sve {
            SimdCapability::Sve
        } else if self.avx {
            SimdCapability::Avx
        } else if self.sse42 {
            SimdCapability::Sse42
        } else if self.neon {
            SimdCapability::Neon
        } else {
            SimdCapability::Scalar
        }
    }

    /// Get optimal vector width for this CPU (in bytes).
    pub fn optimal_vector_width(&self) -> (r: usize)
        ensures
            r == (if self.avx512f && self.avx512bw && self.avx512vl {
                64usize
            } else if self.avx2 || self.sve {
                32usize
            } else if self.sse42 || self.neon {
                16usize
            } else {
                8usize
            }),
    {
        if self.has_avx512() {
            64
        } else if self.avx2 || self.sve {
            32
        } else if self.sse42 || self.neon {
            16
        } else {
            8
        }
    }

    /// Get optimal number of parallel vector operations per iteration.
    pub fn optimal_simd_parallelism(&self) -> (r: usize)
        ensures
            r == (if self.avx512f && self.avx512bw && self.avx512vl { 2usize } else { 4usize }),
    {
        if self.has_avx512() {
            2
        } else if self.avx2 {
            4
        } else {
            4
        }
    }
}

/// The best capability is always at least as wide as scalar code, and
/// whenever any SIMD extension is present it is better than scalar.
pub proof fn lemma_best_capability_bounds(f: CpuFeatures)
    ensures
        simd_bits(best_capability(f)) >= 64,
        (f.sse42 || f.avx || f.avx2 || f.neon) ==> best_capability(f) != SimdCapability::Scalar,
{
}

} // verus!
