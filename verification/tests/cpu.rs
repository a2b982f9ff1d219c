use libretto::cpu::{Aarch64Probe, CpuFeatures, SimdCapability, X86Probe};

fn x86_probe(all: bool) -> X86Probe {
    X86Probe {
        sse42: all,
        avx: all,
        avx2: all,
        avx512f: false,
        avx512bw: false,
        avx512vl: false,
        popcnt: all,
        bmi1: all,
        bmi2: all,
        lzcnt: all,
        aes: all,
        pclmulqdq: all,
    }
}

#[test]
fn cpu_cpu_features_detect() {
    let features = CpuFeatures::detect_x86_64(1, x86_probe(true));
    assert!(features.cpu_count >= 1);
    assert!(features.cache_line_size >= 32);
}

#[test]
fn simd_capability_ordering() {
    assert!(SimdCapability::Avx2 > SimdCapability::Avx);
    assert!(SimdCapability::Avx512 > SimdCapability::Avx2);
    assert!(SimdCapability::Scalar < SimdCapability::Sse42);
}

#[test]
fn vector_width() {
    assert_eq!(SimdCapability::Sse42.vector_bits(), 128);
    assert_eq!(SimdCapability::Avx2.vector_bits(), 256);
    assert_eq!(SimdCapability::Avx512.vector_bits(), 512);
    assert_eq!(SimdCapability::Neon.vector_bits(), 128);
}

#[test]
fn best_simd_capability() {
    let features = CpuFeatures::detect_x86_64(4, x86_probe(true));
    let best = features.best_simd_capability();
    assert!(best.vector_bits() >= 64);
    let plain = CpuFeatures::detect_x86_64(4, x86_probe(false));
    assert!(plain.best_simd_capability().vector_bits() >= 64);
}

#[test]
fn x86_features() {
    let features = CpuFeatures::detect_x86_64(8, x86_probe(true));
    if features.sse42 {
        assert!(features.has_simd());
    }
}

#[test]
fn arm_features() {
    let probe = Aarch64Probe { sve: false, sve2: false, aes: true, sha2: true, crc: true };
    let features = CpuFeatures::detect_aarch64(8, probe, false);
    assert!(features.neon);
    assert!(features.has_simd());
}

#[test]
fn best_capability_follows_features() {
    let avx2 = CpuFeatures::detect_x86_64(4, x86_probe(true));
    assert_eq!(avx2.best_simd_capability(), SimdCapability::Avx2);
    let none = CpuFeatures::detect_x86_64(4, x86_probe(false));
    assert_eq!(none.best_simd_capability(), SimdCapability::Scalar);
    let arm = CpuFeatures::detect_aarch64(
        4,
        Aarch64Probe { sve: false, sve2: false, aes: false, sha2: false, crc: false },
        true,
    );
    assert_eq!(arm.best_simd_capability(), SimdCapability::Neon);
    assert_eq!(arm.cache_line_size, 128);
}

#[test]
fn capability_order_is_total() {
    assert!(SimdCapability::Avx512.is_at_least(SimdCapability::Sse42));
    assert!(!SimdCapability::Scalar.is_at_least(SimdCapability::Neon));
    assert_eq!(SimdCapability::Avx2.vector_bytes(), 32);
}
