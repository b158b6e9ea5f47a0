use dsp_core::source::merchant::{
    MerchantProfile, MerchantTonalOverlay, OverlayFrequency, OverlayReference,
    BLADE_RATE_SOURCE_DEPTH_DM,
};
use dsp_core::source::{band_seed, xorshift64, TONAL_HARMONICS};

#[test]
fn xorshift64_matches_reference_step() {
    let x: u64 = 0x9E37_79B9_7F4A_7C15;
    let mut y = x;
    y ^= y << 13;
    y ^= y >> 7;
    y ^= y << 17;
    assert_eq!(xorshift64(x), y);
    assert_eq!(xorshift64(1), 0x4082_2041);
    assert_eq!(xorshift64(0), 0);
}

#[test]
fn xorshift64_stream_never_falls_silent_or_repeats_early() {
    let mut state = 7u64;
    let mut seen = std::collections::HashSet::new();
    for _ in 0..10_000 {
        state = xorshift64(state);
        assert_ne!(state, 0);
        assert!(seen.insert(state));
    }
}

#[test]
fn band_seeds_differ_per_band() {
    let seed = 7u64;
    let seeds: Vec<u64> = (0..31).map(|index| band_seed(seed, index)).collect();
    for i in 0..seeds.len() {
        for j in 0..i {
            assert_ne!(seeds[i], seeds[j]);
        }
    }
    assert_eq!(band_seed(0, 0), 0xD1B5_4A32_D192_ED03);
    assert_eq!(band_seed(seed, 1), seed ^ 2u64.wrapping_mul(0xD1B5_4A32_D192_ED03));
}

#[test]
fn profile_codes_round_trip() {
    for code in 0..8u32 {
        match MerchantProfile::from_code(code) {
            Some(profile) => assert_eq!(profile.code(), code),
            None => assert!(code == 0 || code > 4),
        }
    }
    assert_eq!(MerchantProfile::from_code(1), Some(MerchantProfile::Bulker));
    assert_eq!(MerchantProfile::from_code(2), Some(MerchantProfile::Containership));
    assert_eq!(MerchantProfile::from_code(3), Some(MerchantProfile::VehicleCarrier));
    assert_eq!(MerchantProfile::from_code(4), Some(MerchantProfile::Tanker));
    assert_eq!(MerchantProfile::from_code(5), None);
    assert_eq!(MerchantTonalOverlay::from_code(1), Some(MerchantTonalOverlay::OverseasHarriette140Rpm));
    assert_eq!(MerchantTonalOverlay::from_code(0), None);
    assert_eq!(MerchantTonalOverlay::from_code(2), None);
    assert_eq!(MerchantTonalOverlay::OverseasHarriette140Rpm.code(), 1);
}

#[test]
fn profile_constants_in_exact_decimal_units() {
    assert_eq!(MerchantProfile::Bulker.reference_speed_deci_kn(), 139);
    assert_eq!(MerchantProfile::Containership.reference_speed_deci_kn(), 180);
    assert_eq!(MerchantProfile::VehicleCarrier.reference_speed_deci_kn(), 158);
    assert_eq!(MerchantProfile::Tanker.reference_speed_deci_kn(), 124);
    assert_eq!(MerchantProfile::Bulker.low_frequency_damping_tenths(), 8);
    assert_eq!(MerchantProfile::Containership.low_frequency_damping_tenths(), 8);
    assert_eq!(MerchantProfile::VehicleCarrier.low_frequency_damping_tenths(), 10);
    assert_eq!(MerchantProfile::Tanker.low_frequency_damping_tenths(), 10);
    assert_eq!(139f32 / 10.0, 13.9f32);
    assert_eq!(8f32 / 10.0, 0.8f32);
}

#[test]
fn overlay_table_reproduces_table_iii_lines() {
    let overlay = MerchantTonalOverlay::OverseasHarriette140Rpm;
    assert_eq!(overlay.measured_shaft_rpm(), 140);
    assert_eq!(overlay.blade_count(), 4);
    let first = overlay.line(0);
    assert_eq!(first.frequency, OverlayFrequency::ShaftMultiple(4));
    assert_eq!(first.level_db_re_1upa_at_1m, 174);
    assert_eq!(
        first.reference,
        OverlayReference::PressureReleaseDipole { effective_source_depth_dm: 18 }
    );
    assert_eq!(BLADE_RATE_SOURCE_DEPTH_DM as f32 / 10.0, 1.8f32);
    assert_eq!(overlay.line(1).reference, OverlayReference::LowFrequencyDipole);
    assert_eq!(overlay.line(4).frequency, OverlayFrequency::ShaftMultiple(16));
    assert_eq!(overlay.line(4).level_db_re_1upa_at_1m, 185);
    assert_eq!(overlay.line(13).frequency, OverlayFrequency::FixedHz(24));
    assert_eq!(overlay.line(13).level_db_re_1upa_at_1m, 179);
    assert_eq!(overlay.line(14).frequency, OverlayFrequency::FixedHz(30));
    assert_eq!(overlay.line(14).level_db_re_1upa_at_1m, 168);
    // 140 RPM / 60 * 4 = 9.333 Hz, 140 / 60 * 16 = 37.333 Hz.
    assert!((140.0f32 / 60.0 * 4.0 - 9.333_333).abs() < 0.001);
}

#[test]
fn blade_rate_lines_are_the_multiples_of_the_blade_count() {
    let overlay = MerchantTonalOverlay::OverseasHarriette140Rpm;
    let mut previous = 0;
    for index in 0..TONAL_HARMONICS as usize {
        let line = overlay.line(index);
        let blade_family = matches!(line.reference, OverlayReference::PressureReleaseDipole { .. });
        match line.frequency {
            OverlayFrequency::ShaftMultiple(multiple) => {
                assert!(multiple > previous);
                previous = multiple;
                assert_eq!(blade_family, multiple % overlay.blade_count() == 0);
            }
            OverlayFrequency::FixedHz(_) => {
                assert!(index >= 13);
                assert!(!blade_family);
            }
        }
    }
}
