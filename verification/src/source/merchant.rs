//! Merchant-ship population source profiles (JOMOPANS-ECHO) and the measured
//! tonal overlay of an individual merchant (Arveson–Vendittis, Table III).
//!
//! The broadband level formula itself is floating point and is evaluated by the
//! host around this crate; what stands here is the selection of a profile or an
//! overlay from the host's code, the profile constants (in exact decimal units)
//! and the overlay's table of measured lines.

use vstd::prelude::*;
use super::TONAL_HARMONICS;

verus! {

// ---------------------------------------------------------------------------
// Tonal overlay
// ---------------------------------------------------------------------------

/// Individual merchant tonal analogue, chosen separately from the population
/// broadband model.
#[derive(Debug, Clone, Copy, PartialEq, Eq, Structural)]
pub enum MerchantTonalOverlay {
    /// M/V OVERSEAS HARRIETTE at 140 RPM and 16 kn, keel-aspect measurement point.
    OverseasHarriette140Rpm,
}

/// How the frequency of one overlay line is fixed.
#[derive(Debug, Clone, Copy, PartialEq, Eq, Structural)]
pub enum OverlayFrequency {
    /// A multiple of the shaft rate (shaft RPM / 60 Hz).
    ShaftMultiple(u32),
    /// A fixed frequency in Hz (ship-service diesel generator lines).
    FixedHz(u32),
}

/// Which keel-aspect dipole correction the measured level of a line refers to.
#[derive(Debug, Clone, Copy, PartialEq, Eq, Structural)]
pub enum OverlayReference {
    /// Exact pressure-release dipole with the given effective source depth,
    /// in decimetres (blade-rate family).
    PressureReleaseDipole { effective_source_depth_dm: u32 },
    /// Low-frequency (kd << 1) dipole approximation, which invents no depth.
    LowFrequencyDipole,
}

/// One measured overlay line: frequency rule, level in dB re 1 µPa @ 1 m, and
/// the level's reference.
#[derive(Debug, Clone, Copy, PartialEq, Eq, Structural)]
pub struct OverlayLine {
    pub frequency: OverlayFrequency,
    pub level_db_re_1upa_at_1m: u32,
    pub reference: OverlayReference,
}

/// Effective source depth of the blade-rate dipole (1.8 m), in decimetres.
pub const BLADE_RATE_SOURCE_DEPTH_DM: u32 = 18;

/// The shaft-rate multiples of the thirteen significant 140 RPM lines, in the
/// order of the data file: BR 1, FR 1, BR 2, BR 3 = FR 2, BR 4, FR 3, BR 5,
/// BR 6 = FR 4, BR 7, FR 5, BR 8, BR 9 = FR 6, BR 10.
pub open spec fn overlay_shaft_multiple(index: int) -> u32 {
    if index == 0 { 4 }
    else if index == 1 { 6 }
    else if index == 2 { 8 }
    else if index == 3 { 12 }
    else if index == 4 { 16 }
    else if index == 5 { 18 }
    else if index == 6 { 20 }
    else if index == 7 { 24 }
    else if index == 8 { 28 }
    else if index == 9 { 30 }
    else if index == 10 { 32 }
    else if index == 11 { 36 }
    else { 40 }
}

/// Keel-aspect levels (dB re 1 µPa @ 1 m) of the thirteen significant lines
/// and the two generator lines, in the order of the data file.
pub open spec fn overlay_level_db(index: int) -> u32 {
    if index == 0 { 174 }
    else if index == 1 { 174 }
    else if index == 2 { 175 }
    else if index == 3 { 179 }
    else if index == 4 { 185 }
    else if index == 5 { 176 }
    else if index == 6 { 175 }
    else if index == 7 { 175 }
    else if index == 8 { 172 }
    else if index == 9 { 163 }
    else if index == 10 { 172 }
    else if index == 11 { 173 }
    else if index == 12 { 170 }
    else if index == 13 { 179 }
    else { 168 }
}

/// Number of shaft-rate lines in the overlay; the remaining two are the
/// generator's fixed lines.
pub const OVERLAY_SHAFT_LINES: usize = 13;

/// The blade-rate family: lines whose shaft multiple is a multiple of the
/// measured blade count (4), the others being shaft-rate or machinery lines.
pub open spec fn overlay_is_blade_rate_line(index: int) -> bool {
    index == 0 || index == 2 || index == 3 || index == 4 || index == 6 || index == 7
        || index == 8 || index == 10 || index == 11 || index == 12
}

impl MerchantTonalOverlay {
    /// The code by which the host selects the overlay.
    pub open spec fn spec_code(self) -> u32 {
        match self {
            MerchantTonalOverlay::OverseasHarriette140Rpm => 1,
        }
    }

    /// The overlay with a given host code, if there is one.
    pub open spec fn spec_from_code(code: u32) -> Option<MerchantTonalOverlay> {
        if code == 1 {
            Some(MerchantTonalOverlay::OverseasHarriette140Rpm)
        } else {
            None
        }
    }

    /// Decodes a host code; an unknown code selects no overlay.
    pub fn from_code(code: u32) -> (res: Option<Self>)
        ensures
            res == Self::spec_from_code(code),
    {
        match code {
            1 => Some(MerchantTonalOverlay::OverseasHarriette140Rpm),
            _ => None,
        }
    }

    /// The host code of the overlay.
    pub fn code(self) -> (res: u32)
        ensures
            res == self.spec_code(),
    {
        match self {
            MerchantTonalOverlay::OverseasHarriette140Rpm => 1,
        }
    }

    /// The shaft RPM at which the overlay was measured; the overlay applies at
    /// no other operating state.
    pub fn measured_shaft_rpm(self) -> (res: u32)
        ensures
            res == 140,
    {
        match self {
            MerchantTonalOverlay::OverseasHarriette140Rpm => 140,
        }
    }

    /// The propeller blade count of the measured ship.
    pub fn blade_count(self) -> (res: u32)
        ensures
            res == 4,
    {
        match self {
            MerchantTonalOverlay::OverseasHarriette140Rpm => 4,
        }
    }

    /// The line that the overlay puts at tonal slot `index`, as the data file
    /// lists it.
    pub open spec fn spec_line(self, index: int) -> OverlayLine {
        OverlayLine {
            frequency: if index < OVERLAY_SHAFT_LINES as int {
                OverlayFrequency::ShaftMultiple(overlay_shaft_multiple(index))
            } else if index == 13 {
                OverlayFrequency::FixedHz(24)
            } else {
                OverlayFrequency::FixedHz(30)
            },
            level_db_re_1upa_at_1m: overlay_level_db(index),
            reference: if overlay_is_blade_rate_line(index) {
                OverlayReference::PressureReleaseDipole {
                    effective_source_depth_dm: BLADE_RATE_SOURCE_DEPTH_DM,
                }
            } else {
                OverlayReference::LowFrequencyDipole
            },
        }
    }

    /// The measured line at tonal slot `index`.
    pub fn line(self, index: usize) -> (res: OverlayLine)
        requires
            index < TONAL_HARMONICS,
        ensures
            res == self.spec_line(index as int),
    {
        let multiples: [u32; 13] = [4, 6, 8, 12, 16, 18, 20, 24, 28, 30, 32, 36, 40];
        let levels: [u32; 15] = [
            174, 174, 175, 179, 185, 176, 175, 175, 172, 163, 172, 173, 170, 179, 168,
        ];
        let frequency = if index < OVERLAY_SHAFT_LINES {
            OverlayFrequency::ShaftMultiple(multiples[index])
        } else if index == 13 {
            OverlayFrequency::FixedHz(24)
        } else {
            OverlayFrequency::FixedHz(30)
        };
        let blade_rate = index == 0 || index == 2 || index == 3 || index == 4 || index == 6
            || index == 7 || index == 8 || index == 10 || index == 11 || index == 12;
        let reference = if blade_rate {
            OverlayReference::PressureReleaseDipole {
                effective_source_depth_dm: BLADE_RATE_SOURCE_DEPTH_DM,
            }
        } else {
            OverlayReference::LowFrequencyDipole
        };
        OverlayLine { frequency, level_db_re_1upa_at_1m: levels[index], reference }
    }
}

// ---------------------------------------------------------------------------
// Population profiles
// ---------------------------------------------------------------------------

/// JOMOPANS-ECHO merchant ship classes.
#[derive(Debug, Clone, Copy, PartialEq, Eq, Structural)]
pub enum MerchantProfile {
    Bulker,
    Containership,
    VehicleCarrier,
    Tanker,
}

impl MerchantProfile {
    /// The code by which the host selects the profile.
    pub open spec fn spec_code(self) -> u32 {
        match self {
            MerchantProfile::Bulker => 1,
            MerchantProfile::Containership => 2,
            MerchantProfile::VehicleCarrier => 3,
            MerchantProfile::Tanker => 4,
        }
    }

    /// The profile with a given host code, if there is one.
    pub open spec fn spec_from_code(code: u32) -> Option<MerchantProfile> {
        if code == 1 {
            Some(MerchantProfile::Bulker)
        } else if code == 2 {
            Some(MerchantProfile::Containership)
        } else if code == 3 {
            Some(MerchantProfile::VehicleCarrier)
        } else if code == 4 {
            Some(MerchantProfile::Tanker)
        } else {
            None
        }
    }

    /// Decodes a host code; an unknown code selects no profile.
    pub fn from_code(code: u32) -> (res: Option<Self>)
        ensures
            res == Self::spec_from_code(code),
    {
        match code {
            1 => Some(MerchantProfile::Bulker),
            2 => Some(MerchantProfile::Containership),
            3 => Some(MerchantProfile::VehicleCarrier),
            4 => Some(MerchantProfile::Tanker),
            _ => None,
        }
    }

    /// The host code of the profile.
    pub fn code(self) -> (res: u32)
        ensures
            res == self.spec_code(),
    {
        match self {
            MerchantProfile::Bulker => 1,
            MerchantProfile::Containership => 2,
            MerchantProfile::VehicleCarrier => 3,
            MerchantProfile::Tanker => 4,
        }
    }

    /// The class reference speed, in tenths of a knot.
    pub open spec fn spec_reference_speed_deci_kn(self) -> u32 {
        match self {
            MerchantProfile::Bulker => 139,
            MerchantProfile::Containership => 180,
            MerchantProfile::VehicleCarrier => 158,
            MerchantProfile::Tanker => 124,
        }
    }

    /// The class reference speed (13.9, 18.0, 15.8 and 12.4 kn), in tenths of a knot.
    pub fn reference_speed_deci_kn(self) -> (res: u32)
        ensures
            res == self.spec_reference_speed_deci_kn(),
    {
        match self {
            MerchantProfile::Bulker => 139,
            MerchantProfile::Containership => 180,
            MerchantProfile::VehicleCarrier => 158,
            MerchantProfile::Tanker => 124,
        }
    }

    /// The low-frequency damping term (0.8 for bulkers and container ships,
    /// 1.0 for vehicle carriers and tankers), in tenths.
    pub fn low_frequency_damping_tenths(self) -> (res: u32)
        ensures
            res == (match self {
                MerchantProfile::Bulker | MerchantProfile::Containership => 8u32,
                MerchantProfile::VehicleCarrier | MerchantProfile::Tanker => 10u32,
            }),
    {
        match self {
            MerchantProfile::Bulker | MerchantProfile::Containership => 8,
            MerchantProfile::VehicleCarrier | MerchantProfile::Tanker => 10,
        }
    }
}

// ---------------------------------------------------------------------------
// Laws
// ---------------------------------------------------------------------------

/// Decoding inverts the host code of every profile, and a code decodes to a
/// profile only if it is that profile's code.
pub proof fn lemma_profile_code_round_trip(profile: MerchantProfile, code: u32)
    ensures
        MerchantProfile::spec_from_code(profile.spec_code()) == Some(profile),
        MerchantProfile::spec_from_code(code) == Some(profile) ==> profile.spec_code() == code,
{
}

/// Decoding inverts the host code of the overlay, and a code decodes to an
/// overlay only if it is that overlay's code.
pub proof fn lemma_overlay_code_round_trip(overlay: MerchantTonalOverlay, code: u32)
    ensures
        MerchantTonalOverlay::spec_from_code(overlay.spec_code()) == Some(overlay),
        MerchantTonalOverlay::spec_from_code(code) == Some(overlay) ==> overlay.spec_code() == code,
{
}

/// The overlay fills exactly the tonal slots: its shaft-rate lines are the
/// first ones, the two fixed generator lines (24 and 30 Hz) the last.
pub proof fn lemma_overlay_fills_tonal_slots()
    ensures
        OVERLAY_SHAFT_LINES + 2 == TONAL_HARMONICS,
{
}

/// A line refers to the blade-rate dipole exactly when it is a shaft-rate line
/// whose multiple is a multiple of the measured blade count.
pub proof fn lemma_blade_rate_lines_are_blade_multiples(
    overlay: MerchantTonalOverlay,
    index: int,
)
    requires
        0 <= index < TONAL_HARMONICS,
    ensures
        (overlay.spec_line(index).reference is PressureReleaseDipole) <==> (
            overlay.spec_line(index).frequency matches OverlayFrequency::ShaftMultiple(m)
            && m % 4 == 0),
{
}

/// The overlay reproduces Table III of the measurement slot by slot: the
/// levels 174, 174, 175, 179, 185, 176, 175, 175, 172, 163, 172, 173, 170 dB
/// of the thirteen shaft-rate lines at 4, 6, 8, 12, 16, 18, 20, 24, 28, 30,
/// 32, 36 and 40 times the shaft rate, then the generator lines at 24 Hz
/// (179 dB) and 30 Hz (168 dB).
pub proof fn lemma_overlay_matches_measured_table(overlay: MerchantTonalOverlay, index: int)
    requires
        0 <= index < TONAL_HARMONICS,
    ensures
        overlay.spec_line(index).level_db_re_1upa_at_1m == seq![
            174u32, 174, 175, 179, 185, 176, 175, 175, 172, 163, 172, 173, 170, 179, 168,
        ][index],
        index < 13 ==> overlay.spec_line(index).frequency == OverlayFrequency::ShaftMultiple(
            seq![4u32, 6, 8, 12, 16, 18, 20, 24, 28, 30, 32, 36, 40][index],
        ),
        index == 13 ==> overlay.spec_line(index).frequency == OverlayFrequency::FixedHz(24),
        index == 14 ==> overlay.spec_line(index).frequency == OverlayFrequency::FixedHz(30),
{
}

/// The shaft-rate lines stand in strictly increasing frequency order.
pub proof fn lemma_overlay_shaft_lines_ascend(i: int, j: int)
    requires
        0 <= i < j < OVERLAY_SHAFT_LINES,
    ensures
        overlay_shaft_multiple(i) < overlay_shaft_multiple(j),
{
}

} // verus!
