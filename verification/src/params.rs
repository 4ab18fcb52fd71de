//! The tunable parameters of a flock, and the presets they come from.

use crate::scalar::ONE;
use crate::vector::LENGTH_MAX;
use vstd::prelude::*;

verus! {

/// Largest blend weight: one.
pub const FORCE_MAX: i64 = 1_000_000;

/// Largest visibility radius of a rule: four world units.
pub const RANGE_MAX: i64 = 4_000_000;

/// Largest squared visibility radius of a rule: the square of `RANGE_MAX`.
pub const RANGE_SQ_MAX: i64 = 16_000_000_000_000;

/// Number of predefined configurations.
pub const PRESET_COUNT: usize = 6;

/// A configuration as it is tuned by hand: plain distances, and for each
/// rule the divisor `angle` of the half-angle `pi / angle` of its cone.
#[derive(Clone, Copy, Debug, PartialEq, Eq, Structural)]
pub struct BoidPropertyUI {
    pub coh_force: i64,
    pub sep_force: i64,
    pub ali_force: i64,
    pub coh_dist: i64,
    pub sep_dist: i64,
    pub ali_dist: i64,
    pub coh_angle: i64,
    pub sep_angle: i64,
    pub ali_angle: i64,
    pub min_velocity: i64,
    pub max_velocity: i64,
}

/// The cosines of the cone half-angles `pi / angle` of the three rules.
/// The engine has no trigonometry of its own: whoever holds the
/// configuration evaluates the cosines and hands them over.
#[derive(Clone, Copy, Debug, PartialEq, Eq, Structural)]
pub struct ConeCosines {
    pub coh: i64,
    pub sep: i64,
    pub ali: i64,
}

/// The parameters that the passes of a tick read.
#[derive(Clone, Copy, Debug, PartialEq, Eq, Structural)]
pub struct BoidProperty {
    pub coh_force: i64,
    pub sep_force: i64,
    pub ali_force: i64,
    /// Squared visibility radii.
    pub coh_dist_sq: i64,
    pub sep_dist_sq: i64,
    pub ali_dist_sq: i64,
    /// Cosines of the cone half-angles.
    pub coh_angle_cos: i64,
    pub sep_angle_cos: i64,
    pub ali_angle_cos: i64,
    /// Speed range.
    pub min_velocity: i64,
    pub max_velocity: i64,
    /// Squared radius of the confinement sphere, and the strength of the
    /// force that acts outside it.
    pub boundary_dist_sq: i64,
    pub boundary_force: i64,
}

/// Why a configuration is rejected.
#[derive(Clone, Copy, Debug, PartialEq, Eq, Structural)]
pub enum ConfigError {
    /// An angle divisor is zero or negative.
    NonPositiveAngle,
    /// The lowest speed exceeds the highest.
    InvertedVelocityBounds,
    /// A weight, a distance or a speed is negative.
    NegativeValue,
    /// A weight exceeds `FORCE_MAX`, a distance `RANGE_MAX`, a speed
    /// `LENGTH_MAX`, or a cosine is not between minus one and one.
    OutOfRange,
}

impl BoidPropertyUI {
    pub open spec fn has_non_positive_angle(self) -> bool {
        self.coh_angle <= 0 || self.sep_angle <= 0 || self.ali_angle <= 0
    }

    pub open spec fn has_negative_value(self) -> bool {
        ||| self.coh_force < 0
        ||| self.sep_force < 0
        ||| self.ali_force < 0
        ||| self.coh_dist < 0
        ||| self.sep_dist < 0
        ||| self.ali_dist < 0
        ||| self.min_velocity < 0
    }

    pub open spec fn exceeds_limits(self) -> bool {
        ||| self.coh_force > FORCE_MAX
        ||| self.sep_force > FORCE_MAX
        ||| self.ali_force > FORCE_MAX
        ||| self.coh_dist > RANGE_MAX
        ||| self.sep_dist > RANGE_MAX
        ||| self.ali_dist > RANGE_MAX
        ||| self.max_velocity > LENGTH_MAX
    }

    /// The predefined configuration of the given index. The first is the
    /// default; the indices that name no configuration stand for it too.
    pub open spec fn preset(idx: int) -> BoidPropertyUI {
        if idx == 1 || idx == 2 {
            BoidPropertyUI {
                coh_force: 8_000,
                sep_force: 400_000,
                ali_force: 60_000,
                coh_dist: 500_000,
                sep_dist: 50_000,
                ali_dist: 100_000,
                coh_angle: 2_000_000,
                sep_angle: 2_000_000,
                ali_angle: 3_000_000,
                min_velocity: 5_000,
                max_velocity: 30_000,
            }
        } else if idx == 3 {
            BoidPropertyUI {
                coh_force: 200_000,
                sep_force: 100_000,
                ali_force: 30_000,
                coh_dist: 500_000,
                sep_dist: 80_000,
                ali_dist: 100_000,
                coh_angle: 2_000_000,
                sep_angle: 2_000_000,
                ali_angle: 2_000_000,
                min_velocity: 5_000,
                max_velocity: 30_000,
            }
        } else if idx == 4 {
            BoidPropertyUI {
                coh_force: 5_000,
                sep_force: 500_000,
                ali_force: 10_000,
                coh_dist: 800_000,
                sep_dist: 30_000,
                ali_dist: 500_000,
                coh_angle: 2_000_000,
                sep_angle: 2_000_000,
                ali_angle: 2_000_000,
                min_velocity: 5_000,
                max_velocity: 30_000,
            }
        } else {
            BoidPropertyUI {
                coh_force: 8_000,
                sep_force: 500_000,
                ali_force: 50_000,
                coh_dist: 200_000,
                sep_dist: 40_000,
                ali_dist: 300_000,
                coh_angle: if idx == 5 {
                    1_000_000
                } else {
                    2_000_000
                },
                sep_angle: 2_000_000,
                ali_angle: 2_000_000,
                min_velocity: 5_000,
                max_velocity: 30_000,
            }
        }
    }

    /// Returns the predefined configuration of the given index.
    pub fn predefined(idx: usize) -> (ui: BoidPropertyUI)
        requires
            idx < PRESET_COUNT,
        ensures
            ui == BoidPropertyUI::preset(idx as int),
    {
        if idx == 1 || idx == 2 {
            BoidPropertyUI {
                coh_force: 8_000,
                sep_force: 400_000,
                ali_force: 60_000,
                coh_dist: 500_000,
                sep_dist: 50_000,
                ali_dist: 100_000,
                coh_angle: 2_000_000,
                sep_angle: 2_000_000,
                ali_angle: 3_000_000,
                min_velocity: 5_000,
                max_velocity: 30_000,
            }
        } else if idx == 3 {
            BoidPropertyUI {
                coh_force: 200_000,
                sep_force: 100_000,
                ali_force: 30_000,
                coh_dist: 500_000,
                sep_dist: 80_000,
                ali_dist: 100_000,
                coh_angle: 2_000_000,
                sep_angle: 2_000_000,
                ali_angle: 2_000_000,
                min_velocity: 5_000,
                max_velocity: 30_000,
            }
        } else if idx == 4 {
            BoidPropertyUI {
                coh_force: 5_000,
                sep_force: 500_000,
                ali_force: 10_000,
                coh_dist: 800_000,
                sep_dist: 30_000,
                ali_dist: 500_000,
                coh_angle: 2_000_000,
                sep_angle: 2_000_000,
                ali_angle: 2_000_000,
                min_velocity: 5_000,
                max_velocity: 30_000,
            }
        } else {
            BoidPropertyUI {
                coh_force: 8_000,
                sep_force: 500_000,
                ali_force: 50_000,
                coh_dist: 200_000,
                sep_dist: 40_000,
                ali_dist: 300_000,
                coh_angle: if idx == 5 {
                    1_000_000
                } else {
                    2_000_000
                },
                sep_angle: 2_000_000,
                ali_angle: 2_000_000,
                min_velocity: 5_000,
                max_velocity: 30_000,
            }
        }
    }
}

impl ConeCosines {
    pub open spec fn in_range(self) -> bool {
        &&& -ONE <= self.coh <= ONE
        &&& -ONE <= self.sep <= ONE
        &&& -ONE <= self.ali <= ONE
    }

    /// The cosines that belong to the predefined configuration of the given
    /// index. Its angles divide a half turn by one, two or three: the
    /// cosines are minus one, zero and a half.
    pub open spec fn preset(idx: int) -> ConeCosines {
        ConeCosines {
            coh: if idx == 5 {
                -1_000_000i64
            } else {
                0
            },
            sep: 0,
            ali: if idx == 1 || idx == 2 {
                500_000
            } else {
                0
            },
        }
    }

    /// Returns the cosines that belong to the predefined configuration of
    /// the given index.
    pub fn predefined(idx: usize) -> (c: ConeCosines)
        requires
            idx < PRESET_COUNT,
        ensures
            c == ConeCosines::preset(idx as int),
    {
        ConeCosines {
            coh: if idx == 5 {
                -1_000_000
            } else {
                0
            },
            sep: 0,
            ali: if idx == 1 || idx == 2 {
                500_000
            } else {
                0
            },
        }
    }
}

/// The first reason, if any, to reject a configuration.
pub open spec fn config_error(ui: BoidPropertyUI, cosines: ConeCosines) -> Option<ConfigError> {
    if ui.has_non_positive_angle() {
        Some(ConfigError::NonPositiveAngle)
    } else if ui.min_velocity > ui.max_velocity {
        Some(ConfigError::InvertedVelocityBounds)
    } else if ui.has_negative_value() {
        Some(ConfigError::NegativeValue)
    } else if ui.exceeds_limits() || !cosines.in_range() {
        Some(ConfigError::OutOfRange)
    } else {
        None
    }
}

/// The parameters that a valid configuration stands for: weights and speeds
/// as they are, distances squared, and a confinement sphere of radius one
/// with a force of a thousandth.
pub open spec fn derived(ui: BoidPropertyUI, cosines: ConeCosines) -> BoidProperty {
    BoidProperty {
        coh_force: ui.coh_force,
        sep_force: ui.sep_force,
        ali_force: ui.ali_force,
        coh_dist_sq: (ui.coh_dist * ui.coh_dist) as i64,
        sep_dist_sq: (ui.sep_dist * ui.sep_dist) as i64,
        ali_dist_sq: (ui.ali_dist * ui.ali_dist) as i64,
        coh_angle_cos: cosines.coh,
        sep_angle_cos: cosines.sep,
        ali_angle_cos: cosines.ali,
        min_velocity: ui.min_velocity,
        max_velocity: ui.max_velocity,
        boundary_dist_sq: 1_000_000_000_000,
        boundary_force: 1_000,
    }
}

/// The square of a distance within `RANGE_MAX` fits a scalar.
pub proof fn lemma_dist_sq_fits(dist: int)
    requires
        0 <= dist <= RANGE_MAX,
    ensures
        0 <= dist * dist <= RANGE_MAX * RANGE_MAX,
        RANGE_MAX * RANGE_MAX == 16_000_000_000_000,
{
    assert(0 <= dist * dist <= RANGE_MAX * RANGE_MAX) by (nonlinear_arith)
        requires
            0 <= dist <= RANGE_MAX,
    ;
}

impl BoidProperty {
    /// Every field is within the range for which the passes are proved:
    /// weights between zero and `FORCE_MAX`, squared radii between zero and
    /// the square of `RANGE_MAX`, cosines between minus one and one, and
    /// `0 <= min_velocity <= max_velocity <= LENGTH_MAX`.
    pub open spec fn wf(self) -> bool {
        &&& 0 <= self.coh_force <= FORCE_MAX
        &&& 0 <= self.sep_force <= FORCE_MAX
        &&& 0 <= self.ali_force <= FORCE_MAX
        &&& 0 <= self.boundary_force <= FORCE_MAX
        &&& 0 <= self.coh_dist_sq <= RANGE_SQ_MAX
        &&& 0 <= self.sep_dist_sq <= RANGE_SQ_MAX
        &&& 0 <= self.ali_dist_sq <= RANGE_SQ_MAX
        &&& -ONE <= self.coh_angle_cos <= ONE
        &&& -ONE <= self.sep_angle_cos <= ONE
        &&& -ONE <= self.ali_angle_cos <= ONE
        &&& 0 <= self.min_velocity <= self.max_velocity <= LENGTH_MAX
        &&& 0 <= self.boundary_dist_sq
    }

    /// Tells whether the parameters are well formed.
    pub fn is_wf(&self) -> (b: bool)
        ensures
            b == self.wf(),
    {
        0 <= self.coh_force && self.coh_force <= FORCE_MAX && 0 <= self.sep_force && self.sep_force
            <= FORCE_MAX && 0 <= self.ali_force && self.ali_force <= FORCE_MAX && 0
            <= self.boundary_force && self.boundary_force <= FORCE_MAX && 0 <= self.coh_dist_sq
            && self.coh_dist_sq <= RANGE_SQ_MAX && 0 <= self.sep_dist_sq && self.sep_dist_sq
            <= RANGE_SQ_MAX && 0 <= self.ali_dist_sq && self.ali_dist_sq <= RANGE_SQ_MAX && -ONE <= self.coh_angle_cos && self.coh_angle_cos <= ONE && -ONE
            <= self.sep_angle_cos && self.sep_angle_cos <= ONE && -ONE <= self.ali_angle_cos
            && self.ali_angle_cos <= ONE && 0 <= self.min_velocity && self.min_velocity
            <= self.max_velocity && self.max_velocity <= LENGTH_MAX && 0 <= self.boundary_dist_sq
    }

    /// Derives the parameters of a tick from a configuration and the
    /// cosines of its three cone half-angles, or rejects the configuration.
    pub fn from_ui(ui: &BoidPropertyUI, cosines: &ConeCosines) -> (r: Result<BoidProperty, ConfigError>)
        ensures
            r == match config_error(*ui, *cosines) {
                Some(e) => Err::<BoidProperty, ConfigError>(e),
                None => Ok(derived(*ui, *cosines)),
            },
            r is Ok ==> r->Ok_0.wf(),
    {
        if ui.coh_angle <= 0 || ui.sep_angle <= 0 || ui.ali_angle <= 0 {
            return Err(ConfigError::NonPositiveAngle);
        }
        if ui.min_velocity > ui.max_velocity {
            return Err(ConfigError::InvertedVelocityBounds);
        }
        if ui.coh_force < 0 || ui.sep_force < 0 || ui.ali_force < 0 || ui.coh_dist < 0
            || ui.sep_dist < 0 || ui.ali_dist < 0 || ui.min_velocity < 0 {
            return Err(ConfigError::NegativeValue);
        }
        if ui.coh_force > FORCE_MAX || ui.sep_force > FORCE_MAX || ui.ali_force > FORCE_MAX
            || ui.coh_dist > RANGE_MAX || ui.sep_dist > RANGE_MAX || ui.ali_dist > RANGE_MAX
            || ui.max_velocity > LENGTH_MAX {
            return Err(ConfigError::OutOfRange);
        }
        if cosines.coh < -ONE || cosines.coh > ONE || cosines.sep < -ONE || cosines.sep > ONE
            || cosines.ali < -ONE || cosines.ali > ONE {
            return Err(ConfigError::OutOfRange);
        }
        proof {
            lemma_dist_sq_fits(ui.coh_dist as int);
            lemma_dist_sq_fits(ui.sep_dist as int);
            lemma_dist_sq_fits(ui.ali_dist as int);
        }
        Ok(
            BoidProperty {
                coh_force: ui.coh_force,
                sep_force: ui.sep_force,
                ali_force: ui.ali_force,
                coh_dist_sq: ui.coh_dist * ui.coh_dist,
                sep_dist_sq: ui.sep_dist * ui.sep_dist,
                ali_dist_sq: ui.ali_dist * ui.ali_dist,
                coh_angle_cos: cosines.coh,
                sep_angle_cos: cosines.sep,
                ali_angle_cos: cosines.ali,
                min_velocity: ui.min_velocity,
                max_velocity: ui.max_velocity,
                boundary_dist_sq: 1_000_000_000_000,
                boundary_force: 1_000,
            },
        )
    }
}

/// Every predefined configuration is valid.
pub proof fn lemma_presets_valid(idx: int)
    ensures
        config_error(BoidPropertyUI::preset(idx), ConeCosines::preset(idx)) is None,
{
}

impl BoidProperty {
    /// The parameters that the predefined configuration of the given index
    /// stands for.
    pub open spec fn preset(idx: int) -> BoidProperty {
        derived(BoidPropertyUI::preset(idx), ConeCosines::preset(idx))
    }

    /// Returns the parameters of the predefined configuration of the given
    /// index.
    pub fn predefined(idx: usize) -> (p: BoidProperty)
        requires
            idx < PRESET_COUNT,
        ensures
            p == BoidProperty::preset(idx as int),
            p.wf(),
    {
        proof {
            lemma_presets_valid(idx as int);
        }
        match BoidProperty::from_ui(&BoidPropertyUI::predefined(idx), &ConeCosines::predefined(idx)) {
            Ok(p) => p,
            Err(_) => vstd::pervasive::unreached(),
        }
    }
}

impl Default for BoidProperty {
    /// The parameters of the first predefined configuration.
    fn default() -> (p: BoidProperty)
        ensures
            p == BoidProperty::preset(0),
            p.wf(),
    {
        BoidProperty::predefined(0)
    }
}

} // verus!
