//! Visible-spectrum colouring: wavelength bands, channel ramps and the
//! intensity taper, all as exact fractions.

use vstd::prelude::*;
use vstd::arithmetic::div_mod::lemma_multiply_divide_lt;
use vstd::arithmetic::mul::lemma_mul_upper_bound;

verus! {

/// Shortest wavelength that is given a colour, in nanometres.
pub const VISIBLE_MIN: u32 = 380;

/// Longest wavelength that is given a colour, in nanometres.
pub const VISIBLE_MAX: u32 = 780;

/// Width of the range that iteration counts are spread over, in nanometres.
pub const VISIBLE_SPAN: u32 = 400;

/// The fraction `num / den`.
#[derive(Clone, Copy, Debug, PartialEq, Eq, Structural)]
pub struct Ratio {
    pub num: u32,
    pub den: u32,
}

impl Ratio {
    /// The fraction lies between zero and one, both included.
    pub open spec fn in_unit_interval(self) -> bool {
        0 < self.den && self.num <= self.den
    }

    /// The fraction `0 / 1`.
    pub open spec fn zero() -> Ratio {
        Ratio { num: 0, den: 1 }
    }

    /// The fraction `1 / 1`.
    pub open spec fn one() -> Ratio {
        Ratio { num: 1, den: 1 }
    }

    /// The fraction of `span` that `wavelength` has covered since `start`.
    pub open spec fn rising(wavelength: u32, start: u32, span: u32) -> Ratio {
        Ratio { num: (wavelength - start) as u32, den: span }
    }

    /// The fraction of `span` that is left until `wavelength` reaches `end`.
    pub open spec fn falling(wavelength: u32, end: u32, span: u32) -> Ratio {
        Ratio { num: (end - wavelength) as u32, den: span }
    }
}

/// The seven wavelength bands. Each of the six visible ones ramps one colour
/// channel and holds the other two at zero or one.
#[derive(Clone, Copy, Debug, PartialEq, Eq, Structural)]
pub enum Band {
    /// 380 to 439 nm: red falls, blue is full.
    Violet,
    /// 440 to 489 nm: green rises, blue is full.
    Blue,
    /// 490 to 509 nm: green is full, blue falls.
    Cyan,
    /// 510 to 579 nm: red rises, green is full.
    Green,
    /// 580 to 644 nm: red is full, green falls.
    Orange,
    /// 645 to 780 nm: red is full.
    Red,
    /// Everything else: black.
    Dark,
}

/// The intensity factor applied to all three channels.
#[derive(Clone, Copy, Debug, PartialEq, Eq, Structural)]
pub enum Taper {
    /// The factor is one.
    Full,
    /// The factor is `3/10 + 7/10 * ratio`.
    Ramp(Ratio),
}

impl Taper {
    /// Numerator of the factor, over `factor_den`.
    pub open spec fn factor_num(self) -> int {
        match self {
            Taper::Full => 10,
            Taper::Ramp(ratio) => 3 * ratio.den + 7 * ratio.num,
        }
    }

    /// Denominator of the factor.
    pub open spec fn factor_den(self) -> int {
        match self {
            Taper::Full => 10,
            Taper::Ramp(ratio) => 10 * ratio.den,
        }
    }
}

/// What a wavelength looks like before gamma correction: the level of each
/// channel and the taper that scales all three.
#[derive(Clone, Copy, Debug, PartialEq, Eq, Structural)]
pub struct Mix {
    pub red: Ratio,
    pub green: Ratio,
    pub blue: Ratio,
    pub taper: Taper,
}

impl Mix {
    /// The mix of a wavelength that cannot be seen.
    pub open spec fn dark() -> Mix {
        Mix { red: Ratio::zero(), green: Ratio::zero(), blue: Ratio::zero(), taper: Taper::Full }
    }

    /// Numerator of a channel's intensity, its level times the taper factor,
    /// over `intensity_den`.
    pub open spec fn intensity_num(self, level: Ratio) -> int {
        level.num * self.taper.factor_num()
    }

    /// Denominator of a channel's intensity.
    pub open spec fn intensity_den(self, level: Ratio) -> int {
        level.den * self.taper.factor_den()
    }

    /// The intensity of a channel lies between zero and one, both included.
    pub open spec fn intensity_in_unit_interval(self, level: Ratio) -> bool {
        &&& 0 < self.intensity_den(level)
        &&& 0 <= self.intensity_num(level) <= self.intensity_den(level)
    }
}

/// The band that holds `wavelength`.
pub open spec fn band_at(wavelength: u32) -> Band {
    if 380 <= wavelength <= 439 {
        Band::Violet
    } else if 440 <= wavelength <= 489 {
        Band::Blue
    } else if 490 <= wavelength <= 509 {
        Band::Cyan
    } else if 510 <= wavelength <= 579 {
        Band::Green
    } else if 580 <= wavelength <= 644 {
        Band::Orange
    } else if 645 <= wavelength <= 780 {
        Band::Red
    } else {
        Band::Dark
    }
}

/// Red, green and blue levels of `wavelength`, in this order.
pub open spec fn levels_at(wavelength: u32) -> (Ratio, Ratio, Ratio) {
    match band_at(wavelength) {
        Band::Violet => (Ratio::falling(wavelength, 440, 60), Ratio::zero(), Ratio::one()),
        Band::Blue => (Ratio::zero(), Ratio::rising(wavelength, 440, 50), Ratio::one()),
        Band::Cyan => (Ratio::zero(), Ratio::one(), Ratio::falling(wavelength, 510, 20)),
        Band::Green => (Ratio::rising(wavelength, 510, 70), Ratio::one(), Ratio::zero()),
        Band::Orange => (Ratio::one(), Ratio::falling(wavelength, 645, 65), Ratio::zero()),
        Band::Red => (Ratio::one(), Ratio::zero(), Ratio::zero()),
        Band::Dark => (Ratio::zero(), Ratio::zero(), Ratio::zero()),
    }
}

/// The taper of `wavelength`: a ramp over the violet end (380 to 419 nm) and
/// over the red end (701 to 780 nm), full strength elsewhere.
pub open spec fn taper_at(wavelength: u32) -> Taper {
    if 380 <= wavelength <= 419 {
        Taper::Ramp(Ratio::rising(wavelength, 380, 40))
    } else if 701 <= wavelength <= 780 {
        Taper::Ramp(Ratio::falling(wavelength, 780, 80))
    } else {
        Taper::Full
    }
}

/// Levels and taper of `wavelength` together.
pub open spec fn mix_at(wavelength: u32) -> Mix {
    let (red, green, blue) = levels_at(wavelength);
    Mix { red, green, blue, taper: taper_at(wavelength) }
}

/// The wavelength that stands for iteration count `iteration` out of `budget`.
pub open spec fn wavelength_for(iteration: u32, budget: u32) -> int {
    VISIBLE_MIN + (iteration * VISIBLE_SPAN) / (budget as int)
}

/// Every channel level lies between zero and one.
pub proof fn lemma_levels_in_unit_interval(wavelength: u32)
    ensures
        mix_at(wavelength).red.in_unit_interval(),
        mix_at(wavelength).green.in_unit_interval(),
        mix_at(wavelength).blue.in_unit_interval(),
{
}

/// The taper factor lies between three tenths and one.
pub proof fn lemma_taper_bounds(wavelength: u32)
    ensures
        0 < taper_at(wavelength).factor_den(),
        3 * taper_at(wavelength).factor_den() <= 10 * taper_at(wavelength).factor_num(),
        taper_at(wavelength).factor_num() <= taper_at(wavelength).factor_den(),
{
}

/// The intensity of every channel, its level times the taper factor, lies
/// between zero and one: gamma correction and scaling by 255 keep it within
/// the eight bits of a channel.
pub proof fn lemma_intensities_in_unit_interval(wavelength: u32)
    ensures
        mix_at(wavelength).intensity_in_unit_interval(mix_at(wavelength).red),
        mix_at(wavelength).intensity_in_unit_interval(mix_at(wavelength).green),
        mix_at(wavelength).intensity_in_unit_interval(mix_at(wavelength).blue),
{
    let mix = mix_at(wavelength);
    lemma_levels_in_unit_interval(wavelength);
    lemma_taper_bounds(wavelength);
    lemma_intensity_bounds(mix, mix.red);
    lemma_intensity_bounds(mix, mix.green);
    lemma_intensity_bounds(mix, mix.blue);
}

proof fn lemma_intensity_bounds(mix: Mix, level: Ratio)
    requires
        level.in_unit_interval(),
        0 < mix.taper.factor_num() <= mix.taper.factor_den(),
    ensures
        mix.intensity_in_unit_interval(level),
{
    let factor_num = mix.taper.factor_num();
    let factor_den = mix.taper.factor_den();
    lemma_mul_upper_bound(level.num as int, level.den as int, factor_num, factor_den);
    assert(0 <= level.num * factor_num) by (nonlinear_arith)
        requires
            0 <= level.num,
            0 < factor_num,
    ;
    assert(0 < level.den * factor_den) by (nonlinear_arith)
        requires
            0 < level.den,
            0 < factor_den,
    ;
}

/// The dark mix is the mix of exactly the wavelengths outside 380 to 780 nm.
pub proof fn lemma_dark_exactly_outside(wavelength: u32)
    ensures
        mix_at(wavelength) == Mix::dark() <==> !(VISIBLE_MIN <= wavelength <= VISIBLE_MAX),
{
}

/// Every iteration count below the budget lands on a visible wavelength.
pub proof fn lemma_counts_are_visible(iteration: u32, budget: u32)
    requires
        iteration < budget,
    ensures
        VISIBLE_MIN <= wavelength_for(iteration, budget) < VISIBLE_MAX,
        band_at(wavelength_for(iteration, budget) as u32) != Band::Dark,
{
    assert(VISIBLE_SPAN == 400);
    lemma_multiply_divide_lt(iteration * 400, budget as int, 400);
}

/// Spreads the iteration counts `0..budget` over the visible range, lowest
/// count at the violet end.
pub fn wavelength_at(iteration: u32, budget: u32) -> (wavelength: u32)
    requires
        iteration < budget,
    ensures
        wavelength == wavelength_for(iteration, budget),
        VISIBLE_MIN <= wavelength < VISIBLE_MAX,
{
    let span: u64 = VISIBLE_SPAN as u64;
    let scaled: u64 = iteration as u64 * span;
    let offset: u64 = scaled / (budget as u64);
    proof {
        lemma_multiply_divide_lt(scaled as int, budget as int, 400);
    }
    VISIBLE_MIN + offset as u32
}

/// Finds the band of `wavelength`.
pub fn band_of(wavelength: u32) -> (band: Band)
    ensures
        band == band_at(wavelength),
{
    if wavelength < 380 {
        Band::Dark
    } else if wavelength < 440 {
        Band::Violet
    } else if wavelength < 490 {
        Band::Blue
    } else if wavelength < 510 {
        Band::Cyan
    } else if wavelength < 580 {
        Band::Green
    } else if wavelength < 645 {
        Band::Orange
    } else if wavelength <= 780 {
        Band::Red
    } else {
        Band::Dark
    }
}

/// Finds the taper of `wavelength`.
pub fn taper_of(wavelength: u32) -> (taper: Taper)
    ensures
        taper == taper_at(wavelength),
{
    if 380 <= wavelength && wavelength <= 419 {
        Taper::Ramp(Ratio { num: wavelength - 380, den: 40 })
    } else if 701 <= wavelength && wavelength <= 780 {
        Taper::Ramp(Ratio { num: 780 - wavelength, den: 80 })
    } else {
        Taper::Full
    }
}

/// Maps a wavelength to its channel levels and taper. A wavelength outside
/// 380 to 780 nm gets the dark mix.
pub fn spectral_mix(wavelength: u32) -> (mix: Mix)
    ensures
        mix == mix_at(wavelength),
        !(VISIBLE_MIN <= wavelength <= VISIBLE_MAX) ==> mix == Mix::dark(),
{
    let zero = Ratio { num: 0, den: 1 };
    let one = Ratio { num: 1, den: 1 };
    let taper = taper_of(wavelength);
    match band_of(wavelength) {
        Band::Violet => Mix {
            red: Ratio { num: 440 - wavelength, den: 60 },
            green: zero,
            blue: one,
            taper,
        },
        Band::Blue => Mix {
            red: zero,
            green: Ratio { num: wavelength - 440, den: 50 },
            blue: one,
            taper,
        },
        Band::Cyan => Mix {
            red: zero,
            green: one,
            blue: Ratio { num: 510 - wavelength, den: 20 },
            taper,
        },
        Band::Green => Mix {
            red: Ratio { num: wavelength - 510, den: 70 },
            green: one,
            blue: zero,
            taper,
        },
        Band::Orange => Mix {
            red: one,
            green: Ratio { num: 645 - wavelength, den: 65 },
            blue: zero,
            taper,
        },
        Band::Red => Mix { red: one, green: zero, blue: zero, taper },
        Band::Dark => Mix { red: zero, green: zero, blue: zero, taper },
    }
}

} // verus!
