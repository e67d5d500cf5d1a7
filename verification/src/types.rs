use vstd::prelude::*;

verus! {

// Rainfall quantities (intensities in mm/h, times in minutes, the five IDF
// coefficients) are `f64` values in the callers' world. The verifier does not
// take floating point, so this crate stores each such quantity as the IEEE-754
// binary64 bit pattern of the value: the plain `u64` that `f64::to_bits`
// yields. The conversion is exact and lossless in both directions, and the
// orchestrating layer performs it at the boundary with `f64::to_bits` and
// `f64::from_bits`.
//
// The core logic never does floating-point arithmetic on these quantities:
// it validates them, reads the step count off the quotient (in exact integer
// arithmetic, in the step-count module), and relocates them. The one fact
// read here is whether the encoded value compares less than or equal to
// zero, and that is decided by the binary64 layout alone (bit 63 the sign,
// bits 62..52 the exponent, bits 51..0 the significand): a value compares
// `<= 0.0` exactly when it is one of the two zeros (`0x0` and
// `0x8000_0000_0000_0000`) or a negative non-NaN, that is, a pattern with
// the sign bit set that is not a NaN. A NaN (all-ones exponent with a
// nonzero significand) compares false against everything, so both NaN sign
// variants count as not `<= 0.0`, as the same comparison on the `f64` itself
// would.

/// Whether the `f64` value encoded by this bit pattern compares `<= 0.0`.
///
/// `0x8000_0000_0000_0000` is `-0.0`; `0xFFF0_0000_0000_0000` is negative
/// infinity, the largest bit pattern whose sign bit is set that is not a NaN.
pub open spec fn encodes_le_zero(bits: u64) -> bool {
    bits == 0u64 || (0x8000_0000_0000_0000u64 <= bits && bits <= 0xFFF0_0000_0000_0000u64)
}

/// Decides `encodes_le_zero` on a quantity's bit pattern.
pub fn le_zero(bits: u64) -> (r: bool)
    ensures
        r == encodes_le_zero(bits),
{
    bits == 0 || (0x8000_0000_0000_0000 <= bits && bits <= 0xFFF0_0000_0000_0000)
}

/// The five coefficients of one IDF-derived storm: exponent `a`, additive
/// constant `b`, numerator constant `c`, time step `t` in minutes, and total
/// duration `tt` in hours. Each field is the bit pattern of the `f64` value.
#[derive(Debug, Clone, Copy)]
pub struct RainfallParams {
    /// Exponent of the IDF denominator.
    pub a: u64,
    /// Additive constant of the IDF denominator.
    pub b: u64,
    /// Numerator constant of the IDF formula.
    pub c: u64,
    /// Time step in minutes.
    pub t: u64,
    /// Total storm duration in hours.
    pub tt: u64,
}

/// One time step of the hyetograph: the elapsed time in minutes and the
/// rainfall intensity in mm/h, both as `f64` bit patterns.
#[derive(Debug, Clone, Copy)]
pub struct HyetographEntry {
    /// Elapsed time in minutes at the end of this step.
    pub time_minutes: u64,
    /// Incremental rainfall intensity of this step in mm/h.
    pub intensity: u64,
}

/// How the descending increments are placed on the time axis.
#[derive(Debug, Clone, Copy, PartialEq, Eq, Structural)]
pub enum DistributionPattern {
    /// Largest increment first: a monotonically decreasing series.
    Front,
    /// Alternating block method: the largest increment at the middle, the
    /// rest alternating outward on both sides.
    Center,
    /// Largest increment last: a monotonically increasing series.
    Rear,
}

impl DistributionPattern {
    /// The closed set of variants, in declaration order.
    pub fn value_variants() -> (r: Vec<DistributionPattern>)
        ensures
            r@.len() == 3,
            r@[0] == DistributionPattern::Front,
            r@[1] == DistributionPattern::Center,
            r@[2] == DistributionPattern::Rear,
    {
        let mut v: Vec<DistributionPattern> = Vec::new();
        v.push(DistributionPattern::Front);
        v.push(DistributionPattern::Center);
        v.push(DistributionPattern::Rear);
        v
    }
}

impl Default for DistributionPattern {
    fn default() -> (r: Self)
        ensures
            r == DistributionPattern::Center,
    {
        DistributionPattern::Center
    }
}

/// Which artifacts one run writes.
#[derive(Debug, Clone, Copy, PartialEq, Eq, Structural)]
pub enum OutputFormat {
    /// The chart alone.
    Png,
    /// The data file alone.
    Csv,
    /// Both the chart and the data file.
    Both,
}

impl OutputFormat {
    /// The closed set of variants, in declaration order.
    pub fn value_variants() -> (r: Vec<OutputFormat>)
        ensures
            r@.len() == 3,
            r@[0] == OutputFormat::Png,
            r@[1] == OutputFormat::Csv,
            r@[2] == OutputFormat::Both,
    {
        let mut v: Vec<OutputFormat> = Vec::new();
        v.push(OutputFormat::Png);
        v.push(OutputFormat::Csv);
        v.push(OutputFormat::Both);
        v
    }
}

impl Default for OutputFormat {
    fn default() -> (r: Self)
        ensures
            r == OutputFormat::Png,
    {
        OutputFormat::Png
    }
}

} // verus!
