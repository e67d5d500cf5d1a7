use vstd::prelude::*;

use crate::step_count::{ratio_is_integral, steps_integral};
use crate::types::{encodes_le_zero, le_zero, DistributionPattern, OutputFormat, RainfallParams};

verus! {

/// Parameters that passed domain validation, together with the chosen
/// placement pattern and output settings.
#[derive(Debug)]
pub struct ValidatedParams {
    pub rainfall_params: RainfallParams,
    pub pattern: DistributionPattern,
    pub output_config: OutputConfig,
}

/// Where and in which format the run writes its output.
#[derive(Debug)]
pub struct OutputConfig {
    pub output_path: String,
    pub format: OutputFormat,
}

/// The domain errors that keep a run from starting, one per offending
/// parameter, in the order the checks run.
#[derive(Debug, Clone, Copy, PartialEq, Eq, Structural)]
pub enum ValidationError {
    /// `a <= 0`.
    NonPositiveA,
    /// `b <= 0`.
    NonPositiveB,
    /// `c <= 0`.
    NonPositiveC,
    /// `t <= 0`.
    NonPositiveT,
    /// `tt <= 0`.
    NonPositiveTt,
    /// `tt * 60 / t` is not an integer within tolerance.
    NonIntegralStepCount,
}

impl ValidationError {
    /// A description of the error, naming the offending parameter.
    pub fn message(&self) -> (m: String)
        ensures
            m@ == self.spec_message(),
    {
        match self {
            ValidationError::NonPositiveA => {
                "Parameter A must be positive (> 0). Valid range: A > 0".to_owned()
            },
            ValidationError::NonPositiveB => {
                "Parameter B must be positive (> 0). Valid range: B > 0".to_owned()
            },
            ValidationError::NonPositiveC => {
                "Parameter C must be positive (> 0). Valid range: C > 0".to_owned()
            },
            ValidationError::NonPositiveT => {
                "Parameter T must be positive (> 0). Valid range: T > 0".to_owned()
            },
            ValidationError::NonPositiveTt => {
                "Parameter TT must be positive (> 0). Valid range: TT > 0".to_owned()
            },
            ValidationError::NonIntegralStepCount => {
                "TT * 60 / T must be an integer. Adjust T or TT so that the duration divides evenly into time steps.".to_owned()
            },
        }
    }

    /// The text `message` returns, per variant.
    pub open spec fn spec_message(&self) -> Seq<char> {
        match self {
            ValidationError::NonPositiveA => "Parameter A must be positive (> 0). Valid range: A > 0"@,
            ValidationError::NonPositiveB => "Parameter B must be positive (> 0). Valid range: B > 0"@,
            ValidationError::NonPositiveC => "Parameter C must be positive (> 0). Valid range: C > 0"@,
            ValidationError::NonPositiveT => "Parameter T must be positive (> 0). Valid range: T > 0"@,
            ValidationError::NonPositiveTt => "Parameter TT must be positive (> 0). Valid range: TT > 0"@,
            ValidationError::NonIntegralStepCount => "TT * 60 / T must be an integer. Adjust T or TT so that the duration divides evenly into time steps."@,
        }
    }
}

/// Whether all five coefficients encode strictly positive values.
pub open spec fn params_positive(params: RainfallParams) -> bool {
    &&& !encodes_le_zero(params.a)
    &&& !encodes_le_zero(params.b)
    &&& !encodes_le_zero(params.c)
    &&& !encodes_le_zero(params.t)
    &&& !encodes_le_zero(params.tt)
}

/// Domain validation of one run's parameters.
///
/// Each coefficient must encode a value that does not compare `<= 0.0`, and
/// the step count `tt * 60 / t` must be an integer within tolerance. The
/// quotient itself is the caller's floating-point work and comes in as
/// `step_ratio`, its bit pattern; every decision here is made from bit
/// patterns alone. The checks run in the order `a, b, c, t, tt`, then the
/// step count, and the first failure names its parameter.
pub fn validate(
    params: &RainfallParams,
    step_ratio: u64,
    pattern: DistributionPattern,
    output_path: String,
    format: OutputFormat,
) -> (r: Result<ValidatedParams, ValidationError>)
    ensures
        r is Ok <==> params_positive(*params) && ratio_is_integral(step_ratio),
        r is Ok ==> {
            let v = r->Ok_0;
            &&& v.rainfall_params == *params
            &&& v.pattern == pattern
            &&& v.output_config.output_path == output_path
            &&& v.output_config.format == format
        },
        r == Result::<ValidatedParams, ValidationError>::Err(ValidationError::NonPositiveA)
            <==> encodes_le_zero(params.a),
        r == Result::<ValidatedParams, ValidationError>::Err(ValidationError::NonPositiveB)
            <==> !encodes_le_zero(params.a) && encodes_le_zero(params.b),
        r == Result::<ValidatedParams, ValidationError>::Err(ValidationError::NonPositiveC)
            <==> !encodes_le_zero(params.a) && !encodes_le_zero(params.b)
                && encodes_le_zero(params.c),
        r == Result::<ValidatedParams, ValidationError>::Err(ValidationError::NonPositiveT)
            <==> !encodes_le_zero(params.a) && !encodes_le_zero(params.b)
                && !encodes_le_zero(params.c) && encodes_le_zero(params.t),
        r == Result::<ValidatedParams, ValidationError>::Err(ValidationError::NonPositiveTt)
            <==> !encodes_le_zero(params.a) && !encodes_le_zero(params.b)
                && !encodes_le_zero(params.c) && !encodes_le_zero(params.t)
                && encodes_le_zero(params.tt),
        r == Result::<ValidatedParams, ValidationError>::Err(ValidationError::NonIntegralStepCount)
            <==> params_positive(*params) && !ratio_is_integral(step_ratio),
{
    if le_zero(params.a) {
        return Err(ValidationError::NonPositiveA);
    }
    if le_zero(params.b) {
        return Err(ValidationError::NonPositiveB);
    }
    if le_zero(params.c) {
        return Err(ValidationError::NonPositiveC);
    }
    if le_zero(params.t) {
        return Err(ValidationError::NonPositiveT);
    }
    if le_zero(params.tt) {
        return Err(ValidationError::NonPositiveTt);
    }
    if !steps_integral(step_ratio) {
        return Err(ValidationError::NonIntegralStepCount);
    }
    Ok(ValidatedParams {
        rainfall_params: *params,
        pattern,
        output_config: OutputConfig { output_path, format },
    })
}

} // verus!
