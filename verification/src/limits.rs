//! The limits of the parameters that checked requests may set.

use crate::binary64::Binary64;
use crate::manifest::{
    FIFTY, ONE_QUARTER, ONE_TENTH, ONE_TWENTIETH, SIX_FIFTHS, TEN, ZERO,
};
use crate::text::{joined, quoted, quoted_text};
use crate::text_map::TextMap;
use vstd::prelude::*;

verus! {

/// The values that a parameter may take, and how the two limits are printed.
#[derive(Clone, Debug, PartialEq, Eq)]
pub struct Limits {
    pub minimum: Binary64,
    pub maximum: Binary64,
    pub minimum_text: String,
    pub maximum_text: String,
}

/// What limits hold.
pub ghost struct Bounds {
    pub minimum: Binary64,
    pub maximum: Binary64,
    pub minimum_text: Seq<char>,
    pub maximum_text: Seq<char>,
}

impl View for Limits {
    type V = Bounds;

    open spec fn view(&self) -> Bounds {
        Bounds {
            minimum: self.minimum,
            maximum: self.maximum,
            minimum_text: self.minimum_text@,
            maximum_text: self.maximum_text@,
        }
    }
}

/// What the limits of each parameter hold.
pub open spec fn bounds_of(limits: Map<Seq<char>, Limits>) -> Map<Seq<char>, Bounds> {
    limits.map_values(|limits: Limits| limits@)
}

/// The values that a limits document holds.
#[derive(Debug)]
pub struct ParameterLimitsFile {
    pub schema: String,
    pub parameters: Vec<ParameterLimit>,
}

/// One parameter of a limits document, and how its two limits are printed.
#[derive(Debug)]
pub struct ParameterLimit {
    pub name: String,
    pub minimum: Binary64,
    pub maximum: Binary64,
    pub minimum_text: String,
    pub maximum_text: String,
}

/// The limits schema that is understood.
pub const PARAMETER_LIMITS_SCHEMA: &'static str = "electrode.public-lan-parameter-limits.v1";

/// The number of parameters that a limits document defines.
pub const PUBLIC_PARAMETERS: usize = 7;

/// The parameter that only budgeted requests may set.
pub const VELOCITY_SETPOINT: &'static str = "velocity.setpoint";

/// 1.0
pub const ONE: u64 = 0x3ff0_0000_0000_0000;

/// 4.0
pub const FOUR: u64 = 0x4010_0000_0000_0000;

/// A parameter that a limits document defines.
pub open spec fn is_public(name: Seq<char>) -> bool {
    ||| name == VELOCITY_SETPOINT@
    ||| name == "route.crossTrackSteeringDistance"@
    ||| name == "route.waypointSwitchingDistance"@
    ||| name == "attitude.rollLimit"@
    ||| name == "attitude.headingPid.kp"@
    ||| name == "attitude.headingPid.ki"@
    ||| name == "attitude.headingPid.kd"@
}

/// Whether a limits document defines the parameter.
pub fn public_parameter(name: &str) -> (result: bool)
    ensures
        result == is_public(name@),
{
    *name == *VELOCITY_SETPOINT || *name == *"route.crossTrackSteeringDistance" || *name
        == *"route.waypointSwitchingDistance" || *name == *"attitude.rollLimit" || *name
        == *"attitude.headingPid.kp" || *name == *"attitude.headingPid.ki" || *name
        == *"attitude.headingPid.kd"
}

/// What is wrong with one parameter, given the limits before it.
pub open spec fn limit_fault(
    parameter: ParameterLimit,
    before: Map<Seq<char>, Bounds>,
) -> Option<Seq<char>> {
    if !is_public(parameter.name@) {
        Some("unexpected public parameter "@ + quoted_text(parameter.name@))
    } else if !parameter.minimum.finite() || !parameter.maximum.finite()
        || parameter.maximum.below(parameter.minimum) {
        Some("invalid limits for "@ + quoted_text(parameter.name@))
    } else if before.dom().contains(parameter.name@) {
        Some("duplicate public parameter "@ + quoted_text(parameter.name@))
    } else {
        None
    }
}

/// The limits that the parameters define; the first fault stands for all.
pub open spec fn collected_limits(parameters: Seq<ParameterLimit>) -> Result<
    Map<Seq<char>, Bounds>,
    Seq<char>,
>
    decreases parameters.len(),
{
    if parameters.len() == 0 {
        Ok(Map::empty())
    } else {
        match collected_limits(parameters.drop_last()) {
            Err(fault) => Err(fault),
            Ok(limits) => match limit_fault(parameters.last(), limits) {
                Some(fault) => Err(fault),
                None => Ok(
                    limits.insert(
                        parameters.last().name@,
                        (Bounds {
                            minimum: parameters.last().minimum,
                            maximum: parameters.last().maximum,
                            minimum_text: parameters.last().minimum_text@,
                            maximum_text: parameters.last().maximum_text@,
                        }),
                    ),
                ),
            },
        }
    }
}

/// The limits that a document defines.
pub open spec fn limits_outcome(file: ParameterLimitsFile) -> Result<
    Map<Seq<char>, Bounds>,
    Seq<char>,
> {
    if file.schema@ != PARAMETER_LIMITS_SCHEMA@ {
        Err("unsupported schema "@ + quoted_text(file.schema@))
    } else if file.parameters@.len() != PUBLIC_PARAMETERS {
        Err("limits must define exactly seven public parameters"@)
    } else {
        collected_limits(file.parameters@)
    }
}

proof fn lemma_collected_prefix(parameters: Seq<ParameterLimit>, count: int)
    requires
        0 <= count <= parameters.len(),
        collected_limits(parameters.take(count)) is Err,
    ensures
        collected_limits(parameters) == collected_limits(parameters.take(count)),
    decreases parameters.len(),
{
    if count < parameters.len() {
        assert(parameters.drop_last().take(count) == parameters.take(count));
        lemma_collected_prefix(parameters.drop_last(), count);
    } else {
        assert(parameters.take(count) == parameters);
    }
}

fn find_fault(parameter: &ParameterLimit, before: &TextMap<Limits>) -> (fault: Option<String>)
    requires
        before.well_formed(),
    ensures
        fault is Some == limit_fault(*parameter, bounds_of(before@)) is Some,
        fault is Some ==> fault->0@ == limit_fault(*parameter, bounds_of(before@))->0,
{
    let name = parameter.name.as_str();
    let complaint = if !public_parameter(name) {
        "unexpected public parameter "
    } else if !parameter.minimum.is_finite() || !parameter.maximum.is_finite()
        || parameter.maximum.is_below(&parameter.minimum) {
        "invalid limits for "
    } else if before.contains(name) {
        "duplicate public parameter "
    } else {
        return None;
    };
    Some(joined(complaint, quoted(name).as_str()))
}

/// The limits that a document defines: one pair of finite numbers for each public parameter.
pub fn parse_parameter_limits(file: &ParameterLimitsFile) -> (result: Result<
    TextMap<Limits>,
    String,
>)
    ensures
        match limits_outcome(*file) {
            Ok(limits) => result is Ok && result->Ok_0.well_formed() && bounds_of(result->Ok_0@)
                == limits,
            Err(fault) => result is Err && result->Err_0@ == fault,
        },
{
    if *file.schema.as_str() != *PARAMETER_LIMITS_SCHEMA {
        return Err(joined("unsupported schema ", quoted(file.schema.as_str()).as_str()));
    }
    if file.parameters.len() != PUBLIC_PARAMETERS {
        return Err("limits must define exactly seven public parameters".to_owned());
    }
    let mut limits: TextMap<Limits> = TextMap::new();
    assert(bounds_of(limits@) =~= Map::empty());
    for index in 0..file.parameters.len()
        invariant
            limits.well_formed(),
            file.schema@ == PARAMETER_LIMITS_SCHEMA@,
            file.parameters@.len() == PUBLIC_PARAMETERS,
            collected_limits(file.parameters@.take(index as int)) == Ok::<
                Map<Seq<char>, Bounds>,
                Seq<char>,
            >(bounds_of(limits@)),
    {
        let parameter = &file.parameters[index];
        let ghost next = file.parameters@.take(index + 1);
        assert(next.drop_last() == file.parameters@.take(index as int));
        if let Some(fault) = find_fault(parameter, &limits) {
            proof {
                lemma_collected_prefix(file.parameters@, index + 1);
            }
            return Err(fault);
        }
        let allowed = Limits {
            minimum: parameter.minimum,
            maximum: parameter.maximum,
            minimum_text: parameter.minimum_text.clone(),
            maximum_text: parameter.maximum_text.clone(),
        };
        let ghost before = bounds_of(limits@);
        limits.set(parameter.name.as_str(), allowed);
        assert(bounds_of(limits@) =~= before.insert(parameter.name@, allowed@));
    }
    assert(file.parameters@.take(file.parameters@.len() as int) == file.parameters@);
    Ok(limits)
}

/// The limits between two printed numbers.
pub open spec fn bounds(minimum: u64, least: Seq<char>, maximum: u64, most: Seq<char>) -> Bounds {
    Bounds {
        minimum: Binary64 { bits: minimum },
        maximum: Binary64 { bits: maximum },
        minimum_text: least,
        maximum_text: most,
    }
}

/// The limits where no document names others.
pub open spec fn default_limits(name: Seq<char>) -> Option<Bounds> {
    if name == VELOCITY_SETPOINT@ {
        Some(bounds(ONE, "1"@, FOUR, "4"@))
    } else if name == "route.crossTrackSteeringDistance"@ {
        Some(bounds(ONE_QUARTER, "0.25"@, FIFTY, "50"@))
    } else if name == "route.waypointSwitchingDistance"@ {
        Some(bounds(ONE_TENTH, "0.1"@, FIFTY, "50"@))
    } else if name == "attitude.rollLimit"@ {
        Some(bounds(ONE_TWENTIETH, "0.05"@, SIX_FIFTHS, "1.2"@))
    } else if name == "attitude.headingPid.kp"@ || name == "attitude.headingPid.ki"@ || name
        == "attitude.headingPid.kd"@ {
        Some(bounds(ZERO, "0"@, TEN, "10"@))
    } else {
        None
    }
}

/// The default limits by parameter.
pub open spec fn default_limits_map() -> Map<Seq<char>, Bounds> {
    Map::new(
        |name: Seq<char>| default_limits(name) is Some,
        |name: Seq<char>| default_limits(name)->0,
    )
}

fn put_limits(
    limits: &mut TextMap<Limits>,
    name: &str,
    minimum: (u64, &str),
    maximum: (u64, &str),
)
    requires
        old(limits).well_formed(),
    ensures
        final(limits).well_formed(),
        bounds_of(final(limits)@) == bounds_of(old(limits)@).insert(
            name@,
            bounds(minimum.0, minimum.1@, maximum.0, maximum.1@),
        ),
{
    let allowed = Limits {
        minimum: Binary64 { bits: minimum.0 },
        maximum: Binary64 { bits: maximum.0 },
        minimum_text: minimum.1.to_owned(),
        maximum_text: maximum.1.to_owned(),
    };
    limits.set(name, allowed);
    assert(bounds_of(limits@) =~= bounds_of(old(limits)@).insert(name@, allowed@));
}

/// The limits where no document names others.
pub fn default_parameter_limits() -> (limits: TextMap<Limits>)
    ensures
        limits.well_formed(),
        bounds_of(limits@) == default_limits_map(),
{
    let mut limits: TextMap<Limits> = TextMap::new();
    put_limits(&mut limits, "attitude.headingPid.kd", (ZERO, "0"), (TEN, "10"));
    put_limits(&mut limits, "attitude.headingPid.ki", (ZERO, "0"), (TEN, "10"));
    put_limits(&mut limits, "attitude.headingPid.kp", (ZERO, "0"), (TEN, "10"));
    put_limits(&mut limits, "attitude.rollLimit", (ONE_TWENTIETH, "0.05"), (SIX_FIFTHS, "1.2"));
    put_limits(&mut limits, "route.waypointSwitchingDistance", (ONE_TENTH, "0.1"), (FIFTY, "50"));
    put_limits(
        &mut limits,
        "route.crossTrackSteeringDistance",
        (ONE_QUARTER, "0.25"),
        (FIFTY, "50"),
    );
    put_limits(&mut limits, VELOCITY_SETPOINT, (ONE, "1"), (FOUR, "4"));
    assert(bounds_of(limits@) =~= default_limits_map());
    limits
}

} // verus!
