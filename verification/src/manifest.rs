//! The organizer's parameter manifest, bound to one exact baseline image.

use crate::binary64::{double_at, read_double, Binary64};
use crate::digest::{full_sha256, sha256_text};
use crate::parameters::{
    change_allowed, lemma_identical_image_allowed, regions_apart, value_is_valid, values_valid,
    ParameterPolicy, ParameterRegion, PARAMETER_BYTES,
};
use crate::sorting::{in_order, is_sorted, lemma_in_order, sort, Ranked};
use crate::tables::optional_view;
use crate::text::{joined, text_bytes};
use vstd::prelude::*;

verus! {

/// The manifest schema that is understood.
pub const PARAMETER_MANIFEST_SCHEMA: &'static str = "electrode.autopilot-parameter-policy.v1";

/// The only encoding that a parameter may have.
pub const PARAMETER_ENCODING: &'static str = "float64-le";

/// The number of parameters that have limits.
pub const KNOWN_PARAMETERS: usize = 6;

/// 0.0
pub const ZERO: u64 = 0;

/// 0.05
pub const ONE_TWENTIETH: u64 = 0x3fa9_9999_9999_999a;

/// 0.1
pub const ONE_TENTH: u64 = 0x3fb9_9999_9999_999a;

/// 0.25
pub const ONE_QUARTER: u64 = 0x3fd0_0000_0000_0000;

/// 1.2
pub const SIX_FIFTHS: u64 = 0x3ff3_3333_3333_3333;

/// 10.0
pub const TEN: u64 = 0x4024_0000_0000_0000;

/// 50.0
pub const FIFTY: u64 = 0x4049_0000_0000_0000;

/// The values that a manifest document holds.
#[derive(Debug)]
pub struct ParameterManifestFile {
    pub schema: String,
    pub target: String,
    pub board_id: String,
    pub baseline_sha256: String,
    pub parameters: Vec<ParameterManifestRegion>,
}

/// One parameter of a manifest document.
#[derive(Debug)]
pub struct ParameterManifestRegion {
    pub name: String,
    pub offset: u64,
    pub encoding: String,
    pub minimum: Binary64,
    pub maximum: Binary64,
}

/// Why a manifest authorizes nothing.
#[derive(Debug)]
pub enum ManifestError {
    UnsupportedSchema,
    TargetMismatch,
    BoardMismatch,
    BaselineMismatch,
    ParameterCount,
    UnknownParameter(String),
    DuplicateParameter(String),
    MetadataMismatch(String),
    OffsetDoesNotFit,
    OffsetOverflow,
    OffsetOutside,
    InvalidBaselineValue,
    Overlap,
    NotCanonical,
}

impl ManifestError {
    /// The sentence that describes the error.
    pub open spec fn text(self) -> Seq<char> {
        match self {
            ManifestError::UnsupportedSchema => "unsupported autopilot parameter manifest schema"@,
            ManifestError::TargetMismatch => "autopilot parameter manifest target mismatch"@,
            ManifestError::BoardMismatch => "autopilot parameter manifest board mismatch"@,
            ManifestError::BaselineMismatch =>
                "autopilot parameter manifest baseline hash mismatch"@,
            ManifestError::ParameterCount =>
                "autopilot parameter manifest must contain one to six parameters"@,
            ManifestError::UnknownParameter(name) => "unknown autopilot parameter "@ + name@,
            ManifestError::DuplicateParameter(name) => "duplicate autopilot parameter "@ + name@,
            ManifestError::MetadataMismatch(name) =>
                "autopilot parameter metadata mismatch for "@ + name@,
            ManifestError::OffsetDoesNotFit =>
                "autopilot parameter offset does not fit this host"@,
            ManifestError::OffsetOverflow => "autopilot parameter offset overflow"@,
            ManifestError::OffsetOutside =>
                "autopilot parameter offset is outside the baseline"@,
            ManifestError::InvalidBaselineValue =>
                "baseline autopilot parameter value is invalid"@,
            ManifestError::Overlap => "autopilot parameter regions overlap"@,
            ManifestError::NotCanonical => "canonicalize autopilot parameter manifest"@,
        }
    }

    /// The sentence that describes the error.
    pub fn message(&self) -> (text: String)
        ensures
            text@ == self.text(),
    {
        match self {
            ManifestError::UnsupportedSchema =>
                "unsupported autopilot parameter manifest schema".to_owned(),
            ManifestError::TargetMismatch =>
                "autopilot parameter manifest target mismatch".to_owned(),
            ManifestError::BoardMismatch =>
                "autopilot parameter manifest board mismatch".to_owned(),
            ManifestError::BaselineMismatch =>
                "autopilot parameter manifest baseline hash mismatch".to_owned(),
            ManifestError::ParameterCount =>
                "autopilot parameter manifest must contain one to six parameters".to_owned(),
            ManifestError::UnknownParameter(name) =>
                joined("unknown autopilot parameter ", name.as_str()),
            ManifestError::DuplicateParameter(name) =>
                joined("duplicate autopilot parameter ", name.as_str()),
            ManifestError::MetadataMismatch(name) =>
                joined("autopilot parameter metadata mismatch for ", name.as_str()),
            ManifestError::OffsetDoesNotFit =>
                "autopilot parameter offset does not fit this host".to_owned(),
            ManifestError::OffsetOverflow => "autopilot parameter offset overflow".to_owned(),
            ManifestError::OffsetOutside =>
                "autopilot parameter offset is outside the baseline".to_owned(),
            ManifestError::InvalidBaselineValue =>
                "baseline autopilot parameter value is invalid".to_owned(),
            ManifestError::Overlap => "autopilot parameter regions overlap".to_owned(),
            ManifestError::NotCanonical =>
                "canonicalize autopilot parameter manifest".to_owned(),
        }
    }
}

/// The error that `serde_json` reports.
#[verifier::external_type_specification]
#[verifier::external_body]
pub struct ExJsonError(serde_json::Error);

/// The document in compact form, if it is one JSON value.
pub uninterp spec fn compact_json(document: Seq<char>) -> Option<Seq<char>>;

/// `serde_json::from_str` into a `serde_json::Value`, then `serde_json::to_string` of it: the
/// document in compact form, or an error where it is not one JSON value. What the error holds is
/// left unsaid.
#[verifier::external_body]
fn write_compact_json(document: &str) -> (text: Result<String, serde_json::Error>)
    ensures
        match compact_json(document@) {
            Some(compact) => text is Ok && text->Ok_0@ == compact,
            None => text is Err,
        },
{
    serde_json::from_str::<serde_json::Value>(document).and_then(
        |value| serde_json::to_string(&value),
    )
}

/// The limits of a parameter that may be changed.
pub open spec fn known_limits(name: Seq<char>) -> Option<(Binary64, Binary64)> {
    if name == "route.crossTrackSteeringDistance"@ {
        Some((Binary64 { bits: ONE_QUARTER }, Binary64 { bits: FIFTY }))
    } else if name == "route.waypointSwitchingDistance"@ {
        Some((Binary64 { bits: ONE_TENTH }, Binary64 { bits: FIFTY }))
    } else if name == "attitude.rollLimit"@ {
        Some((Binary64 { bits: ONE_TWENTIETH }, Binary64 { bits: SIX_FIFTHS }))
    } else if name == "attitude.headingPid.kp"@ || name == "attitude.headingPid.ki"@ || name
        == "attitude.headingPid.kd"@ {
        Some((Binary64 { bits: ZERO }, Binary64 { bits: TEN }))
    } else {
        None
    }
}

/// The limits of a parameter that may be changed.
pub fn parameter_limits(name: &str) -> (limits: Option<(Binary64, Binary64)>)
    ensures
        limits == known_limits(name@),
{
    if *name == *"route.crossTrackSteeringDistance" {
        Some((Binary64 { bits: ONE_QUARTER }, Binary64 { bits: FIFTY }))
    } else if *name == *"route.waypointSwitchingDistance" {
        Some((Binary64 { bits: ONE_TENTH }, Binary64 { bits: FIFTY }))
    } else if *name == *"attitude.rollLimit" {
        Some((Binary64 { bits: ONE_TWENTIETH }, Binary64 { bits: SIX_FIFTHS }))
    } else if *name == *"attitude.headingPid.kp" || *name == *"attitude.headingPid.ki" || *name
        == *"attitude.headingPid.kd" {
        Some((Binary64 { bits: ZERO }, Binary64 { bits: TEN }))
    } else {
        None
    }
}

/// One of the parameters has the name.
pub open spec fn is_named(parameters: Seq<ParameterManifestRegion>, name: Seq<char>) -> bool {
    exists|i: int| 0 <= i < parameters.len() && (#[trigger] parameters[i]).name@ == name
}

/// What one parameter authorizes, given those that stand before it.
pub open spec fn region_outcome(
    parameter: ParameterManifestRegion,
    earlier: Seq<ParameterManifestRegion>,
    baseline: Seq<u8>,
) -> Result<ParameterRegion, ManifestError> {
    match known_limits(parameter.name@) {
        None => Err(ManifestError::UnknownParameter(parameter.name)),
        Some((minimum, maximum)) => if is_named(earlier, parameter.name@) {
            Err(ManifestError::DuplicateParameter(parameter.name))
        } else if parameter.encoding@ != PARAMETER_ENCODING@ || !parameter.minimum.equals(minimum)
            || !parameter.maximum.equals(maximum) {
            Err(ManifestError::MetadataMismatch(parameter.name))
        } else if parameter.offset > usize::MAX {
            Err(ManifestError::OffsetDoesNotFit)
        } else if parameter.offset + PARAMETER_BYTES > usize::MAX {
            Err(ManifestError::OffsetOverflow)
        } else if parameter.offset + PARAMETER_BYTES > baseline.len() {
            Err(ManifestError::OffsetOutside)
        } else if !double_at(baseline, parameter.offset as int).acceptable(minimum, maximum) {
            Err(ManifestError::InvalidBaselineValue)
        } else {
            Ok(
                (ParameterRegion {
                    name: parameter.name,
                    offset: parameter.offset as usize,
                    length: PARAMETER_BYTES,
                    minimum,
                    maximum,
                }),
            )
        },
    }
}

/// What the parameters authorize, in their order; the first error stands for all.
pub open spec fn regions_outcome(
    parameters: Seq<ParameterManifestRegion>,
    baseline: Seq<u8>,
) -> Result<Seq<ParameterRegion>, ManifestError>
    decreases parameters.len(),
{
    if parameters.len() == 0 {
        Ok(Seq::empty())
    } else {
        match regions_outcome(parameters.drop_last(), baseline) {
            Err(error) => Err(error),
            Ok(regions) => match region_outcome(
                parameters.last(),
                parameters.drop_last(),
                baseline,
            ) {
                Err(error) => Err(error),
                Ok(region) => Ok(regions.push(region)),
            },
        }
    }
}

/// A region reaches into the one that follows it.
pub open spec fn neighbours_overlap(regions: Seq<ParameterRegion>) -> bool {
    exists|i: int|
        0 <= i < regions.len() - 1 && (#[trigger] regions[i]).offset + regions[i].length
            > regions[i + 1].offset
}

/// The regions that the manifest authorizes, by their offsets. `compact` is the compact form of its
/// document, and `baseline_digest` the digest of the baseline.
pub open spec fn policy_outcome(
    compact: Option<Seq<char>>,
    manifest: ParameterManifestFile,
    baseline: Seq<u8>,
    baseline_digest: Seq<char>,
    expected_target: Seq<char>,
    expected_board_id: Seq<char>,
) -> Result<Seq<ParameterRegion>, ManifestError> {
    if manifest.schema@ != PARAMETER_MANIFEST_SCHEMA@ {
        Err(ManifestError::UnsupportedSchema)
    } else if manifest.target@ != expected_target {
        Err(ManifestError::TargetMismatch)
    } else if expected_board_id.len() > 0 && manifest.board_id@ != expected_board_id {
        Err(ManifestError::BoardMismatch)
    } else if manifest.baseline_sha256@ != baseline_digest {
        Err(ManifestError::BaselineMismatch)
    } else if manifest.parameters@.len() == 0 || manifest.parameters@.len() > KNOWN_PARAMETERS {
        Err(ManifestError::ParameterCount)
    } else {
        match regions_outcome(manifest.parameters@, baseline) {
            Err(error) => Err(error),
            Ok(regions) => if neighbours_overlap(in_order(regions)) {
                Err(ManifestError::Overlap)
            } else if compact is None {
                Err(ManifestError::NotCanonical)
            } else {
                Ok(in_order(regions))
            },
        }
    }
}

fn region_from(
    parameter: &ParameterManifestRegion,
    parameters: &Vec<ParameterManifestRegion>,
    index: usize,
    baseline: &[u8],
) -> (result: Result<ParameterRegion, ManifestError>)
    requires
        index < parameters@.len(),
    ensures
        result == region_outcome(*parameter, parameters@.take(index as int), baseline@),
{
    let (minimum, maximum) = match parameter_limits(parameter.name.as_str()) {
        Some(limits) => limits,
        None => return Err(ManifestError::UnknownParameter(parameter.name.clone())),
    };
    let ghost earlier = parameters@.take(index as int);
    for at in 0..index
        invariant
            index < parameters@.len(),
            earlier == parameters@.take(index as int),
            known_limits(parameter.name@) is Some,
            forall|k: int|
                0 <= k < at ==> (#[trigger] parameters@.take(index as int)[k]).name@
                    != parameter.name@,
    {
        if *parameters[at].name.as_str() == *parameter.name.as_str() {
            assert(earlier[at as int].name@ == parameter.name@);
            return Err(ManifestError::DuplicateParameter(parameter.name.clone()));
        }
    }
    if *parameter.encoding.as_str() != *PARAMETER_ENCODING || !parameter.minimum.is_equal(&minimum)
        || !parameter.maximum.is_equal(&maximum) {
        return Err(ManifestError::MetadataMismatch(parameter.name.clone()));
    }
    if parameter.offset > usize::MAX as u64 {
        return Err(ManifestError::OffsetDoesNotFit);
    }
    let offset: usize = parameter.offset as usize;
    match offset.checked_add(PARAMETER_BYTES) {
        None => Err(ManifestError::OffsetOverflow),
        Some(end) => if end > baseline.len() {
            Err(ManifestError::OffsetOutside)
        } else if !read_double(baseline, offset).is_acceptable(&minimum, &maximum) {
            Err(ManifestError::InvalidBaselineValue)
        } else {
            Ok(
                ParameterRegion {
                    name: parameter.name.clone(),
                    offset,
                    length: PARAMETER_BYTES,
                    minimum,
                    maximum,
                },
            )
        },
    }
}

proof fn lemma_regions_outcome_prefix(
    parameters: Seq<ParameterManifestRegion>,
    baseline: Seq<u8>,
    count: int,
)
    requires
        0 <= count <= parameters.len(),
        regions_outcome(parameters.take(count), baseline) is Err,
    ensures
        regions_outcome(parameters, baseline) == regions_outcome(
            parameters.take(count),
            baseline,
        ),
    decreases parameters.len(),
{
    if count < parameters.len() {
        assert(parameters.drop_last().take(count) == parameters.take(count));
        lemma_regions_outcome_prefix(parameters.drop_last(), baseline, count);
    } else {
        assert(parameters.take(count) == parameters);
    }
}

fn regions_from(parameters: &Vec<ParameterManifestRegion>, baseline: &[u8]) -> (result: Result<
    Vec<ParameterRegion>,
    ManifestError,
>)
    ensures
        match regions_outcome(parameters@, baseline@) {
            Ok(regions) => result is Ok && result->Ok_0@ == regions,
            Err(error) => result is Err && result->Err_0 == error,
        },
{
    let mut regions: Vec<ParameterRegion> = Vec::new();
    for index in 0..parameters.len()
        invariant
            regions_outcome(parameters@.take(index as int), baseline@) == Ok::<
                Seq<ParameterRegion>,
                ManifestError,
            >(regions@),
    {
        let ghost next = parameters@.take(index + 1);
        assert(next.drop_last() == parameters@.take(index as int));
        match region_from(&parameters[index], parameters, index, baseline) {
            Ok(region) => {
                regions.push(region);
            },
            Err(error) => {
                proof {
                    lemma_regions_outcome_prefix(parameters@, baseline@, index + 1);
                }
                return Err(error);
            },
        }
    }
    assert(parameters@.take(parameters@.len() as int) == parameters@);
    Ok(regions)
}

proof fn lemma_regions_hold_values(parameters: Seq<ParameterManifestRegion>, baseline: Seq<u8>)
    requires
        regions_outcome(parameters, baseline) is Ok,
    ensures
        ({
            let regions = regions_outcome(parameters, baseline)->Ok_0;
            forall|i: int|
                0 <= i < regions.len() ==> value_is_valid(baseline, #[trigger] regions[i])
                    && regions[i].length == PARAMETER_BYTES
        }),
    decreases parameters.len(),
{
    if parameters.len() > 0 {
        lemma_regions_hold_values(parameters.drop_last(), baseline);
    }
}

proof fn lemma_ordered_regions_hold_values(
    parameters: Seq<ParameterManifestRegion>,
    baseline: Seq<u8>,
)
    requires
        regions_outcome(parameters, baseline) is Ok,
    ensures
        ({
            let ordered = in_order(regions_outcome(parameters, baseline)->Ok_0);
            &&& is_sorted(ordered)
            &&& forall|i: int|
                0 <= i < ordered.len() ==> value_is_valid(baseline, #[trigger] ordered[i])
                    && ordered[i].length == PARAMETER_BYTES
        }),
{
    let regions = regions_outcome(parameters, baseline)->Ok_0;
    let ordered = in_order(regions);
    lemma_regions_hold_values(parameters, baseline);
    lemma_in_order(regions);
    crate::parameters::lemma_same_items(ordered, regions);
    assert forall|i: int| 0 <= i < ordered.len() implies value_is_valid(
        baseline,
        #[trigger] ordered[i],
    ) && ordered[i].length == PARAMETER_BYTES by {
        assert(regions.contains(ordered[i]));
    }
}

fn find_overlap(regions: &Vec<ParameterRegion>) -> (result: bool)
    requires
        forall|i: int|
            0 <= i < regions@.len() ==> (#[trigger] regions@[i]).offset + regions@[i].length
                <= usize::MAX,
    ensures
        result == neighbours_overlap(regions@),
{
    let mut index: usize = 1;
    while index < regions.len()
        invariant
            1 <= index,
            forall|i: int|
                0 <= i < regions@.len() ==> (#[trigger] regions@[i]).offset + regions@[i].length
                    <= usize::MAX,
            forall|i: int|
                0 <= i < index - 1 && i < regions@.len() - 1 ==> (#[trigger] regions@[i]).offset
                    + regions@[i].length <= regions@[i + 1].offset,
        decreases regions@.len() - index,
    {
        let region = &regions[index - 1];
        assert(regions@[index - 1] == *region);
        if region.offset + region.length > regions[index].offset {
            assert(regions@[index - 1].offset + regions@[index - 1].length > regions@[(index - 1)
                + 1].offset);
            return true;
        }
        index += 1;
    }
    false
}

/// The policy holds the regions, and what the manifest and its document say.
pub open spec fn policy_tells(
    policy: ParameterPolicy,
    regions: Seq<ParameterRegion>,
    manifest: ParameterManifestFile,
    compact: Option<Seq<char>>,
) -> bool {
    &&& policy.regions@ == regions
    &&& policy.baseline_sha256@ == manifest.baseline_sha256@
    &&& policy.target@ == manifest.target@
    &&& policy.board_id@ == manifest.board_id@
    &&& compact == Some(policy.manifest_json@)
}

/// Binds the parameters that a manifest declares to one exact baseline image, given the compact
/// form of the manifest's document and the baseline's digest.
pub fn bind_parameter_policy(
    compact: Option<String>,
    manifest: ParameterManifestFile,
    baseline: &[u8],
    baseline_digest: &str,
    expected_target: &str,
    expected_board_id: &str,
) -> (result: Result<ParameterPolicy, ManifestError>)
    ensures
        match policy_outcome(
            optional_view(compact),
            manifest,
            baseline@,
            baseline_digest@,
            expected_target@,
            expected_board_id@,
        ) {
            Ok(regions) => result is Ok && policy_tells(
                result->Ok_0,
                regions,
                manifest,
                optional_view(compact),
            ),
            Err(error) => result is Err && result->Err_0 == error,
        },
{
    if *manifest.schema.as_str() != *PARAMETER_MANIFEST_SCHEMA {
        return Err(ManifestError::UnsupportedSchema);
    }
    if *manifest.target.as_str() != *expected_target {
        return Err(ManifestError::TargetMismatch);
    }
    if text_bytes(expected_board_id) > 0 && *manifest.board_id.as_str() != *expected_board_id {
        return Err(ManifestError::BoardMismatch);
    }
    if *manifest.baseline_sha256.as_str() != *baseline_digest {
        return Err(ManifestError::BaselineMismatch);
    }
    if manifest.parameters.len() == 0 || manifest.parameters.len() > KNOWN_PARAMETERS {
        return Err(ManifestError::ParameterCount);
    }
    let unsorted = match regions_from(&manifest.parameters, baseline) {
        Ok(regions) => regions,
        Err(error) => return Err(error),
    };
    let regions = sort(unsorted);
    proof {
        lemma_ordered_regions_hold_values(manifest.parameters@, baseline@);
    }
    let _size: usize = baseline.len();
    if find_overlap(&regions) {
        return Err(ManifestError::Overlap);
    }
    match compact {
        Some(manifest_json) => Ok(
            ParameterPolicy {
                baseline_sha256: manifest.baseline_sha256,
                target: manifest.target,
                board_id: manifest.board_id,
                regions,
                manifest_json,
            },
        ),
        None => Err(ManifestError::NotCanonical),
    }
}

/// Binds the parameters that an organizer's manifest declares to one exact baseline image. A
/// manifest may authorize any non-empty part of the known parameters. `json` is the document that
/// `manifest` was read from.
pub fn parse_parameter_policy(
    json: &str,
    manifest: ParameterManifestFile,
    baseline: &[u8],
    expected_target: &str,
    expected_board_id: &str,
) -> (result: Result<ParameterPolicy, ManifestError>)
    ensures
        match policy_outcome(
            compact_json(json@),
            manifest,
            baseline@,
            sha256_text(baseline@),
            expected_target@,
            expected_board_id@,
        ) {
            Ok(regions) => result is Ok && policy_tells(
                result->Ok_0,
                regions,
                manifest,
                compact_json(json@),
            ),
            Err(error) => result is Err && result->Err_0 == error,
        },
{
    let compact = match write_compact_json(json) {
        Ok(compact) => Some(compact),
        Err(_) => None,
    };
    let digest = full_sha256(baseline);
    bind_parameter_policy(
        compact,
        manifest,
        baseline,
        digest.as_str(),
        expected_target,
        expected_board_id,
    )
}

/// The regions of a policy share no byte, and the baseline holds acceptable values in all of them:
/// so the policy admits the baseline itself.
pub proof fn lemma_policy_regions(
    compact: Option<Seq<char>>,
    manifest: ParameterManifestFile,
    baseline: Seq<u8>,
    baseline_digest: Seq<char>,
    expected_target: Seq<char>,
    expected_board_id: Seq<char>,
)
    requires
        policy_outcome(
            compact,
            manifest,
            baseline,
            baseline_digest,
            expected_target,
            expected_board_id,
        ) is Ok,
    ensures
        ({
            let regions = policy_outcome(
                compact,
                manifest,
                baseline,
                baseline_digest,
                expected_target,
                expected_board_id,
            )->Ok_0;
            &&& regions_apart(regions)
            &&& change_allowed(baseline, baseline, regions)
        }),
{
    let regions = in_order(regions_outcome(manifest.parameters@, baseline)->Ok_0);
    lemma_ordered_regions_hold_values(manifest.parameters@, baseline);
    assert(values_valid(baseline, regions));
    lemma_identical_image_allowed(baseline, regions);
    assert forall|i: int, j: int| 0 <= i < j < regions.len() implies (#[trigger] regions[i]).offset
        + regions[i].length <= (#[trigger] regions[j]).offset || regions[j].offset
        + regions[j].length <= regions[i].offset by {
        assert(regions[i].offset + regions[i].length <= regions[i + 1].offset);
        if i + 1 < j {
            assert(regions[i + 1].not_after(regions[j]));
        }
    }
}

} // verus!
