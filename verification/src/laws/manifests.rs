//! Manifests and limits documents: what they must hold, and what they authorize.

use crate::binary64::Binary64;
use crate::laws::images::stores;
use crate::limits::{
    bounds_of, collected_limits, default_limits_map, is_public, limit_fault, limits_outcome,
    Bounds, Limits, ParameterLimit, ParameterLimitsFile,
};
use crate::manifest::{
    is_named, known_limits, neighbours_overlap, policy_outcome, policy_tells, region_outcome,
    regions_outcome, ManifestError, ParameterManifestFile, ParameterManifestRegion,
};
use crate::parameters::{lemma_same_items, ParameterPolicy, ParameterRegion};
use crate::policy::{limits_in_force, optional_bounds, PolicyConfig};
use crate::sorting::{in_order, lemma_in_order, Ranked};
use crate::text::quoted_text;
use vstd::prelude::*;

verus! {

/// The bits of the limits of a parameter that firmware updates may change.
pub open spec fn firmware_limits(name: Seq<char>) -> Option<(u64, u64)> {
    if name == "route.crossTrackSteeringDistance"@ {
        Some((0x3fd0_0000_0000_0000, 0x4049_0000_0000_0000))
    } else if name == "route.waypointSwitchingDistance"@ {
        Some((0x3fb9_9999_9999_999a, 0x4049_0000_0000_0000))
    } else if name == "attitude.rollLimit"@ {
        Some((0x3fa9_9999_9999_999a, 0x3ff3_3333_3333_3333))
    } else if name == "attitude.headingPid.kp"@ {
        Some((0, 0x4024_0000_0000_0000))
    } else if name == "attitude.headingPid.ki"@ {
        Some((0, 0x4024_0000_0000_0000))
    } else if name == "attitude.headingPid.kd"@ {
        Some((0, 0x4024_0000_0000_0000))
    } else {
        None
    }
}

/// The parameter may be authorized on the baseline: it is a known one, with its own limits, stored
/// as a double inside the baseline, which holds a finite value within the limits there.
pub open spec fn good_parameter(parameter: ParameterManifestRegion, baseline: Seq<u8>) -> bool {
    &&& firmware_limits(parameter.name@) is Some
    &&& ({
        let minimum = Binary64 { bits: (firmware_limits(parameter.name@)->0).0 };
        let maximum = Binary64 { bits: (firmware_limits(parameter.name@)->0).1 };
        &&& parameter.encoding@ == "float64-le"@
        &&& parameter.minimum.equals(minimum)
        &&& parameter.maximum.equals(maximum)
        &&& parameter.offset + 8 <= baseline.len()
        &&& exists|value: Binary64| #[trigger]
            stores(baseline, parameter.offset as int, value) && value.finite() && !value.below(
                minimum,
            ) && !maximum.below(value)
    })
}

/// The region of a parameter: eight bytes at its offset, with the known limits.
pub open spec fn region_for(parameter: ParameterManifestRegion) -> ParameterRegion {
    ParameterRegion {
        name: parameter.name,
        offset: parameter.offset as usize,
        length: 8,
        minimum: Binary64 { bits: (firmware_limits(parameter.name@)->0).0 },
        maximum: Binary64 { bits: (firmware_limits(parameter.name@)->0).1 },
    }
}

/// The names differ and no two of the parameters share a byte.
pub open spec fn apart(parameters: Seq<ParameterManifestRegion>) -> bool {
    forall|i: int, j: int|
        0 <= i < j < parameters.len() ==> (#[trigger] parameters[i]).name@ != (
        #[trigger] parameters[j]).name@ && (parameters[i].offset + 8 <= parameters[j].offset
            || parameters[j].offset + 8 <= parameters[i].offset)
}

/// Every parameter is a good one, and no name stands twice.
pub open spec fn good_parameters(
    parameters: Seq<ParameterManifestRegion>,
    baseline: Seq<u8>,
) -> bool {
    &&& forall|i: int|
        0 <= i < parameters.len() ==> good_parameter(#[trigger] parameters[i], baseline)
    &&& forall|i: int, j: int|
        0 <= i < j < parameters.len() ==> (#[trigger] parameters[i]).name@ != (
        #[trigger] parameters[j]).name@
}

/// One parameter: what it authorizes, or the first thing that is wrong with it.
pub proof fn lemma_one_parameter(
    parameter: ParameterManifestRegion,
    earlier: Seq<ParameterManifestRegion>,
    baseline: Seq<u8>,
)
    requires
        baseline.len() <= usize::MAX,
    ensures
        region_outcome(parameter, earlier, baseline) is Ok <==> good_parameter(
            parameter,
            baseline,
        ) && forall|i: int|
            0 <= i < earlier.len() ==> (#[trigger] earlier[i]).name@ != parameter.name@,
        region_outcome(parameter, earlier, baseline) is Ok ==> region_outcome(
            parameter,
            earlier,
            baseline,
        )->Ok_0 == region_for(parameter),
        region_outcome(parameter, earlier, baseline) is Err ==> {
            let error = region_outcome(parameter, earlier, baseline)->Err_0;
            let limits = firmware_limits(parameter.name@);
            &&& error is UnknownParameter <==> limits is None
            &&& error is DuplicateParameter <==> limits is Some && exists|i: int|
                0 <= i < earlier.len() && (#[trigger] earlier[i]).name@ == parameter.name@
            &&& error is UnknownParameter ==> error->UnknownParameter_0@ == parameter.name@
            &&& error is DuplicateParameter ==> error->DuplicateParameter_0@ == parameter.name@
            &&& error is MetadataMismatch ==> error->MetadataMismatch_0@ == parameter.name@ && (
            parameter.encoding@ != "float64-le"@ || !parameter.minimum.equals(
                Binary64 { bits: (limits->0).0 },
            ) || !parameter.maximum.equals(Binary64 { bits: (limits->0).1 }))
            &&& error is OffsetOutside ==> parameter.offset + 8 > baseline.len()
            &&& error is InvalidBaselineValue ==> parameter.offset + 8 <= baseline.len()
        },
{
    let at = parameter.offset as int;
    if known_limits(parameter.name@) is Some && at + 8 <= baseline.len() {
        let (minimum, maximum) = known_limits(parameter.name@)->0;
        let value = crate::binary64::double_at(baseline, at);
        crate::laws::numbers::lemma_stored_doubles(baseline, at, value);
        assert(stores(baseline, at, value));
        if exists|other: Binary64| #[trigger]
            stores(baseline, at, other) && other.finite() && !other.below(minimum)
                && !maximum.below(other) {
            let other = choose|other: Binary64| #[trigger]
                stores(baseline, at, other) && other.finite() && !other.below(minimum)
                    && !maximum.below(other);
            crate::laws::numbers::lemma_stored_doubles(baseline, at, other);
        }
    }
    if !is_named(earlier, parameter.name@) {
        assert forall|i: int| 0 <= i < earlier.len() implies (#[trigger] earlier[i]).name@
            != parameter.name@ by {}
    }
}

proof fn lemma_parameters(parameters: Seq<ParameterManifestRegion>, baseline: Seq<u8>)
    requires
        baseline.len() <= usize::MAX,
    ensures
        regions_outcome(parameters, baseline) is Ok <==> good_parameters(parameters, baseline),
        regions_outcome(parameters, baseline) is Ok ==> regions_outcome(parameters, baseline)->Ok_0
            == parameters.map_values(|parameter: ParameterManifestRegion| region_for(parameter)),
    decreases parameters.len(),
{
    let region = |parameter: ParameterManifestRegion| region_for(parameter);
    if parameters.len() > 0 {
        let shorter = parameters.drop_last();
        let last = parameters.last();
        lemma_parameters(shorter, baseline);
        lemma_one_parameter(last, shorter, baseline);
        if good_parameters(parameters, baseline) {
            assert forall|i: int| 0 <= i < shorter.len() implies good_parameter(
                #[trigger] shorter[i],
                baseline,
            ) by {
                assert(shorter[i] == parameters[i]);
            }
            assert forall|i: int, j: int| 0 <= i < j < shorter.len() implies (
            #[trigger] shorter[i]).name@ != (#[trigger] shorter[j]).name@ by {
                assert(parameters[i].name@ != parameters[j].name@);
            }
            assert forall|i: int| 0 <= i < shorter.len() implies (#[trigger] shorter[i]).name@
                != last.name@ by {
                assert(parameters[i].name@ != parameters[parameters.len() - 1].name@);
            }
            assert(good_parameter(parameters[parameters.len() - 1], baseline));
        }
        if regions_outcome(parameters, baseline) is Ok {
            assert forall|i: int| 0 <= i < parameters.len() implies good_parameter(
                #[trigger] parameters[i],
                baseline,
            ) by {
                if i < shorter.len() {
                    assert(good_parameter(shorter[i], baseline));
                }
            }
            assert forall|i: int, j: int| 0 <= i < j < parameters.len() implies (
            #[trigger] parameters[i]).name@ != (#[trigger] parameters[j]).name@ by {
                if j < shorter.len() {
                    assert(shorter[i].name@ != shorter[j].name@);
                } else {
                    assert(shorter[i].name@ != last.name@);
                }
            }
            assert(parameters.map_values(region) =~= shorter.map_values(region).push(
                region_for(last),
            ));
        }
    } else {
        assert(parameters.map_values(region) =~= Seq::empty());
    }
}

proof fn lemma_overlaps(parameters: Seq<ParameterManifestRegion>, baseline: Seq<u8>)
    requires
        baseline.len() <= usize::MAX,
        good_parameters(parameters, baseline),
    ensures
        neighbours_overlap(
            in_order(
                parameters.map_values(|parameter: ParameterManifestRegion| region_for(parameter)),
            ),
        ) <==> !apart(parameters),
{
    let region = |parameter: ParameterManifestRegion| region_for(parameter);
    let regions = parameters.map_values(region);
    let ordered = in_order(regions);
    lemma_in_order(regions);
    lemma_same_items(ordered, regions);
    lemma_same_items(regions, ordered);
    regions.to_multiset_ensures();
    ordered.to_multiset_ensures();
    assert(regions.no_duplicates()) by {
        assert forall|i: int, j: int| 0 <= i < regions.len() && 0 <= j < regions.len() && i
            != j implies regions[i] != regions[j] by {
            if i < j {
                assert(parameters[i].name@ != parameters[j].name@);
            } else {
                assert(parameters[j].name@ != parameters[i].name@);
            }
        }
    }
    regions.lemma_multiset_has_no_duplicates();
    ordered.lemma_multiset_has_no_duplicates_conv();
    if neighbours_overlap(ordered) {
        let i = choose|i: int|
            0 <= i < ordered.len() - 1 && (#[trigger] ordered[i]).offset + ordered[i].length
                > ordered[i + 1].offset;
        assert(regions.contains(ordered[i]));
        assert(regions.contains(ordered[i + 1]));
        let a = choose|a: int| 0 <= a < regions.len() && regions[a] == ordered[i];
        let b = choose|b: int| 0 <= b < regions.len() && regions[b] == ordered[i + 1];
        assert(ordered[i] != ordered[i + 1]);
        assert(ordered[i].not_after(ordered[i + 1]));
        assert(good_parameter(parameters[a], baseline) && good_parameter(parameters[b], baseline));
        assert(regions[a].offset == parameters[a].offset);
        assert(regions[b].offset == parameters[b].offset);
        if a < b {
            assert(!(parameters[a].offset + 8 <= parameters[b].offset || parameters[b].offset + 8
                <= parameters[a].offset));
        } else {
            assert(!(parameters[b].offset + 8 <= parameters[a].offset || parameters[a].offset + 8
                <= parameters[b].offset));
        }
    } else {
        assert forall|i: int, j: int| 0 <= i < j < parameters.len() implies (
        #[trigger] parameters[i]).name@ != (#[trigger] parameters[j]).name@ && (
        parameters[i].offset + 8 <= parameters[j].offset || parameters[j].offset + 8
            <= parameters[i].offset) by {
            assert(good_parameter(parameters[i], baseline));
            assert(good_parameter(parameters[j], baseline));
            assert(regions[i].offset == parameters[i].offset && regions[i].length == 8);
            assert(regions[j].offset == parameters[j].offset && regions[j].length == 8);
            assert(ordered.contains(regions[i]));
            assert(ordered.contains(regions[j]));
            let a = choose|a: int| 0 <= a < ordered.len() && ordered[a] == regions[i];
            let b = choose|b: int| 0 <= b < ordered.len() && ordered[b] == regions[j];
            assert(regions[i] != regions[j]);
            if a < b {
                assert(ordered[a].offset + ordered[a].length <= ordered[a + 1].offset);
                if a + 1 < b {
                    assert(ordered[a + 1].not_after(ordered[b]));
                }
            } else {
                assert(ordered[b].offset + ordered[b].length <= ordered[b + 1].offset);
                if b + 1 < a {
                    assert(ordered[b + 1].not_after(ordered[a]));
                }
            }
        }
    }
}

/// The manifest is for this schema, target, board and baseline, and has one to six parameters.
pub open spec fn addressed(
    manifest: ParameterManifestFile,
    baseline_digest: Seq<char>,
    target: Seq<char>,
    board_id: Seq<char>,
) -> bool {
    &&& manifest.schema@ == "electrode.autopilot-parameter-policy.v1"@
    &&& manifest.target@ == target
    &&& board_id.len() == 0 || manifest.board_id@ == board_id
    &&& manifest.baseline_sha256@ == baseline_digest
    &&& 1 <= manifest.parameters@.len() <= 6
}

/// A manifest authorizes something exactly when it is for this target, board and baseline, every
/// parameter is a known one that the baseline holds properly, and no two of them share a name or a
/// byte. What it authorizes are the eight bytes of each parameter, by their offsets.
pub proof fn lemma_manifests(
    compact: Option<Seq<char>>,
    manifest: ParameterManifestFile,
    baseline: Seq<u8>,
    baseline_digest: Seq<char>,
    target: Seq<char>,
    board_id: Seq<char>,
)
    requires
        baseline.len() <= usize::MAX,
    ensures
        ({
            let outcome = policy_outcome(
                compact,
                manifest,
                baseline,
                baseline_digest,
                target,
                board_id,
            );
            &&& outcome is Ok <==> compact is Some && addressed(
                manifest,
                baseline_digest,
                target,
                board_id,
            ) && good_parameters(manifest.parameters@, baseline) && apart(manifest.parameters@)
            &&& outcome is Ok ==> {
                &&& outcome->Ok_0.to_multiset() == manifest.parameters@.map_values(
                    |parameter: ParameterManifestRegion| region_for(parameter),
                ).to_multiset()
                &&& outcome->Ok_0.len() == manifest.parameters@.len()
                &&& forall|i: int, j: int|
                    0 <= i < j < outcome->Ok_0.len() ==> (#[trigger] outcome->Ok_0[i]).offset + 8
                        <= (#[trigger] outcome->Ok_0[j]).offset
            }
            &&& outcome is Err ==> {
                let error = outcome->Err_0;
                &&& error is UnsupportedSchema <==> manifest.schema@
                    != "electrode.autopilot-parameter-policy.v1"@
                &&& error is TargetMismatch ==> manifest.target@ != target
                &&& error is BoardMismatch ==> board_id.len() > 0 && manifest.board_id@ != board_id
                &&& error is BaselineMismatch ==> manifest.baseline_sha256@ != baseline_digest
                &&& error is ParameterCount ==> !(1 <= manifest.parameters@.len() <= 6)
                &&& error is Overlap ==> good_parameters(manifest.parameters@, baseline) && !apart(
                    manifest.parameters@,
                )
                &&& error is NotCanonical ==> compact is None
                &&& !addressed(manifest, baseline_digest, target, board_id) ==> error
                    is UnsupportedSchema || error is TargetMismatch || error is BoardMismatch
                    || error is BaselineMismatch || error is ParameterCount
            }
        }),
{
    let parameters = manifest.parameters@;
    let region = |parameter: ParameterManifestRegion| region_for(parameter);
    lemma_parameters(parameters, baseline);
    if good_parameters(parameters, baseline) {
        lemma_overlaps(parameters, baseline);
        let regions = parameters.map_values(region);
        let ordered = in_order(regions);
        lemma_in_order(regions);
        lemma_same_items(ordered, regions);
        regions.to_multiset_ensures();
        ordered.to_multiset_ensures();
        if !neighbours_overlap(ordered) {
            assert forall|i: int, j: int| 0 <= i < j < ordered.len() implies (
            #[trigger] ordered[i]).offset + 8 <= (#[trigger] ordered[j]).offset by {
                assert(regions.contains(ordered[i]));
                assert(ordered[i].length == 8);
                assert(ordered[i].offset + ordered[i].length <= ordered[i + 1].offset);
                if i + 1 < j {
                    assert(ordered[i + 1].not_after(ordered[j]));
                }
            }
        }
    } else {
        lemma_region_errors(parameters, baseline);
    }
}

proof fn lemma_region_errors(parameters: Seq<ParameterManifestRegion>, baseline: Seq<u8>)
    requires
        regions_outcome(parameters, baseline) is Err,
    ensures
        ({
            let error = regions_outcome(parameters, baseline)->Err_0;
            error is UnknownParameter || error is DuplicateParameter || error is MetadataMismatch
                || error is OffsetDoesNotFit || error is OffsetOverflow || error is OffsetOutside
                || error is InvalidBaselineValue
        }),
    decreases parameters.len(),
{
    if parameters.len() > 0 && regions_outcome(parameters.drop_last(), baseline) is Err {
        lemma_region_errors(parameters.drop_last(), baseline);
    }
}

/// The policy of a manifest holds its regions, what it is for, and its document in compact form.
pub proof fn lemma_policies_hold_their_manifest(
    policy: ParameterPolicy,
    regions: Seq<ParameterRegion>,
    manifest: ParameterManifestFile,
    compact: Option<Seq<char>>,
)
    requires
        policy_tells(policy, regions, manifest, compact),
    ensures
        policy.regions@ == regions,
        policy.target@ == manifest.target@,
        policy.board_id@ == manifest.board_id@,
        policy.baseline_sha256@ == manifest.baseline_sha256@,
        compact is Some,
        policy.manifest_json@ == compact->0,
{
}

/// The sentences that describe why a manifest authorizes nothing.
pub proof fn lemma_manifest_errors(error: ManifestError)
    ensures
        error is UnsupportedSchema ==> error.text()
            == "unsupported autopilot parameter manifest schema"@,
        error is TargetMismatch ==> error.text() == "autopilot parameter manifest target mismatch"@,
        error is BoardMismatch ==> error.text() == "autopilot parameter manifest board mismatch"@,
        error is BaselineMismatch ==> error.text()
            == "autopilot parameter manifest baseline hash mismatch"@,
        error is ParameterCount ==> error.text()
            == "autopilot parameter manifest must contain one to six parameters"@,
        error is UnknownParameter ==> error.text() == "unknown autopilot parameter "@
            + error->UnknownParameter_0@,
        error is DuplicateParameter ==> error.text() == "duplicate autopilot parameter "@
            + error->DuplicateParameter_0@,
        error is MetadataMismatch ==> error.text() == "autopilot parameter metadata mismatch for "@
            + error->MetadataMismatch_0@,
        error is OffsetDoesNotFit ==> error.text()
            == "autopilot parameter offset does not fit this host"@,
        error is OffsetOverflow ==> error.text() == "autopilot parameter offset overflow"@,
        error is OffsetOutside ==> error.text()
            == "autopilot parameter offset is outside the baseline"@,
        error is InvalidBaselineValue ==> error.text()
            == "baseline autopilot parameter value is invalid"@,
        error is Overlap ==> error.text() == "autopilot parameter regions overlap"@,
        error is NotCanonical ==> error.text() == "canonicalize autopilot parameter manifest"@,
{
}

// ---------------------------------------------------------------------------------------------
// Limits
// ---------------------------------------------------------------------------------------------

/// The parameters that a limits document defines.
pub open spec fn public_names() -> Seq<Seq<char>> {
    seq![
        "velocity.setpoint"@,
        "route.crossTrackSteeringDistance"@,
        "route.waypointSwitchingDistance"@,
        "attitude.rollLimit"@,
        "attitude.headingPid.kp"@,
        "attitude.headingPid.ki"@,
        "attitude.headingPid.kd"@,
    ]
}

proof fn lemma_public_names(name: Seq<char>)
    ensures
        public_names().contains(name) == is_public(name),
{
    let names = public_names();
    if is_public(name) {
        assert(names[0] == name || names[1] == name || names[2] == name || names[3] == name
            || names[4] == name || names[5] == name || names[6] == name);
    }
}

/// A limit that may stand in a document: of a public parameter, between finite numbers in order.
pub open spec fn good_limit(parameter: ParameterLimit) -> bool {
    &&& public_names().contains(parameter.name@)
    &&& parameter.minimum.finite()
    &&& parameter.maximum.finite()
    &&& !parameter.maximum.below(parameter.minimum)
}

/// The limits are good ones and no name stands twice.
pub open spec fn good_limits(parameters: Seq<ParameterLimit>) -> bool {
    &&& forall|i: int| 0 <= i < parameters.len() ==> good_limit(#[trigger] parameters[i])
    &&& forall|i: int, j: int|
        0 <= i < j < parameters.len() ==> (#[trigger] parameters[i]).name@ != (
        #[trigger] parameters[j]).name@
}

proof fn lemma_collected(parameters: Seq<ParameterLimit>)
    ensures
        collected_limits(parameters) is Ok <==> good_limits(parameters),
        collected_limits(parameters) is Ok ==> {
            let limits = collected_limits(parameters)->Ok_0;
            &&& forall|name: Seq<char>| #[trigger]
                limits.dom().contains(name) <==> exists|i: int|
                    0 <= i < parameters.len() && (#[trigger] parameters[i]).name@ == name
            &&& forall|i: int|
                0 <= i < parameters.len() ==> {
                    let bounds = limits[(#[trigger] parameters[i]).name@];
                    &&& bounds.minimum == parameters[i].minimum
                    &&& bounds.maximum == parameters[i].maximum
                    &&& bounds.minimum_text == parameters[i].minimum_text@
                    &&& bounds.maximum_text == parameters[i].maximum_text@
                }
        },
    decreases parameters.len(),
{
    if parameters.len() > 0 {
        let shorter = parameters.drop_last();
        let last = parameters.last();
        lemma_collected(shorter);
        lemma_public_names(last.name@);
        if good_limits(parameters) {
            assert forall|i: int| 0 <= i < shorter.len() implies good_limit(
                #[trigger] shorter[i],
            ) by {
                assert(shorter[i] == parameters[i]);
            }
            assert forall|i: int, j: int| 0 <= i < j < shorter.len() implies (
            #[trigger] shorter[i]).name@ != (#[trigger] shorter[j]).name@ by {
                assert(parameters[i].name@ != parameters[j].name@);
            }
            assert(good_limit(parameters[parameters.len() - 1]));
            let before = collected_limits(shorter)->Ok_0;
            if before.dom().contains(last.name@) {
                let i = choose|i: int|
                    0 <= i < shorter.len() && (#[trigger] shorter[i]).name@ == last.name@;
                assert(parameters[i].name@ != parameters[parameters.len() - 1].name@);
            }
        }
        if collected_limits(parameters) is Ok {
            let before = collected_limits(shorter)->Ok_0;
            assert forall|i: int| 0 <= i < shorter.len() implies (#[trigger] shorter[i]).name@
                != last.name@ by {
                assert(before.dom().contains(shorter[i].name@));
            }
            assert forall|i: int| 0 <= i < parameters.len() implies good_limit(
                #[trigger] parameters[i],
            ) by {
                if i < shorter.len() {
                    assert(good_limit(shorter[i]));
                }
            }
            assert forall|i: int, j: int| 0 <= i < j < parameters.len() implies (
            #[trigger] parameters[i]).name@ != (#[trigger] parameters[j]).name@ by {
                if j < shorter.len() {
                    assert(shorter[i].name@ != shorter[j].name@);
                } else {
                    assert(shorter[i].name@ != last.name@);
                }
            }
            let limits = collected_limits(parameters)->Ok_0;
            assert forall|name: Seq<char>| #[trigger]
                limits.dom().contains(name) <==> exists|i: int|
                    0 <= i < parameters.len() && (#[trigger] parameters[i]).name@ == name by {
                if limits.dom().contains(name) {
                    if name == last.name@ {
                        assert(parameters[parameters.len() - 1].name@ == name);
                    } else {
                        assert(before.dom().contains(name));
                        let i = choose|i: int|
                            0 <= i < shorter.len() && (#[trigger] shorter[i]).name@ == name;
                        assert(parameters[i].name@ == name);
                    }
                }
                if exists|i: int|
                    0 <= i < parameters.len() && (#[trigger] parameters[i]).name@ == name {
                    let i = choose|i: int|
                        0 <= i < parameters.len() && (#[trigger] parameters[i]).name@ == name;
                    if i < shorter.len() {
                        assert(shorter[i].name@ == name);
                        assert(before.dom().contains(name));
                    }
                }
            }
            assert forall|i: int| 0 <= i < parameters.len() implies {
                let bounds = limits[(#[trigger] parameters[i]).name@];
                &&& bounds.minimum == parameters[i].minimum
                &&& bounds.maximum == parameters[i].maximum
                &&& bounds.minimum_text == parameters[i].minimum_text@
                &&& bounds.maximum_text == parameters[i].maximum_text@
            } by {
                if i < shorter.len() {
                    assert(shorter[i] == parameters[i]);
                    assert(shorter[i].name@ != last.name@);
                }
            }
        }
    }
}

/// A limits document is taken exactly when it has the right schema, limits seven public parameters,
/// each of them once, and every limit is between finite numbers in order. The limits are those
/// written there.
pub proof fn lemma_limits_documents(file: ParameterLimitsFile)
    ensures
        limits_outcome(file) is Ok <==> file.schema@
            == "electrode.public-lan-parameter-limits.v1"@ && file.parameters@.len() == 7
            && good_limits(file.parameters@),
        limits_outcome(file) is Ok ==> {
            let limits = limits_outcome(file)->Ok_0;
            let parameters = file.parameters@;
            &&& forall|name: Seq<char>| #[trigger]
                limits.dom().contains(name) <==> exists|i: int|
                    0 <= i < parameters.len() && (#[trigger] parameters[i]).name@ == name
            &&& forall|i: int|
                0 <= i < parameters.len() ==> {
                    let bounds = limits[(#[trigger] parameters[i]).name@];
                    &&& bounds.minimum == parameters[i].minimum
                    &&& bounds.maximum == parameters[i].maximum
                    &&& bounds.minimum_text == parameters[i].minimum_text@
                    &&& bounds.maximum_text == parameters[i].maximum_text@
                }
        },
        file.schema@ != "electrode.public-lan-parameter-limits.v1"@ ==> limits_outcome(file)
            == Err::<Map<Seq<char>, Bounds>, Seq<char>>(
            "unsupported schema "@ + quoted_text(file.schema@),
        ),
        file.schema@ == "electrode.public-lan-parameter-limits.v1"@ && file.parameters@.len() != 7
            ==> limits_outcome(file) == Err::<Map<Seq<char>, Bounds>, Seq<char>>(
            "limits must define exactly seven public parameters"@,
        ),
{
    lemma_collected(file.parameters@);
}

/// The limits where no document names others, as their bits and as they are printed.
pub proof fn lemma_default_limits(name: Seq<char>)
    ensures
        default_limits_map().dom().contains(name) <==> public_names().contains(name),
        ({
            let bounds = default_limits_map()[name];
            let lies = |minimum: u64, least: Seq<char>, maximum: u64, most: Seq<char>|
                bounds.minimum.bits == minimum && bounds.minimum_text == least
                    && bounds.maximum.bits == maximum && bounds.maximum_text == most;
            &&& name == "velocity.setpoint"@ ==> lies(
                0x3ff0_0000_0000_0000,
                "1"@,
                0x4010_0000_0000_0000,
                "4"@,
            )
            &&& name == "route.crossTrackSteeringDistance"@ ==> lies(
                0x3fd0_0000_0000_0000,
                "0.25"@,
                0x4049_0000_0000_0000,
                "50"@,
            )
            &&& name == "route.waypointSwitchingDistance"@ ==> lies(
                0x3fb9_9999_9999_999a,
                "0.1"@,
                0x4049_0000_0000_0000,
                "50"@,
            )
            &&& name == "attitude.rollLimit"@ ==> lies(
                0x3fa9_9999_9999_999a,
                "0.05"@,
                0x3ff3_3333_3333_3333,
                "1.2"@,
            )
            &&& name == "attitude.headingPid.kp"@ || name == "attitude.headingPid.ki"@ || name
                == "attitude.headingPid.kd"@ ==> lies(0, "0"@, 0x4024_0000_0000_0000, "10"@)
        }),
        public_names().contains(name) && name != "velocity.setpoint"@ ==> firmware_limits(
            name,
        ) == Some(
            (
                default_limits_map()[name].minimum.bits,
                default_limits_map()[name].maximum.bits,
            ),
        ),
{
    lemma_public_names(name);
    lemma_names_differ();
}

proof fn lemma_names_differ()
    ensures
        "velocity.setpoint"@ != "route.crossTrackSteeringDistance"@,
        "velocity.setpoint"@ != "route.waypointSwitchingDistance"@,
        "velocity.setpoint"@ != "attitude.rollLimit"@,
        "velocity.setpoint"@ != "attitude.headingPid.kp"@,
        "velocity.setpoint"@ != "attitude.headingPid.ki"@,
        "velocity.setpoint"@ != "attitude.headingPid.kd"@,
        "route.crossTrackSteeringDistance"@ != "route.waypointSwitchingDistance"@,
        "route.crossTrackSteeringDistance"@ != "attitude.rollLimit"@,
        "route.crossTrackSteeringDistance"@ != "attitude.headingPid.kp"@,
        "route.crossTrackSteeringDistance"@ != "attitude.headingPid.ki"@,
        "route.crossTrackSteeringDistance"@ != "attitude.headingPid.kd"@,
        "route.waypointSwitchingDistance"@ != "attitude.rollLimit"@,
        "route.waypointSwitchingDistance"@ != "attitude.headingPid.kp"@,
        "route.waypointSwitchingDistance"@ != "attitude.headingPid.ki"@,
        "route.waypointSwitchingDistance"@ != "attitude.headingPid.kd"@,
        "attitude.rollLimit"@ != "attitude.headingPid.kp"@,
        "attitude.rollLimit"@ != "attitude.headingPid.ki"@,
        "attitude.rollLimit"@ != "attitude.headingPid.kd"@,
{
    reveal_strlit("velocity.setpoint");
    reveal_strlit("route.crossTrackSteeringDistance");
    reveal_strlit("route.waypointSwitchingDistance");
    reveal_strlit("attitude.rollLimit");
    reveal_strlit("attitude.headingPid.kp");
    reveal_strlit("attitude.headingPid.ki");
    reveal_strlit("attitude.headingPid.kd");
    assert("velocity.setpoint"@[0] == 'v');
    assert("route.crossTrackSteeringDistance"@[6] == 'c');
    assert("route.waypointSwitchingDistance"@[6] == 'w');
    assert("route.crossTrackSteeringDistance"@[0] == 'r');
    assert("route.waypointSwitchingDistance"@[0] == 'r');
    assert("attitude.rollLimit"@[0] == 'a' && "attitude.rollLimit"@[9] == 'r');
    assert("attitude.headingPid.kp"@[0] == 'a' && "attitude.headingPid.kp"@[9] == 'h');
    assert("attitude.headingPid.ki"@[0] == 'a' && "attitude.headingPid.ki"@[9] == 'h');
    assert("attitude.headingPid.kd"@[0] == 'a' && "attitude.headingPid.kd"@[9] == 'h');
}

/// Which limits are in force: without a configured document the default ones; with one, those of
/// the document if it could be read and is in order; otherwise none, so that nothing may be set.
pub proof fn lemma_limits_in_force(config: PolicyConfig, document: Option<ParameterLimitsFile>)
    ensures
        config.parameter_limits_path is None ==> limits_in_force(config, document)
            == default_limits_map(),
        config.parameter_limits_path is Some && document is None ==> limits_in_force(
            config,
            document,
        ).dom() == Set::<Seq<char>>::empty(),
        config.parameter_limits_path is Some && document is Some && limits_outcome(
            document->0,
        ) is Ok ==> limits_in_force(config, document) == limits_outcome(document->0)->Ok_0,
        config.parameter_limits_path is Some && document is Some && limits_outcome(
            document->0,
        ) is Err ==> limits_in_force(config, document).dom() == Set::<Seq<char>>::empty(),
{
    assert(Map::<Seq<char>, Bounds>::empty().dom() =~= Set::<Seq<char>>::empty());
}

/// What limits hold is what they were made of, and the limits of all parameters hold what those of
/// each do.
pub proof fn lemma_held_limits(limits: Map<Seq<char>, Limits>, name: Seq<char>, one: &Limits)
    ensures
        bounds_of(limits).dom() == limits.dom(),
        limits.dom().contains(name) ==> bounds_of(limits)[name].minimum == limits[name].minimum
            && bounds_of(limits)[name].maximum == limits[name].maximum
            && bounds_of(limits)[name].minimum_text == limits[name].minimum_text@
            && bounds_of(limits)[name].maximum_text == limits[name].maximum_text@,
        optional_bounds(None) is None,
        optional_bounds(Some(one)) is Some,
        optional_bounds(Some(one))->0.minimum == one.minimum,
        optional_bounds(Some(one))->0.maximum == one.maximum,
        optional_bounds(Some(one))->0.minimum_text == one.minimum_text@,
        optional_bounds(Some(one))->0.maximum_text == one.maximum_text@,
{
    assert(bounds_of(limits).dom() =~= limits.dom());
}

/// What is said of the first parameter of a limits document that is not in order.
pub proof fn lemma_limit_faults(parameter: ParameterLimit, before: Map<Seq<char>, Bounds>)
    ensures
        limit_fault(parameter, before) is None <==> good_limit(parameter) && !before.dom().contains(
            parameter.name@,
        ),
        !public_names().contains(parameter.name@) ==> limit_fault(parameter, before) == Some(
            "unexpected public parameter "@ + quoted_text(parameter.name@),
        ),
        public_names().contains(parameter.name@) && !good_limit(parameter) ==> limit_fault(
            parameter,
            before,
        ) == Some("invalid limits for "@ + quoted_text(parameter.name@)),
        good_limit(parameter) && before.dom().contains(parameter.name@) ==> limit_fault(
            parameter,
            before,
        ) == Some("duplicate public parameter "@ + quoted_text(parameter.name@)),
{
    lemma_public_names(parameter.name@);
}

} // verus!
