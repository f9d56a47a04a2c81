//! Which bytes of a firmware image an update may change: the autopilot parameters that a manifest
//! places inside one exact baseline image.

use crate::binary64::{double_at, read_double, Binary64};
use crate::digest::{full_sha256, sha256_text, DIGEST_TEXT};
use crate::sorting::{in_order, is_sorted, lemma_in_order, sort, Ranked};
use crate::text::{byte_length, views};
use vstd::prelude::*;

verus! {

/// A parameter stored inside a firmware image, with the values that it may take.
#[derive(Clone, Debug)]
pub struct ParameterRegion {
    pub name: String,
    pub offset: usize,
    pub length: usize,
    pub minimum: Binary64,
    pub maximum: Binary64,
}

/// What an organizer's manifest authorizes for one baseline image.
#[derive(Clone, Debug)]
pub struct ParameterPolicy {
    pub baseline_sha256: String,
    pub target: String,
    pub board_id: String,
    pub regions: Vec<ParameterRegion>,
    pub manifest_json: String,
}

/// The bytes from `start` up to, not including, `end`.
#[derive(Clone, Copy, Debug, PartialEq, Eq, Structural)]
pub struct Range {
    pub start: usize,
    pub end: usize,
}

/// A byte that differs outside every authorized parameter region.
#[derive(Clone, Copy, Debug, PartialEq, Eq)]
pub struct OutsideDiff {
    pub offset: usize,
    pub baseline: Option<u8>,
    pub candidate: Option<u8>,
}

/// The verdict on a candidate image, with what it rests on.
#[derive(Clone, Debug)]
pub struct ParameterValidation {
    pub allowed: bool,
    pub reason: String,
    pub baseline_size: usize,
    pub candidate_size: usize,
    pub differing_byte_count: usize,
    pub parameter_differing_byte_count: usize,
    pub outside_parameter_diffs: Vec<OutsideDiff>,
    pub invalid_parameters: Vec<String>,
}

/// How many differing bytes a validation lists one by one.
pub const REPORTED_DIFFS: usize = 16;

/// The bytes that one parameter value takes.
pub const PARAMETER_BYTES: usize = 8;

impl Ranked for Range {
    open spec fn not_after(self, other: Self) -> bool {
        self.start <= other.start
    }

    fn is_not_after(&self, other: &Self) -> (result: bool) {
        self.start <= other.start
    }

    proof fn lemma_total(left: Self, right: Self) {
    }

    proof fn lemma_transitive(first: Self, second: Self, third: Self) {
    }
}

impl Ranked for ParameterRegion {
    open spec fn not_after(self, other: Self) -> bool {
        self.offset <= other.offset
    }

    fn is_not_after(&self, other: &Self) -> (result: bool) {
        self.offset <= other.offset
    }

    proof fn lemma_total(left: Self, right: Self) {
    }

    proof fn lemma_transitive(first: Self, second: Self, third: Self) {
    }
}

/// The region is not empty and ends inside an image of `length` bytes.
pub open spec fn is_usable(region: ParameterRegion, length: int) -> bool {
    region.length > 0 && region.offset + region.length <= length
}

/// The bytes of a region.
pub open spec fn range_of(region: ParameterRegion) -> Range {
    Range { start: region.offset, end: (region.offset + region.length) as usize }
}

/// The ranges of the usable regions, in the regions' order.
pub open spec fn usable_ranges(regions: Seq<ParameterRegion>, length: int) -> Seq<Range>
    decreases regions.len(),
{
    if regions.len() == 0 {
        Seq::empty()
    } else {
        let before = usable_ranges(regions.drop_last(), length);
        if is_usable(regions.last(), length) {
            before.push(range_of(regions.last()))
        } else {
            before
        }
    }
}

/// The usable ranges by where they start.
pub open spec fn resolved_ranges(regions: Seq<ParameterRegion>, length: int) -> Seq<Range> {
    in_order(usable_ranges(regions, length))
}

/// The byte at `index` belongs to one of the ranges.
pub open spec fn is_inside(ranges: Seq<Range>, index: int) -> bool {
    exists|i: int| 0 <= i < ranges.len() && (#[trigger] ranges[i]).start <= index < ranges[i].end
}

/// The byte at `index` belongs to a usable region.
pub open spec fn in_region(regions: Seq<ParameterRegion>, length: int, index: int) -> bool {
    exists|i: int|
        0 <= i < regions.len() && is_usable(#[trigger] regions[i], length) && regions[i].offset
            <= index < regions[i].offset + regions[i].length
}

/// The ranges of the usable regions, by where they start.
pub fn resolve_parameter_regions(length: usize, regions: &[ParameterRegion]) -> (ranges: Vec<Range>)
    ensures
        ranges@ == resolved_ranges(regions@, length as int),
{
    let mut ranges: Vec<Range> = Vec::new();
    for index in 0..regions.len()
        invariant
            ranges@ == usable_ranges(regions@.take(index as int), length as int),
    {
        let region = &regions[index];
        assert(regions@.take(index + 1).drop_last() == regions@.take(index as int));
        if let Some(end) = region.offset.checked_add(region.length) {
            if region.length > 0 && end <= length {
                ranges.push(Range { start: region.offset, end });
            }
        }
    }
    assert(regions@.take(regions@.len() as int) == regions@);
    sort(ranges)
}

proof fn lemma_usable_ranges(regions: Seq<ParameterRegion>, length: int)
    requires
        length <= usize::MAX,
    ensures
        forall|i: int|
            0 <= i < usable_ranges(regions, length).len() ==> (#[trigger] usable_ranges(
                regions,
                length,
            )[i]).start < usable_ranges(regions, length)[i].end <= length,
        forall|index: int|
            #[trigger] is_inside(usable_ranges(regions, length), index) <==> in_region(
                regions,
                length,
                index,
            ),
    decreases regions.len(),
{
    let ranges = usable_ranges(regions, length);
    if regions.len() > 0 {
        let shorter = regions.drop_last();
        let before = usable_ranges(shorter, length);
        lemma_usable_ranges(shorter, length);
        assert forall|index: int| #[trigger] is_inside(ranges, index) <==> in_region(
            regions,
            length,
            index,
        ) by {
            assert(is_inside(before, index) <==> in_region(shorter, length, index));
            if is_inside(ranges, index) {
                let i = choose|i: int|
                    0 <= i < ranges.len() && (#[trigger] ranges[i]).start <= index < ranges[i].end;
                if i < before.len() {
                    assert(before[i] == ranges[i]);
                    assert(is_inside(before, index));
                    let k = choose|k: int|
                        0 <= k < shorter.len() && is_usable(#[trigger] shorter[k], length)
                            && shorter[k].offset <= index < shorter[k].offset + shorter[k].length;
                    assert(regions[k] == shorter[k]);
                } else {
                    assert(is_usable(regions[regions.len() - 1], length));
                }
            }
            if in_region(regions, length, index) {
                let k = choose|k: int|
                    0 <= k < regions.len() && is_usable(#[trigger] regions[k], length)
                        && regions[k].offset <= index < regions[k].offset + regions[k].length;
                if k < shorter.len() {
                    assert(shorter[k] == regions[k]);
                    assert(in_region(shorter, length, index));
                    let i = choose|i: int|
                        0 <= i < before.len() && (#[trigger] before[i]).start <= index
                            < before[i].end;
                    assert(ranges[i] == before[i]);
                } else {
                    assert(ranges[ranges.len() - 1] == range_of(regions.last()));
                }
            }
        }
    }
}

pub(crate) proof fn lemma_same_items<T>(left: Seq<T>, right: Seq<T>)
    requires
        left.to_multiset() == right.to_multiset(),
    ensures
        forall|i: int| 0 <= i < left.len() ==> right.contains(#[trigger] left[i]),
{
    broadcast use vstd::seq_lib::group_to_multiset_ensures;

    left.to_multiset_ensures();
    right.to_multiset_ensures();
    assert forall|i: int| 0 <= i < left.len() implies right.contains(#[trigger] left[i]) by {
        assert(left.contains(left[i]));
        assert(left.to_multiset().count(left[i]) > 0);
    }
}

/// The resolved ranges are not empty, end inside the image, stand by where they start, and hold
/// exactly the bytes of the usable regions.
pub proof fn lemma_resolved_ranges(regions: Seq<ParameterRegion>, length: int)
    requires
        length <= usize::MAX,
    ensures
        is_sorted(resolved_ranges(regions, length)),
        forall|i: int|
            0 <= i < resolved_ranges(regions, length).len() ==> (#[trigger] resolved_ranges(
                regions,
                length,
            )[i]).start < resolved_ranges(regions, length)[i].end <= length,
        forall|index: int|
            #[trigger] is_inside(resolved_ranges(regions, length), index) <==> in_region(
                regions,
                length,
                index,
            ),
{
    let usable = usable_ranges(regions, length);
    let resolved = resolved_ranges(regions, length);
    lemma_usable_ranges(regions, length);
    lemma_in_order(usable);
    lemma_same_items(usable, resolved);
    lemma_same_items(resolved, usable);
    assert forall|i: int| 0 <= i < resolved.len() implies (#[trigger] resolved[i]).start
        < resolved[i].end <= length by {
        assert(usable.contains(resolved[i]));
    }
    assert forall|index: int| #[trigger] is_inside(resolved, index) <==> in_region(
        regions,
        length,
        index,
    ) by {
        assert(is_inside(usable, index) <==> in_region(regions, length, index));
        if is_inside(resolved, index) {
            let i = choose|i: int|
                0 <= i < resolved.len() && (#[trigger] resolved[i]).start <= index
                    < resolved[i].end;
            assert(usable.contains(resolved[i]));
            assert(is_inside(usable, index));
        }
        if is_inside(usable, index) {
            let i = choose|i: int|
                0 <= i < usable.len() && (#[trigger] usable[i]).start <= index < usable[i].end;
            assert(resolved.contains(usable[i]));
            assert(is_inside(resolved, index));
        }
    }
}

/// The byte at `index`, if the image reaches that far.
pub open spec fn byte_at(image: Seq<u8>, index: int) -> Option<u8> {
    if 0 <= index < image.len() {
        Some(image[index])
    } else {
        None
    }
}

/// The images differ at `index`: in value, or because one of them ends before it.
pub open spec fn differs_at(candidate: Seq<u8>, baseline: Seq<u8>, index: int) -> bool {
    byte_at(candidate, index) != byte_at(baseline, index)
}

/// The images differ at `index` by a substitution inside an authorized region.
pub open spec fn substituted_at(
    candidate: Seq<u8>,
    baseline: Seq<u8>,
    regions: Seq<ParameterRegion>,
    index: int,
) -> bool {
    &&& differs_at(candidate, baseline, index)
    &&& index < candidate.len()
    &&& index < baseline.len()
    &&& in_region(regions, baseline.len() as int, index)
}

/// The number of bytes before `end` at which the images differ.
pub open spec fn differing_bytes(candidate: Seq<u8>, baseline: Seq<u8>, end: int) -> int
    decreases end,
{
    if end <= 0 {
        0
    } else {
        differing_bytes(candidate, baseline, end - 1) + if differs_at(
            candidate,
            baseline,
            end - 1,
        ) {
            1int
        } else {
            0
        }
    }
}

/// The number of bytes before `end` that are substituted inside an authorized region.
pub open spec fn substituted_bytes(
    candidate: Seq<u8>,
    baseline: Seq<u8>,
    regions: Seq<ParameterRegion>,
    end: int,
) -> int
    decreases end,
{
    if end <= 0 {
        0
    } else {
        substituted_bytes(candidate, baseline, regions, end - 1) + if substituted_at(
            candidate,
            baseline,
            regions,
            end - 1,
        ) {
            1int
        } else {
            0
        }
    }
}

/// The differences before `end` that no region authorizes, in order.
pub open spec fn outside_diffs(
    candidate: Seq<u8>,
    baseline: Seq<u8>,
    regions: Seq<ParameterRegion>,
    end: int,
) -> Seq<OutsideDiff>
    decreases end,
{
    if end <= 0 {
        Seq::empty()
    } else {
        let before = outside_diffs(candidate, baseline, regions, end - 1);
        if differs_at(candidate, baseline, end - 1) && !substituted_at(
            candidate,
            baseline,
            regions,
            end - 1,
        ) {
            before.push(
                (OutsideDiff {
                    offset: (end - 1) as usize,
                    baseline: byte_at(baseline, end - 1),
                    candidate: byte_at(candidate, end - 1),
                }),
            )
        } else {
            before
        }
    }
}

/// The first differences that a validation lists.
pub open spec fn reported(diffs: Seq<OutsideDiff>) -> Seq<OutsideDiff> {
    if diffs.len() <= REPORTED_DIFFS {
        diffs
    } else {
        diffs.take(REPORTED_DIFFS as int)
    }
}

/// The image holds an acceptable value for the parameter.
pub open spec fn value_is_valid(image: Seq<u8>, region: ParameterRegion) -> bool {
    &&& region.offset + PARAMETER_BYTES <= image.len()
    &&& double_at(image, region.offset as int).acceptable(region.minimum, region.maximum)
}

/// The names of the parameters for which the image holds no acceptable value.
pub open spec fn invalid_names(image: Seq<u8>, regions: Seq<ParameterRegion>) -> Seq<Seq<char>>
    decreases regions.len(),
{
    if regions.len() == 0 {
        Seq::empty()
    } else {
        let before = invalid_names(image, regions.drop_last());
        if value_is_valid(image, regions.last()) {
            before
        } else {
            before.push(regions.last().name@)
        }
    }
}

/// The longer of the two lengths.
pub open spec fn longer(candidate: Seq<u8>, baseline: Seq<u8>) -> int {
    if baseline.len() < candidate.len() {
        candidate.len() as int
    } else {
        baseline.len() as int
    }
}

/// Every difference is a substitution inside an authorized region.
pub open spec fn changes_authorized(
    candidate: Seq<u8>,
    baseline: Seq<u8>,
    regions: Seq<ParameterRegion>,
) -> bool {
    forall|index: int|
        0 <= index < longer(candidate, baseline) && #[trigger] differs_at(
            candidate,
            baseline,
            index,
        ) ==> substituted_at(candidate, baseline, regions, index)
}

/// The image holds an acceptable value for every parameter.
pub open spec fn values_valid(image: Seq<u8>, regions: Seq<ParameterRegion>) -> bool {
    forall|i: int| 0 <= i < regions.len() ==> value_is_valid(image, #[trigger] regions[i])
}

/// The candidate may replace the baseline.
pub open spec fn change_allowed(
    candidate: Seq<u8>,
    baseline: Seq<u8>,
    regions: Seq<ParameterRegion>,
) -> bool {
    changes_authorized(candidate, baseline, regions) && values_valid(candidate, regions)
}

/// The sentence that goes with a verdict.
pub open spec fn validation_reason(
    candidate: Seq<u8>,
    baseline: Seq<u8>,
    regions: Seq<ParameterRegion>,
) -> Seq<char> {
    if change_allowed(candidate, baseline, regions) {
        "Only authorized autopilot parameter values changed."@
    } else if !changes_authorized(candidate, baseline, regions) {
        "Binary changes are not limited to authorized autopilot parameters."@
    } else {
        "One or more autopilot parameter values are invalid."@
    }
}

proof fn lemma_no_outside_diff(
    candidate: Seq<u8>,
    baseline: Seq<u8>,
    regions: Seq<ParameterRegion>,
    end: int,
)
    requires
        0 <= end,
    ensures
        outside_diffs(candidate, baseline, regions, end).len() == 0 <==> (forall|index: int|
            0 <= index < end && #[trigger] differs_at(candidate, baseline, index)
                ==> substituted_at(candidate, baseline, regions, index)),
    decreases end,
{
    if end > 0 {
        lemma_no_outside_diff(candidate, baseline, regions, end - 1);
        if outside_diffs(candidate, baseline, regions, end).len() != 0 {
            if outside_diffs(candidate, baseline, regions, end - 1).len() == 0 {
                assert(differs_at(candidate, baseline, end - 1) && !substituted_at(
                    candidate,
                    baseline,
                    regions,
                    end - 1,
                ));
            }
        }
    }
}

proof fn lemma_no_invalid_name(image: Seq<u8>, regions: Seq<ParameterRegion>)
    ensures
        invalid_names(image, regions).len() == 0 <==> values_valid(image, regions),
    decreases regions.len(),
{
    if regions.len() > 0 {
        let shorter = regions.drop_last();
        lemma_no_invalid_name(image, shorter);
        if values_valid(image, regions) {
            assert forall|i: int| 0 <= i < shorter.len() implies value_is_valid(
                image,
                #[trigger] shorter[i],
            ) by {
                assert(shorter[i] == regions[i]);
            }
        }
        if invalid_names(image, regions).len() == 0 {
            assert forall|i: int| 0 <= i < regions.len() implies value_is_valid(
                image,
                #[trigger] regions[i],
            ) by {
                if i < shorter.len() {
                    assert(shorter[i] == regions[i]);
                }
            }
        } else if invalid_names(image, shorter).len() != 0 {
            let i = choose|i: int|
                0 <= i < shorter.len() && !value_is_valid(image, #[trigger] shorter[i]);
            assert(regions[i] == shorter[i]);
        } else {
            assert(!value_is_valid(image, regions[regions.len() - 1]));
        }
    }
}

/// The byte at `index`, if the image reaches that far.
fn get_byte(image: &[u8], index: usize) -> (byte: Option<u8>)
    ensures
        byte == byte_at(image@, index as int),
{
    if index < image.len() {
        Some(image[index])
    } else {
        None
    }
}

fn inside_any(ranges: &[Range], index: usize) -> (result: bool)
    ensures
        result == is_inside(ranges@, index as int),
{
    for i in 0..ranges.len()
        invariant
            forall|k: int|
                0 <= k < i ==> !((#[trigger] ranges@[k]).start <= index < ranges@[k].end),
    {
        if ranges[i].start <= index && index < ranges[i].end {
            assert(ranges@[i as int].start <= index < ranges@[i as int].end);
            return true;
        }
    }
    false
}

fn same_byte(left: Option<u8>, right: Option<u8>) -> (same: bool)
    ensures
        same == (left == right),
{
    match (left, right) {
        (Some(left), Some(right)) => left == right,
        (None, None) => true,
        _ => false,
    }
}

/// Whether the image holds an acceptable value for the parameter.
fn holds_valid_value(image: &[u8], region: &ParameterRegion) -> (result: bool)
    ensures
        result == value_is_valid(image@, *region),
{
    match region.offset.checked_add(PARAMETER_BYTES) {
        Some(end) => end <= image.len() && read_double(image, region.offset).is_acceptable(
            &region.minimum,
            &region.maximum,
        ),
        None => {
            let _length: usize = image.len();
            false
        },
    }
}

/// Names the parameters for which the image holds no acceptable value.
fn find_invalid_parameters(image: &[u8], regions: &[ParameterRegion]) -> (names: Vec<String>)
    ensures
        views(names@) == invalid_names(image@, regions@),
{
    let mut names: Vec<String> = Vec::new();
    assert(views(names@) =~= Seq::empty());
    for index in 0..regions.len()
        invariant
            views(names@) == invalid_names(image@, regions@.take(index as int)),
    {
        let ghost before = names@;
        assert(regions@.take(index + 1).drop_last() == regions@.take(index as int));
        if !holds_valid_value(image, &regions[index]) {
            names.push(regions[index].name.clone());
            assert(views(names@) =~= views(before).push(regions@[index as int].name@));
        }
    }
    assert(regions@.take(regions@.len() as int) == regions@);
    names
}

impl ParameterValidation {
    /// The verdict on the candidate, and all that it rests on.
    pub open spec fn tells(
        self,
        candidate: Seq<u8>,
        baseline: Seq<u8>,
        regions: Seq<ParameterRegion>,
    ) -> bool {
        let end = longer(candidate, baseline);
        &&& self.allowed == change_allowed(candidate, baseline, regions)
        &&& self.reason@ == validation_reason(candidate, baseline, regions)
        &&& self.baseline_size == baseline.len()
        &&& self.candidate_size == candidate.len()
        &&& self.differing_byte_count == differing_bytes(candidate, baseline, end)
        &&& self.parameter_differing_byte_count == substituted_bytes(
            candidate,
            baseline,
            regions,
            end,
        )
        &&& self.outside_parameter_diffs@ == reported(
            outside_diffs(candidate, baseline, regions, end),
        )
        &&& views(self.invalid_parameters@) == invalid_names(candidate, regions)
    }
}

/// Accepts the candidate only when every changed byte is a substitution in one of the parameter
/// regions, and every parameter in it is finite and within its limits.
pub fn validate_parameter_only_change(
    candidate: &[u8],
    baseline: &[u8],
    regions: &[ParameterRegion],
) -> (validation: ParameterValidation)
    ensures
        validation.tells(candidate@, baseline@, regions@),
{
    let baseline_size: usize = baseline.len();
    let candidate_size: usize = candidate.len();
    let ranges = resolve_parameter_regions(baseline_size, regions);
    let end: usize = if baseline_size < candidate_size {
        candidate_size
    } else {
        baseline_size
    };
    let mut differing_byte_count: usize = 0;
    let mut parameter_differing_byte_count: usize = 0;
    let mut outside_parameter_diffs: Vec<OutsideDiff> = Vec::new();
    proof {
        lemma_resolved_ranges(regions@, baseline@.len() as int);
    }
    for index in 0..end
        invariant
            end == longer(candidate@, baseline@),
            forall|at: int|
                #[trigger] is_inside(ranges@, at) <==> in_region(
                    regions@,
                    baseline@.len() as int,
                    at,
                ),
            differing_byte_count <= index,
            parameter_differing_byte_count <= index,
            differing_byte_count == differing_bytes(candidate@, baseline@, index as int),
            parameter_differing_byte_count == substituted_bytes(
                candidate@,
                baseline@,
                regions@,
                index as int,
            ),
            outside_parameter_diffs@ == reported(
                outside_diffs(candidate@, baseline@, regions@, index as int),
            ),
    {
        let ghost before = outside_diffs(candidate@, baseline@, regions@, index as int);
        let baseline_byte = get_byte(baseline, index);
        let candidate_byte = get_byte(candidate, index);
        if !same_byte(baseline_byte, candidate_byte) {
            differing_byte_count += 1;
            if baseline_byte.is_some() && candidate_byte.is_some() && inside_any(
                ranges.as_slice(),
                index,
            ) {
                parameter_differing_byte_count += 1;
            } else {
                let diff = OutsideDiff {
                    offset: index,
                    baseline: baseline_byte,
                    candidate: candidate_byte,
                };
                assert(outside_diffs(candidate@, baseline@, regions@, index + 1) == before.push(
                    diff,
                ));
                if outside_parameter_diffs.len() < REPORTED_DIFFS {
                    outside_parameter_diffs.push(diff);
                } else {
                    assert(reported(before.push(diff)) =~= reported(before));
                }
            }
        }
    }
    let invalid_parameters = find_invalid_parameters(candidate, regions);
    proof {
        lemma_no_outside_diff(candidate@, baseline@, regions@, end as int);
        lemma_no_invalid_name(candidate@, regions@);
        assert(invalid_names(candidate@, regions@).len() == invalid_parameters@.len());
    }
    let authorized = outside_parameter_diffs.len() == 0;
    let allowed = authorized && invalid_parameters.len() == 0;
    let reason = if allowed {
        "Only authorized autopilot parameter values changed.".to_owned()
    } else if !authorized {
        "Binary changes are not limited to authorized autopilot parameters.".to_owned()
    } else {
        "One or more autopilot parameter values are invalid.".to_owned()
    };
    ParameterValidation {
        allowed,
        reason,
        baseline_size,
        candidate_size,
        differing_byte_count,
        parameter_differing_byte_count,
        outside_parameter_diffs,
        invalid_parameters,
    }
}

/// The first `end` bytes of the image, without those that belong to a usable region.
pub open spec fn kept_bytes(image: Seq<u8>, regions: Seq<ParameterRegion>, end: int) -> Seq<u8>
    decreases end,
{
    if end <= 0 {
        Seq::empty()
    } else {
        let before = kept_bytes(image, regions, end - 1);
        if in_region(regions, image.len() as int, end - 1) {
            before
        } else {
            before.push(image[end - 1])
        }
    }
}

/// The image without the bytes of its parameter regions.
pub open spec fn excised(image: Seq<u8>, regions: Seq<ParameterRegion>) -> Seq<u8> {
    kept_bytes(image, regions, image.len() as int)
}

/// The buffer without the bytes of its parameter regions.
pub fn excise(buffer: &[u8], regions: &[ParameterRegion]) -> (kept: Vec<u8>)
    ensures
        kept@ == excised(buffer@, regions@),
{
    let length: usize = buffer.len();
    let ranges = resolve_parameter_regions(length, regions);
    let mut kept: Vec<u8> = Vec::new();
    proof {
        lemma_resolved_ranges(regions@, length as int);
    }
    for index in 0..length
        invariant
            length == buffer@.len(),
            forall|at: int|
                #[trigger] is_inside(ranges@, at) <==> in_region(
                    regions@,
                    buffer@.len() as int,
                    at,
                ),
            kept@ == kept_bytes(buffer@, regions@, index as int),
    {
        if !inside_any(ranges.as_slice(), index) {
            kept.push(buffer[index]);
        }
    }
    kept
}

/// The SHA-256 digest of the buffer without its parameter regions: legal parameter changes leave
/// it as it is.
pub fn selective_sha256(buffer: &[u8], regions: &[ParameterRegion]) -> (text: String)
    ensures
        text@ == sha256_text(excised(buffer@, regions@)),
        byte_length(text@) == DIGEST_TEXT,
{
    full_sha256(excise(buffer, regions).as_slice())
}

proof fn lemma_kept_bytes_agree(
    left: Seq<u8>,
    right: Seq<u8>,
    regions: Seq<ParameterRegion>,
    end: int,
)
    requires
        left.len() == right.len(),
        end <= left.len(),
        forall|at: int|
            0 <= at < left.len() && !#[trigger] in_region(regions, left.len() as int, at)
                ==> left[at] == right[at],
    ensures
        kept_bytes(left, regions, end) == kept_bytes(right, regions, end),
    decreases end,
{
    if end > 0 {
        lemma_kept_bytes_agree(left, right, regions, end - 1);
    }
}

/// No two regions share a byte.
pub open spec fn regions_apart(regions: Seq<ParameterRegion>) -> bool {
    forall|i: int, j: int|
        0 <= i < j < regions.len() ==> (#[trigger] regions[i]).offset
            + regions[i].length <= (#[trigger] regions[j]).offset || regions[j].offset
            + regions[j].length <= regions[i].offset
}

/// The selective digest stands still under any substitution of parameter bytes.
pub proof fn lemma_selective_digest_stable(
    candidate: Seq<u8>,
    baseline: Seq<u8>,
    regions: Seq<ParameterRegion>,
)
    requires
        changes_authorized(candidate, baseline, regions),
    ensures
        excised(candidate, regions) == excised(baseline, regions),
        sha256_text(excised(candidate, regions)) == sha256_text(excised(baseline, regions)),
{
    lemma_authorized_change(candidate, baseline, regions);
    lemma_kept_bytes_agree(candidate, baseline, regions, baseline.len() as int);
}

proof fn lemma_nothing_kept(image: Seq<u8>, regions: Seq<ParameterRegion>, end: int)
    requires
        forall|at: int| 0 <= at < end ==> #[trigger] in_region(regions, image.len() as int, at),
    ensures
        kept_bytes(image, regions, end) == Seq::<u8>::empty(),
    decreases end,
{
    if end > 0 {
        lemma_nothing_kept(image, regions, end - 1);
        assert(in_region(regions, image.len() as int, end - 1));
    }
}

/// Where every byte belongs to a region, the selective digest is that of no bytes, however the
/// regions overlap.
pub proof fn lemma_covered_image_keeps_nothing(image: Seq<u8>, regions: Seq<ParameterRegion>)
    requires
        forall|at: int|
            0 <= at < image.len() ==> #[trigger] in_region(regions, image.len() as int, at),
    ensures
        excised(image, regions) == Seq::<u8>::empty(),
{
    lemma_nothing_kept(image, regions, image.len() as int);
}

/// An authorized change keeps the length, and every byte outside the regions.
pub proof fn lemma_authorized_change(
    candidate: Seq<u8>,
    baseline: Seq<u8>,
    regions: Seq<ParameterRegion>,
)
    requires
        changes_authorized(candidate, baseline, regions),
    ensures
        candidate.len() == baseline.len(),
        forall|at: int|
            0 <= at < baseline.len() && !#[trigger] in_region(regions, baseline.len() as int, at)
                ==> candidate[at] == baseline[at],
{
    if candidate.len() < baseline.len() {
        assert(differs_at(candidate, baseline, candidate.len() as int));
    }
    if baseline.len() < candidate.len() {
        assert(differs_at(candidate, baseline, baseline.len() as int));
    }
    assert forall|at: int|
        0 <= at < baseline.len() && !#[trigger] in_region(
            regions,
            baseline.len() as int,
            at,
        ) implies candidate[at] == baseline[at] by {
        if candidate[at] != baseline[at] {
            assert(differs_at(candidate, baseline, at));
        }
    }
}

/// The baseline itself may be installed whenever its own parameter values are valid.
pub proof fn lemma_identical_image_allowed(baseline: Seq<u8>, regions: Seq<ParameterRegion>)
    ensures
        change_allowed(baseline, baseline, regions) == values_valid(baseline, regions),
{
}

/// Without regions only an identical image passes.
pub proof fn lemma_without_regions_only_identical(candidate: Seq<u8>, baseline: Seq<u8>)
    ensures
        change_allowed(candidate, baseline, Seq::empty()) <==> candidate == baseline,
{
    if change_allowed(candidate, baseline, Seq::empty()) {
        lemma_authorized_change(candidate, baseline, Seq::empty());
        assert forall|at: int| 0 <= at < baseline.len() implies candidate[at]
            == baseline[at] by {
            assert(!in_region(Seq::empty(), baseline.len() as int, at));
        }
        assert(candidate =~= baseline);
    }
}

/// An allowed candidate has the baseline's selective digest, whatever it writes into the regions
/// and however these overlap.
pub proof fn lemma_allowed_change_keeps_selective_digest(
    candidate: Seq<u8>,
    baseline: Seq<u8>,
    regions: Seq<ParameterRegion>,
)
    requires
        change_allowed(candidate, baseline, regions),
    ensures
        sha256_text(excised(candidate, regions)) == sha256_text(excised(baseline, regions)),
{
    lemma_selective_digest_stable(candidate, baseline, regions);
}

} // verus!
