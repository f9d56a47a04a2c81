//! Firmware images: what an update may change, and what the selective digest covers.

use crate::binary64::Binary64;
use crate::digest::sha256_text;
use crate::parameters::{
    change_allowed, changes_authorized, differing_bytes, differs_at, excised, in_region,
    invalid_names, is_usable, kept_bytes, lemma_authorized_change, longer, outside_diffs,
    resolved_ranges, substituted_at, substituted_bytes, usable_ranges, value_is_valid,
    values_valid, OutsideDiff, ParameterRegion, ParameterValidation, Range,
};
use crate::sorting::{lemma_in_order, lemma_in_order_keeps_ties, tied, Ranked};
use crate::text::views;
use vstd::prelude::*;

verus! {

/// The eight bytes from `at` on are those of `value`, the lowest first.
pub open spec fn stores(image: Seq<u8>, at: int, value: Binary64) -> bool {
    &&& 0 <= at
    &&& at + 8 <= image.len()
    &&& value.bits == image[at] + 0x100 * image[at + 1] + 0x1_0000 * image[at + 2] + 0x100_0000
        * image[at + 3] + 0x1_0000_0000 * image[at + 4] + 0x100_0000_0000 * image[at + 5]
        + 0x1_0000_0000_0000 * image[at + 6] + 0x100_0000_0000_0000 * image[at + 7]
}

/// At the region's offset the image stores a finite value, neither below the region's minimum nor
/// above its maximum.
pub open spec fn within_limits(image: Seq<u8>, region: ParameterRegion) -> bool {
    exists|value: Binary64| #[trigger]
        stores(image, region.offset as int, value) && value.finite() && !value.below(
            region.minimum,
        ) && !region.maximum.below(value)
}

/// The byte belongs to a region that ends inside an image of that length.
pub open spec fn changeable(regions: Seq<ParameterRegion>, length: int, at: int) -> bool {
    exists|i: int|
        0 <= i < regions.len() && (#[trigger] regions[i]).offset <= at < regions[i].offset
            + regions[i].length && regions[i].offset + regions[i].length <= length
}

/// The images are equally long and differ in changeable bytes only.
pub open spec fn differ_in_regions_only(
    candidate: Seq<u8>,
    baseline: Seq<u8>,
    regions: Seq<ParameterRegion>,
) -> bool {
    &&& candidate.len() == baseline.len()
    &&& forall|at: int|
        0 <= at < baseline.len() && #[trigger] candidate[at] != baseline[at] ==> changeable(
            regions,
            baseline.len() as int,
            at,
        )
}

/// The images differ at the place, in value or because only one of them reaches it.
pub open spec fn unequal_at(candidate: Seq<u8>, baseline: Seq<u8>, at: int) -> bool {
    if at < candidate.len() && at < baseline.len() {
        candidate[at] != baseline[at]
    } else {
        at < candidate.len() || at < baseline.len()
    }
}

/// The places of an image.
pub open spec fn places(length: int) -> Seq<int> {
    Seq::new(length as nat, |at: int| at)
}

/// The greater of two lengths.
pub open spec fn greater(left: int, right: int) -> int {
    if left < right {
        right
    } else {
        left
    }
}

proof fn lemma_changeable(regions: Seq<ParameterRegion>, length: int, at: int)
    ensures
        changeable(regions, length, at) == in_region(regions, length, at),
{
    if changeable(regions, length, at) {
        let i = choose|i: int|
            0 <= i < regions.len() && (#[trigger] regions[i]).offset <= at < regions[i].offset
                + regions[i].length && regions[i].offset + regions[i].length <= length;
        assert(is_usable(regions[i], length));
    }
}

proof fn lemma_within_limits(image: Seq<u8>, region: ParameterRegion)
    ensures
        within_limits(image, region) == value_is_valid(image, region),
{
    let at = region.offset as int;
    if at + 8 <= image.len() {
        let bytes = image.subrange(at, at + 8);
        assert(forall|i: int| 0 <= i < 8 ==> bytes[i] == image[at + i]);
        let value = crate::binary64::double_at(image, at);
        assert(stores(image, at, value));
        if within_limits(image, region) {
            let other = choose|other: Binary64| #[trigger]
                stores(image, at, other) && other.finite() && !other.below(region.minimum)
                    && !region.maximum.below(other);
            assert(other.bits == value.bits);
            assert(other == value);
        }
    }
}

proof fn lemma_differ_in_regions_only(
    candidate: Seq<u8>,
    baseline: Seq<u8>,
    regions: Seq<ParameterRegion>,
)
    ensures
        differ_in_regions_only(candidate, baseline, regions) == changes_authorized(
            candidate,
            baseline,
            regions,
        ),
{
    let length = baseline.len() as int;
    if changes_authorized(candidate, baseline, regions) {
        lemma_authorized_change(candidate, baseline, regions);
        assert forall|at: int|
            0 <= at < length && #[trigger] candidate[at] != baseline[at] implies changeable(
            regions,
            length,
            at,
        ) by {
            lemma_changeable(regions, length, at);
            assert(in_region(regions, length, at));
        }
    }
    if differ_in_regions_only(candidate, baseline, regions) {
        assert forall|index: int|
            0 <= index < longer(candidate, baseline) && #[trigger] differs_at(
                candidate,
                baseline,
                index,
            ) implies substituted_at(candidate, baseline, regions, index) by {
            lemma_changeable(regions, length, index);
            assert(candidate[index] != baseline[index]);
        }
    }
}

proof fn lemma_refused_names(image: Seq<u8>, regions: Seq<ParameterRegion>)
    ensures
        invalid_names(image, regions) == regions.filter(
            |region: ParameterRegion| !within_limits(image, region),
        ).map_values(|region: ParameterRegion| region.name@),
    decreases regions.len(),
{
    reveal(Seq::filter);
    let bad = |region: ParameterRegion| !within_limits(image, region);
    let name = |region: ParameterRegion| region.name@;
    if regions.len() > 0 {
        lemma_refused_names(image, regions.drop_last());
        lemma_within_limits(image, regions.last());
        let before = regions.drop_last().filter(bad);
        assert(before.push(regions.last()).map_values(name) =~= before.map_values(name).push(
            regions.last().name@,
        ));
    } else {
        assert(regions.filter(bad).map_values(name) =~= Seq::empty());
    }
}

proof fn lemma_counts(
    candidate: Seq<u8>,
    baseline: Seq<u8>,
    regions: Seq<ParameterRegion>,
    end: int,
)
    requires
        0 <= end <= greater(candidate.len() as int, baseline.len() as int),
        end <= usize::MAX,
    ensures
        differing_bytes(candidate, baseline, end) == places(end).filter(
            |at: int| unequal_at(candidate, baseline, at),
        ).len(),
        substituted_bytes(candidate, baseline, regions, end) == places(end).filter(
            |at: int|
                unequal_at(candidate, baseline, at) && at < candidate.len() && changeable(
                    regions,
                    baseline.len() as int,
                    at,
                ),
        ).len(),
        outside_diffs(candidate, baseline, regions, end).map_values(
            |diff: OutsideDiff| diff.offset as int,
        ) == places(end).filter(
            |at: int|
                unequal_at(candidate, baseline, at) && !(at < candidate.len() && changeable(
                    regions,
                    baseline.len() as int,
                    at,
                )),
        ),
    decreases end,
{
    reveal(Seq::filter);
    let length = baseline.len() as int;
    let unequal = |at: int| unequal_at(candidate, baseline, at);
    let inside = |at: int|
        unequal_at(candidate, baseline, at) && at < candidate.len() && changeable(
            regions,
            length,
            at,
        );
    let outside = |at: int|
        unequal_at(candidate, baseline, at) && !(at < candidate.len() && changeable(
            regions,
            length,
            at,
        ));
    let offset = |diff: OutsideDiff| diff.offset as int;
    if end > 0 {
        let at = end - 1;
        lemma_counts(candidate, baseline, regions, at);
        lemma_changeable(regions, length, at);
        assert(places(end).drop_last() =~= places(at));
        assert(places(end).last() == at);
        assert(differs_at(candidate, baseline, at) == unequal(at));
        let before = outside_diffs(candidate, baseline, regions, at);
        let diff = OutsideDiff {
            offset: at as usize,
            baseline: crate::parameters::byte_at(baseline, at),
            candidate: crate::parameters::byte_at(candidate, at),
        };
        assert(before.push(diff).map_values(offset) =~= before.map_values(offset).push(
            diff.offset as int,
        ));
    } else {
        assert(outside_diffs(candidate, baseline, regions, end).map_values(offset)
            =~= Seq::empty());
        assert(places(end).filter(outside) =~= Seq::empty());
    }
}

/// A candidate is allowed exactly when it is as long as the baseline, differs from it only inside
/// regions that lie within the image, and stores, at the offset of every region, a finite value
/// within that region's limits. The reason says which of the two is violated, and the parameters
/// named are those whose values are not within their limits.
pub proof fn lemma_validation(
    validation: ParameterValidation,
    candidate: Seq<u8>,
    baseline: Seq<u8>,
    regions: Seq<ParameterRegion>,
)
    requires
        validation.tells(candidate, baseline, regions),
    ensures
        validation.allowed <==> differ_in_regions_only(candidate, baseline, regions) && forall|
            i: int,
        |
            0 <= i < regions.len() ==> within_limits(candidate, #[trigger] regions[i]),
        validation.reason@ == if validation.allowed {
            "Only authorized autopilot parameter values changed."@
        } else if differ_in_regions_only(candidate, baseline, regions) {
            "One or more autopilot parameter values are invalid."@
        } else {
            "Binary changes are not limited to authorized autopilot parameters."@
        },
        views(validation.invalid_parameters@) == regions.filter(
            |region: ParameterRegion| !within_limits(candidate, region),
        ).map_values(|region: ParameterRegion| region.name@),
        validation.baseline_size == baseline.len(),
        validation.candidate_size == candidate.len(),
{
    lemma_differ_in_regions_only(candidate, baseline, regions);
    lemma_refused_names(candidate, regions);
    assert forall|i: int| 0 <= i < regions.len() implies within_limits(
        candidate,
        #[trigger] regions[i],
    ) == value_is_valid(candidate, regions[i]) by {
        lemma_within_limits(candidate, regions[i]);
    }
    if validation.allowed {
        assert(values_valid(candidate, regions));
        assert forall|i: int| 0 <= i < regions.len() implies within_limits(
            candidate,
            #[trigger] regions[i],
        ) by {
            assert(value_is_valid(candidate, regions[i]));
        }
    } else if differ_in_regions_only(candidate, baseline, regions) {
        let i = choose|i: int|
            0 <= i < regions.len() && !value_is_valid(candidate, #[trigger] regions[i]);
        assert(!within_limits(candidate, regions[i]));
    }
}

/// A validation counts every place at which the images differ, and of these the ones inside
/// regions; it lists the first sixteen of the others, in their order, with the bytes that stand
/// there.
pub proof fn lemma_validation_counts(
    validation: ParameterValidation,
    candidate: Seq<u8>,
    baseline: Seq<u8>,
    regions: Seq<ParameterRegion>,
)
    requires
        validation.tells(candidate, baseline, regions),
        candidate.len() <= usize::MAX,
        baseline.len() <= usize::MAX,
    ensures
        ({
            let all = places(greater(candidate.len() as int, baseline.len() as int));
            let outside = all.filter(
                |at: int|
                    unequal_at(candidate, baseline, at) && !(at < candidate.len() && changeable(
                        regions,
                        baseline.len() as int,
                        at,
                    )),
            );
            let listed = validation.outside_parameter_diffs@;
            &&& validation.differing_byte_count == all.filter(
                |at: int| unequal_at(candidate, baseline, at),
            ).len()
            &&& validation.parameter_differing_byte_count == all.filter(
                |at: int|
                    unequal_at(candidate, baseline, at) && at < candidate.len() && changeable(
                        regions,
                        baseline.len() as int,
                        at,
                    ),
            ).len()
            &&& listed.len() == if outside.len() < 16 {
                outside.len() as int
            } else {
                16
            }
            &&& forall|i: int|
                0 <= i < listed.len() ==> {
                    &&& (#[trigger] listed[i]).offset == outside[i]
                    &&& listed[i].baseline == if outside[i] < baseline.len() {
                        Some(baseline[outside[i]])
                    } else {
                        None
                    }
                    &&& listed[i].candidate == if outside[i] < candidate.len() {
                        Some(candidate[outside[i]])
                    } else {
                        None
                    }
                }
        }),
{
    let end = greater(candidate.len() as int, baseline.len() as int);
    lemma_counts(candidate, baseline, regions, end);
    lemma_outside_bytes(candidate, baseline, regions, end);
    let found = outside_diffs(candidate, baseline, regions, end);
    let offsets = found.map_values(|diff: OutsideDiff| diff.offset as int);
    let listed = validation.outside_parameter_diffs@;
    assert(offsets.len() == found.len());
    assert forall|i: int| 0 <= i < listed.len() implies (#[trigger] listed[i]) == found[i]
        && offsets[i] == found[i].offset by {}
}

proof fn lemma_outside_bytes(
    candidate: Seq<u8>,
    baseline: Seq<u8>,
    regions: Seq<ParameterRegion>,
    end: int,
)
    requires
        0 <= end <= usize::MAX,
    ensures
        ({
            let found = outside_diffs(candidate, baseline, regions, end);
            forall|i: int|
                0 <= i < found.len() ==> {
                    &&& (#[trigger] found[i]).baseline == if found[i].offset < baseline.len() {
                        Some(baseline[found[i].offset as int])
                    } else {
                        None
                    }
                    &&& found[i].candidate == if found[i].offset < candidate.len() {
                        Some(candidate[found[i].offset as int])
                    } else {
                        None
                    }
                }
        }),
    decreases end,
{
    if end > 0 {
        lemma_outside_bytes(candidate, baseline, regions, end - 1);
    }
}

proof fn lemma_kept(image: Seq<u8>, regions: Seq<ParameterRegion>, end: int)
    requires
        0 <= end <= image.len(),
    ensures
        kept_bytes(image, regions, end) == places(end).filter(
            |at: int| !changeable(regions, image.len() as int, at),
        ).map_values(|at: int| image[at]),
    decreases end,
{
    reveal(Seq::filter);
    let kept = |at: int| !changeable(regions, image.len() as int, at);
    let byte = |at: int| image[at];
    if end > 0 {
        lemma_kept(image, regions, end - 1);
        lemma_changeable(regions, image.len() as int, end - 1);
        assert(places(end).drop_last() =~= places(end - 1));
        let before = places(end - 1).filter(kept);
        assert(before.push(end - 1).map_values(byte) =~= before.map_values(byte).push(
            image[end - 1],
        ));
    } else {
        assert(places(end).filter(kept).map_values(byte) =~= Seq::empty());
    }
}

/// The selective digest covers the bytes outside the regions, all of them and in their order.
pub proof fn lemma_selective_digest_covers_the_rest(image: Seq<u8>, regions: Seq<ParameterRegion>)
    ensures
        sha256_text(excised(image, regions)) == sha256_text(
            places(image.len() as int).filter(
                |at: int| !changeable(regions, image.len() as int, at),
            ).map_values(|at: int| image[at]),
        ),
{
    lemma_kept(image, regions, image.len() as int);
}

/// What may replace a baseline, said of the bytes alone.
pub proof fn lemma_allowed_images(
    candidate: Seq<u8>,
    baseline: Seq<u8>,
    regions: Seq<ParameterRegion>,
)
    ensures
        change_allowed(candidate, baseline, regions) <==> differ_in_regions_only(
            candidate,
            baseline,
            regions,
        ) && forall|i: int|
            0 <= i < regions.len() ==> within_limits(candidate, #[trigger] regions[i]),
{
    lemma_differ_in_regions_only(candidate, baseline, regions);
    assert forall|i: int| 0 <= i < regions.len() implies within_limits(
        candidate,
        #[trigger] regions[i],
    ) == value_is_valid(candidate, regions[i]) by {
        lemma_within_limits(candidate, regions[i]);
    }
    if values_valid(candidate, regions) {
        assert forall|i: int| 0 <= i < regions.len() implies within_limits(
            candidate,
            #[trigger] regions[i],
        ) by {
            assert(value_is_valid(candidate, regions[i]));
        }
    } else {
        let i = choose|i: int|
            0 <= i < regions.len() && !value_is_valid(candidate, #[trigger] regions[i]);
        assert(!within_limits(candidate, regions[i]));
    }
}

proof fn lemma_usable(regions: Seq<ParameterRegion>, length: int)
    ensures
        usable_ranges(regions, length) == regions.filter(
            |region: ParameterRegion|
                region.length > 0 && region.offset + region.length <= length,
        ).map_values(
            |region: ParameterRegion|
                Range { start: region.offset, end: (region.offset + region.length) as usize },
        ),
    decreases regions.len(),
{
    reveal(Seq::filter);
    let fits = |region: ParameterRegion|
        region.length > 0 && region.offset + region.length <= length;
    let range = |region: ParameterRegion|
        Range { start: region.offset, end: (region.offset + region.length) as usize };
    if regions.len() > 0 {
        lemma_usable(regions.drop_last(), length);
        let before = regions.drop_last().filter(fits);
        assert(before.push(regions.last()).map_values(range) =~= before.map_values(range).push(
            range(regions.last()),
        ));
    } else {
        assert(regions.filter(fits).map_values(range) =~= Seq::empty());
    }
}

/// The resolved ranges are those of the regions that are not empty and end inside the image, each
/// of them once, by where they start; ranges that start at one place stay in the regions' order.
pub proof fn lemma_resolved_regions(regions: Seq<ParameterRegion>, length: int, pivot: Range)
    ensures
        ({
            let resolved = resolved_ranges(regions, length);
            let usable = regions.filter(
                |region: ParameterRegion|
                    region.length > 0 && region.offset + region.length <= length,
            ).map_values(
                |region: ParameterRegion|
                    Range { start: region.offset, end: (region.offset + region.length) as usize },
            );
            &&& resolved.to_multiset() == usable.to_multiset()
            &&& resolved.len() == usable.len()
            &&& forall|i: int, j: int|
                0 <= i < j < resolved.len() ==> (#[trigger] resolved[i]).start <= (
                #[trigger] resolved[j]).start
            &&& resolved.filter(|range: Range| range.start == pivot.start) == usable.filter(
                |range: Range| range.start == pivot.start,
            )
        }),
{
    lemma_usable(regions, length);
    let usable = usable_ranges(regions, length);
    let resolved = resolved_ranges(regions, length);
    lemma_in_order(usable);
    lemma_in_order_keeps_ties(usable, pivot);
    assert((|range: Range| tied(range, pivot)) =~= (|range: Range| range.start == pivot.start));
    assert forall|i: int, j: int| 0 <= i < j < resolved.len() implies (
    #[trigger] resolved[i]).start <= (#[trigger] resolved[j]).start by {
        assert(resolved[i].not_after(resolved[j]));
    }
}

} // verus!
