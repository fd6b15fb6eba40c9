//! What becomes of the configured points when points are imported.

use vstd::prelude::*;

use crate::import::{last_with, law_merge_counts, merge_all};
use crate::model::{identity_of, PointConfigView, PointIdentityView};
use crate::text::{all_space, lemma_blank_is_space};

verus! {

/// Importing nothing changes nothing.
pub proof fn law_nothing_is_imported(existing: Seq<PointConfigView>)
    ensures
        merge_all(existing, Seq::empty()).points == existing,
        merge_all(existing, Seq::empty()).added == 0,
        merge_all(existing, Seq::empty()).updated == 0,
{
}

/// A point that is imported last and is not there yet is added as it is, behind all others.
pub proof fn law_new_points_are_added(
    existing: Seq<PointConfigView>,
    imported: Seq<PointConfigView>,
    point: PointConfigView,
)
    requires
        imported.len() < usize::MAX,
        forall|i: int|
            0 <= i < merge_all(existing, imported).points.len() ==> identity_of(
                #[trigger] merge_all(existing, imported).points[i],
            ) != identity_of(point),
    ensures
        ({
            let before = merge_all(existing, imported);
            let after = merge_all(existing, imported.push(point));
            &&& after.points == before.points.push(point)
            &&& after.added == before.added + 1
            &&& after.updated == before.updated
        }),
{
    let before = merge_all(existing, imported);
    law_merge_counts(existing, imported);
    assert(imported.push(point).drop_last() =~= imported);
    lemma_last_with(before.points, identity_of(point));
}

/// A point that is imported last and is there already gives its path and its label to the last point
/// that is the same, unless they are blank. Nothing else of that point changes, nor any other point.
/// It counts as updated only where something changed.
pub proof fn law_known_points_are_updated(
    existing: Seq<PointConfigView>,
    imported: Seq<PointConfigView>,
    point: PointConfigView,
    at: int,
)
    requires
        imported.len() < usize::MAX,
        0 <= at < merge_all(existing, imported).points.len(),
        identity_of(merge_all(existing, imported).points[at]) == identity_of(point),
        forall|i: int|
            at < i < merge_all(existing, imported).points.len() ==> identity_of(
                #[trigger] merge_all(existing, imported).points[i],
            ) != identity_of(point),
    ensures
        ({
            let before = merge_all(existing, imported);
            let after = merge_all(existing, imported.push(point));
            let (old_point, new_point) = (before.points[at], after.points[at]);
            &&& after.points.len() == before.points.len()
            &&& after.added == before.added
            &&& forall|i: int|
                0 <= i < before.points.len() && i != at ==> #[trigger] after.points[i]
                    == before.points[i]
            &&& new_point.tag_path == if all_space(point.tag_path) {
                old_point.tag_path
            } else {
                point.tag_path
            }
            &&& new_point.device_label == if all_space(point.device_label) {
                old_point.device_label
            } else {
                point.device_label
            }
            &&& new_point.enabled == old_point.enabled
            &&& new_point.device_instance == old_point.device_instance
            &&& new_point.object_type == old_point.object_type
            &&& new_point.object_instance == old_point.object_instance
            &&& new_point.property == old_point.property
            &&& new_point.poll_interval_secs == old_point.poll_interval_secs
            &&& after.updated == if new_point.tag_path != old_point.tag_path
                || new_point.device_label != old_point.device_label {
                before.updated + 1
            } else {
                before.updated as int
            }
        }),
{
    let before = merge_all(existing, imported);
    law_merge_counts(existing, imported);
    assert(imported.push(point).drop_last() =~= imported);
    lemma_last_with(before.points, identity_of(point));
    lemma_last_is(before.points, identity_of(point), at);
    lemma_blank_is_space(point.tag_path);
    lemma_blank_is_space(point.device_label);
}

proof fn lemma_last_with(points: Seq<PointConfigView>, identity: PointIdentityView)
    ensures
        (forall|i: int| 0 <= i < points.len() ==> identity_of(#[trigger] points[i]) != identity)
            ==> last_with(points, identity) is None,
    decreases points.len(),
{
    if points.len() > 0 && forall|i: int|
        0 <= i < points.len() ==> identity_of(#[trigger] points[i]) != identity {
        let before = points.drop_last();
        assert forall|i: int| 0 <= i < before.len() implies identity_of(#[trigger] before[i])
            != identity by {
            assert(before[i] == points[i]);
        }
        lemma_last_with(before, identity);
        assert(points[points.len() - 1] == points.last());
    }
}

proof fn lemma_last_is(points: Seq<PointConfigView>, identity: PointIdentityView, at: int)
    requires
        0 <= at < points.len(),
        identity_of(points[at]) == identity,
        forall|i: int| at < i < points.len() ==> identity_of(#[trigger] points[i]) != identity,
    ensures
        last_with(points, identity) == Some(at),
    decreases points.len(),
{
    if at < points.len() - 1 {
        let before = points.drop_last();
        assert forall|i: int| at < i < before.len() implies identity_of(#[trigger] before[i])
            != identity by {
            assert(before[i] == points[i]);
        }
        lemma_last_is(before, identity, at);
        assert(points[points.len() - 1] == points.last());
    }
}

} // verus!
