//! Merging imported points into the points that are configured.

use vstd::prelude::*;

use crate::model::{
    identity_of, lemma_views_push, views, PointConfig, PointConfigView, PointIdentity,
    PointIdentityView,
};
use crate::text::{blank, is_blank};

verus! {

/// The points after a merge, and how many of them are new or changed.
#[derive(Debug, PartialEq, Eq)]
pub struct MergeImportResult {
    pub points: Vec<PointConfig>,
    pub added: usize,
    pub updated: usize,
}

/// The contents of a [`MergeImportResult`].
#[verifier::ext_equal]
pub struct MergeImportResultView {
    pub points: Seq<PointConfigView>,
    pub added: usize,
    pub updated: usize,
}

impl View for MergeImportResult {
    type V = MergeImportResultView;

    open spec fn view(&self) -> MergeImportResultView {
        MergeImportResultView {
            points: views(self.points@),
            added: self.added,
            updated: self.updated,
        }
    }
}

impl Clone for MergeImportResult {
    fn clone(&self) -> (result: Self)
        ensures
            result@ == self@,
    {
        let points = self.points.clone();
        assert(points@ =~= self.points@);
        MergeImportResult {
            points,
            added: self.added,
            updated: self.updated,
        }
    }
}

/// The last point with an identity, by its place.
pub open spec fn last_with(
    points: Seq<PointConfigView>,
    identity: PointIdentityView,
) -> Option<int>
    decreases points.len(),
{
    if points.len() == 0 {
        None
    } else if identity_of(points.last()) == identity {
        Some(points.len() - 1)
    } else {
        last_with(points.drop_last(), identity)
    }
}

/// A configured point with the path and the label of an imported one, where these are not blank.
pub open spec fn refreshed(point: PointConfigView, imported: PointConfigView) -> PointConfigView {
    PointConfigView {
        tag_path: if blank(imported.tag_path) {
            point.tag_path
        } else {
            imported.tag_path
        },
        device_label: if blank(imported.device_label) {
            point.device_label
        } else {
            imported.device_label
        },
        ..point
    }
}

/// Points and counts after one more imported point: it refreshes the last point with its
/// identity, or else is added.
pub open spec fn merge_one(
    merged: MergeImportResultView,
    imported: PointConfigView,
) -> MergeImportResultView {
    match last_with(merged.points, identity_of(imported)) {
        Some(at) => {
            let after = refreshed(merged.points[at], imported);
            if after == merged.points[at] {
                merged
            } else {
                MergeImportResultView {
                    points: merged.points.update(at, after),
                    updated: (merged.updated + 1) as usize,
                    ..merged
                }
            }
        },
        None => MergeImportResultView {
            points: merged.points.push(imported),
            added: (merged.added + 1) as usize,
            ..merged
        },
    }
}

/// Points and counts after all imported points, from first to last.
pub open spec fn merge_all(
    existing: Seq<PointConfigView>,
    imported: Seq<PointConfigView>,
) -> MergeImportResultView
    decreases imported.len(),
{
    if imported.len() == 0 {
        MergeImportResultView { points: existing, added: 0, updated: 0 }
    } else {
        merge_one(merge_all(existing, imported.drop_last()), imported.last())
    }
}

/// The identities of points.
pub open spec fn identities(points: Seq<PointConfigView>) -> Seq<PointIdentityView> {
    Seq::new(points.len(), |i: int| identity_of(points[i]))
}

/// Finds the last point with an identity.
fn find_last(
    known: &Vec<PointIdentity>,
    identity: &PointIdentity,
    Ghost(points): Ghost<Seq<PointConfigView>>,
) -> (found: Option<usize>)
    requires
        views(known@) == identities(points),
    ensures
        match found {
            Some(at) => last_with(points, identity@) == Some(at as int),
            None => last_with(points, identity@) is None,
        },
{
    let mut end: usize = known.len();
    assert(known@.len() == points.len()) by {
        assert(views(known@).len() == identities(points).len());
    }
    assert(points.take(end as int) =~= points);
    while end > 0
        invariant
            end <= known@.len(),
            known@.len() == points.len(),
            views(known@) == identities(points),
            last_with(points, identity@) == last_with(points.take(end as int), identity@),
        decreases end,
    {
        proof {
            assert(views(known@)[end - 1] == identities(points)[end - 1]);
            assert(points.take(end as int).drop_last() =~= points.take(end as int - 1));
        }
        if known[end - 1].same_as(identity) {
            return Some(end - 1);
        }
        end -= 1;
    }
    None
}

/// Refreshes a point from an imported one; returns whether anything changed.
fn refresh_point(point: &mut PointConfig, imported: &PointConfig) -> (changed: bool)
    ensures
        final(point)@ == refreshed(old(point)@, imported@),
        changed == (final(point)@ != old(point)@),
{
    let ghost before = point@;
    let mut changed = false;
    if !is_blank(imported.tag_path.as_str()) && point.tag_path != imported.tag_path {
        point.tag_path = imported.tag_path.clone();
        changed = true;
    }
    if !is_blank(imported.device_label.as_str()) && point.device_label != imported.device_label {
        point.device_label = imported.device_label.clone();
        changed = true;
    }
    assert(point@ =~= refreshed(before, imported@));
    changed
}

proof fn lemma_last_with_bounds(points: Seq<PointConfigView>, identity: PointIdentityView)
    ensures
        match last_with(points, identity) {
            Some(at) => 0 <= at < points.len() && identity_of(points[at]) == identity,
            None => forall|i: int|
                0 <= i < points.len() ==> identity_of(#[trigger] points[i]) != identity,
        },
    decreases points.len(),
{
    if points.len() > 0 {
        lemma_last_with_bounds(points.drop_last(), identity);
        if identity_of(points.last()) != identity && last_with(points.drop_last(), identity)
            is None {
            assert forall|i: int| 0 <= i < points.len() implies identity_of(#[trigger] points[i])
                != identity by {
                if i < points.len() - 1 {
                    assert(points.drop_last()[i] == points[i]);
                }
            }
        }
    }
}

proof fn lemma_merge_counts(existing: Seq<PointConfigView>, imported: Seq<PointConfigView>)
    requires
        imported.len() <= usize::MAX,
    ensures
        merge_all(existing, imported).added + merge_all(existing, imported).updated
            <= imported.len(),
        merge_all(existing, imported).points.len() == existing.len() + merge_all(
            existing,
            imported,
        ).added,
    decreases imported.len(),
{
    if imported.len() > 0 {
        lemma_merge_counts(existing, imported.drop_last());
        lemma_last_with_bounds(
            merge_all(existing, imported.drop_last()).points,
            identity_of(imported.last()),
        );
    }
}

pub fn merge_imported_points(
    existing: &[PointConfig],
    imported: &[PointConfig],
) -> (result: MergeImportResult)
    ensures
        result@ == merge_all(views(existing@), views(imported@)),
{
    broadcast use lemma_views_push;
    let mut points: Vec<PointConfig> = Vec::new();
    let mut known: Vec<PointIdentity> = Vec::new();
    let mut i: usize = 0;
    let ghost old_points = views(existing@);
    let ghost new_points = views(imported@);
    while i < existing.len()
        invariant
            i <= existing@.len(),
            old_points == views(existing@),
            views(points@) == old_points.take(i as int),
            views(known@) == identities(old_points.take(i as int)),
        decreases existing.len() - i,
    {
        proof {
            assert(old_points.take(i as int + 1) =~= old_points.take(i as int).push(
                existing@[i as int]@,
            ));
            assert(identities(old_points.take(i as int + 1)) =~= identities(
                old_points.take(i as int),
            ).push(identity_of(existing@[i as int]@)));
        }
        points.push(existing[i].clone());
        known.push(PointIdentity::from_point(&existing[i]));
        i += 1;
    }
    assert(old_points.take(old_points.len() as int) =~= old_points);

    let mut added: usize = 0;
    let mut updated: usize = 0;
    let mut j: usize = 0;
    assert(new_points.take(0) =~= Seq::<PointConfigView>::empty());
    while j < imported.len()
        invariant
            j <= imported@.len(),
            new_points == views(imported@),
            views(known@) == identities(views(points@)),
            added + updated <= j,
            (MergeImportResultView { points: views(points@), added, updated }) == merge_all(
                old_points,
                new_points.take(j as int),
            ),
        decreases imported.len() - j,
    {
        let ghost before = merge_all(old_points, new_points.take(j as int));
        proof {
            assert(new_points.take(j as int + 1).drop_last() =~= new_points.take(j as int));
            assert(new_points.take(j as int + 1).last() == imported@[j as int]@);
        }
        let identity = PointIdentity::from_point(&imported[j]);
        proof {
            lemma_last_with_bounds(views(points@), identity@);
        }
        match find_last(&known, &identity, Ghost(views(points@))) {
            Some(at) => {
                let mut point = points[at].clone();
                let changed = refresh_point(&mut point, &imported[j]);
                if changed {
                    let ghost points_before = views(points@);
                    points.set(at, point);
                    updated += 1;
                    proof {
                        assert(views(points@) =~= points_before.update(at as int, point@));
                        assert(identities(views(points@)) =~= identities(points_before));
                    }
                }
            },
            None => {
                let ghost points_before = views(points@);
                points.push(imported[j].clone());
                known.push(identity);
                added += 1;
                proof {
                    assert(identities(views(points@)) =~= identities(points_before).push(
                        identity@,
                    ));
                }
            },
        }
        j += 1;
    }
    assert(new_points.take(new_points.len() as int) =~= new_points);
    MergeImportResult { points, added, updated }
}

/// Every configured point keeps its place and all of it but its path and its label.
pub proof fn law_merge_keeps_existing_points(
    existing: Seq<PointConfigView>,
    imported: Seq<PointConfigView>,
    at: int,
)
    requires
        0 <= at < existing.len(),
    ensures
        at < merge_all(existing, imported).points.len(),
        ({
            let after = merge_all(existing, imported).points[at];
            after == PointConfigView {
                tag_path: after.tag_path,
                device_label: after.device_label,
                ..existing[at]
            }
        }),
    decreases imported.len(),
{
    if imported.len() > 0 {
        law_merge_keeps_existing_points(existing, imported.drop_last(), at);
        lemma_last_with_bounds(
            merge_all(existing, imported.drop_last()).points,
            identity_of(imported.last()),
        );
    }
}

/// The counts add up: points are only ever added at the end, and each imported point is either
/// added, or updates a point, or changes nothing.
pub proof fn law_merge_counts(existing: Seq<PointConfigView>, imported: Seq<PointConfigView>)
    requires
        imported.len() <= usize::MAX,
    ensures
        merge_all(existing, imported).points.len() == existing.len() + merge_all(
            existing,
            imported,
        ).added,
        merge_all(existing, imported).added + merge_all(existing, imported).updated
            <= imported.len(),
{
    lemma_merge_counts(existing, imported);
}

/// No two points with the same identity.
pub open spec fn distinct(points: Seq<PointConfigView>) -> bool {
    forall|i: int, j: int|
        #![trigger points[i], points[j]]
        0 <= i < j < points.len() ==> identity_of(points[i]) != identity_of(points[j])
}

/// A merge into points with distinct identities leaves points with distinct identities.
pub proof fn law_merge_keeps_points_distinct(
    existing: Seq<PointConfigView>,
    imported: Seq<PointConfigView>,
)
    requires
        distinct(existing),
    ensures
        distinct(merge_all(existing, imported).points),
    decreases imported.len(),
{
    if imported.len() > 0 {
        law_merge_keeps_points_distinct(existing, imported.drop_last());
        let before = merge_all(existing, imported.drop_last()).points;
        let after = merge_all(existing, imported).points;
        lemma_last_with_bounds(before, identity_of(imported.last()));
        assert forall|i: int, j: int|
            #![trigger after[i], after[j]]
            0 <= i < j < after.len() implies identity_of(after[i]) != identity_of(after[j]) by {
            if j < before.len() {
                assert(identity_of(before[i]) != identity_of(before[j]));
            } else {
                assert(identity_of(before[i]) != identity_of(imported.last()));
            }
        }
    }
}

/// A point that would change nothing if it were imported.
pub open spec fn settled(points: Seq<PointConfigView>, imported: PointConfigView) -> bool {
    match last_with(points, identity_of(imported)) {
        Some(at) => refreshed(points[at], imported) == points[at],
        None => false,
    }
}

proof fn lemma_last_with_update(
    points: Seq<PointConfigView>,
    at: int,
    point: PointConfigView,
    identity: PointIdentityView,
)
    requires
        0 <= at < points.len(),
        identity_of(point) == identity_of(points[at]),
    ensures
        last_with(points.update(at, point), identity) == last_with(points, identity),
    decreases points.len(),
{
    let after = points.update(at, point);
    if at < points.len() - 1 {
        assert(after.drop_last() =~= points.drop_last().update(at, point));
        lemma_last_with_update(points.drop_last(), at, point, identity);
    } else {
        assert(after.drop_last() =~= points.drop_last());
    }
}

proof fn lemma_merge_settles(
    existing: Seq<PointConfigView>,
    imported: Seq<PointConfigView>,
    at: int,
)
    requires
        distinct(imported),
        0 <= at < imported.len(),
    ensures
        settled(merge_all(existing, imported).points, imported[at]),
    decreases imported.len(),
{
    let shorter = imported.drop_last();
    let before = merge_all(existing, shorter).points;
    let last = imported.last();
    let after = merge_all(existing, imported).points;
    lemma_last_with_bounds(before, identity_of(last));
    if let Some(place) = last_with(before, identity_of(last)) {
        let point = refreshed(before[place], last);
        lemma_last_with_update(before, place, point, identity_of(last));
        assert(after =~= before.update(place, point));
        if at < shorter.len() {
            assert(distinct(shorter)) by {
                assert(forall|i: int| 0 <= i < shorter.len() ==> shorter[i] == imported[i]);
            }
            lemma_merge_settles(existing, shorter, at);
            lemma_last_with_update(before, place, point, identity_of(imported[at]));
            lemma_last_with_bounds(before, identity_of(imported[at]));
            assert(identity_of(imported[at]) != identity_of(imported[imported.len() - 1]));
        }
    } else {
        assert(after =~= before.push(last));
        assert(after.drop_last() =~= before);
        if at < shorter.len() {
            assert(distinct(shorter)) by {
                assert(forall|i: int| 0 <= i < shorter.len() ==> shorter[i] == imported[i]);
            }
            lemma_merge_settles(existing, shorter, at);
            lemma_last_with_bounds(before, identity_of(imported[at]));
            assert(identity_of(imported[at]) != identity_of(imported[imported.len() - 1]));
        }
    }
}

proof fn lemma_merge_settled(points: Seq<PointConfigView>, imported: Seq<PointConfigView>)
    requires
        forall|i: int| 0 <= i < imported.len() ==> settled(points, #[trigger] imported[i]),
    ensures
        merge_all(points, imported) == (MergeImportResultView { points, added: 0, updated: 0 }),
    decreases imported.len(),
{
    if imported.len() > 0 {
        let shorter = imported.drop_last();
        assert forall|i: int| 0 <= i < shorter.len() implies settled(
            points,
            #[trigger] shorter[i],
        ) by {
            assert(shorter[i] == imported[i]);
        }
        lemma_merge_settled(points, shorter);
        assert(settled(points, imported[imported.len() - 1]));
    }
}

/// Importing the same points again changes nothing, where no two of them are the same point.
pub proof fn law_merging_again_changes_nothing(
    existing: Seq<PointConfigView>,
    imported: Seq<PointConfigView>,
)
    requires
        distinct(imported),
    ensures
        merge_all(merge_all(existing, imported).points, imported) == (MergeImportResultView {
            points: merge_all(existing, imported).points,
            added: 0,
            updated: 0,
        }),
{
    let points = merge_all(existing, imported).points;
    assert forall|i: int| 0 <= i < imported.len() implies settled(
        points,
        #[trigger] imported[i],
    ) by {
        lemma_merge_settles(existing, imported, i);
    }
    lemma_merge_settled(points, imported);
}

/// The latest path and the latest label that imports give a point, those that are blank left aside.
pub open spec fn latest(
    imported: Seq<PointConfigView>,
    identity: PointIdentityView,
) -> (Option<Seq<char>>, Option<Seq<char>>)
    decreases imported.len(),
{
    if imported.len() == 0 {
        (None, None)
    } else {
        let before = latest(imported.drop_last(), identity);
        let last = imported.last();
        if identity_of(last) != identity {
            before
        } else {
            (
                if blank(last.tag_path) {
                    before.0
                } else {
                    Some(last.tag_path)
                },
                if blank(last.device_label) {
                    before.1
                } else {
                    Some(last.device_label)
                },
            )
        }
    }
}

/// A point with a path and a label, where these are given.
pub open spec fn with_latest(
    point: PointConfigView,
    given: (Option<Seq<char>>, Option<Seq<char>>),
) -> PointConfigView {
    PointConfigView {
        tag_path: match given.0 {
            Some(path) => path,
            None => point.tag_path,
        },
        device_label: match given.1 {
            Some(label) => label,
            None => point.device_label,
        },
        ..point
    }
}

/// After a merge, the last point with an identity has what the imports gave it last.
proof fn lemma_merge_gives_latest(
    existing: Seq<PointConfigView>,
    imported: Seq<PointConfigView>,
    identity: PointIdentityView,
)
    ensures
        ({
            let points = merge_all(existing, imported).points;
            let given = latest(imported, identity);
            match last_with(points, identity) {
                Some(at) => with_latest(points[at], given) == points[at],
                None => given.0 is None && given.1 is None,
            }
        }),
    decreases imported.len(),
{
    if imported.len() > 0 {
        let shorter = imported.drop_last();
        let before = merge_all(existing, shorter).points;
        let after = merge_all(existing, imported).points;
        let last = imported.last();
        lemma_merge_gives_latest(existing, shorter, identity);
        lemma_last_with_bounds(before, identity_of(last));
        lemma_last_with_bounds(before, identity);
        if let Some(place) = last_with(before, identity_of(last)) {
            let point = refreshed(before[place], last);
            assert(after =~= before.update(place, point));
            lemma_last_with_update(before, place, point, identity);
        } else {
            assert(after =~= before.push(last));
            assert(after.drop_last() =~= before);
        }
    }
}

/// Importing into points that have all of the imported ones adds none, and gives the last point with
/// each identity what the imports give it last.
proof fn lemma_merge_known(points: Seq<PointConfigView>, imported: Seq<PointConfigView>)
    requires
        forall|i: int|
            0 <= i < imported.len() ==> last_with(points, identity_of(#[trigger] imported[i]))
                is Some,
    ensures
        ({
            let merged = merge_all(points, imported);
            &&& merged.added == 0
            &&& merged.points.len() == points.len()
            &&& forall|identity: PointIdentityView| #[trigger]
                last_with(merged.points, identity) == last_with(points, identity)
            &&& forall|at: int|
                0 <= at < points.len() ==> #[trigger] merged.points[at] == if last_with(
                    points,
                    identity_of(points[at]),
                ) == Some(at) {
                    with_latest(points[at], latest(imported, identity_of(points[at])))
                } else {
                    points[at]
                }
        }),
    decreases imported.len(),
{
    if imported.len() > 0 {
        let shorter = imported.drop_last();
        assert forall|i: int| 0 <= i < shorter.len() implies last_with(
            points,
            identity_of(#[trigger] shorter[i]),
        ) is Some by {
            assert(shorter[i] == imported[i]);
        }
        lemma_merge_known(points, shorter);
        let before = merge_all(points, shorter).points;
        let after = merge_all(points, imported).points;
        let last = imported[imported.len() - 1];
        assert(last_with(points, identity_of(last)) is Some);
        let place = last_with(before, identity_of(last))->Some_0;
        lemma_last_with_bounds(before, identity_of(last));
        lemma_last_with_bounds(points, identity_of(last));
        let point = refreshed(before[place], last);
        assert(after =~= before.update(place, point));
        assert forall|identity: PointIdentityView| #[trigger]
            last_with(after, identity) == last_with(points, identity) by {
            lemma_last_with_update(before, place, point, identity);
            assert(last_with(before, identity) == last_with(points, identity));
        }
        assert forall|at: int| 0 <= at < points.len() implies #[trigger] after[at]
            == if last_with(points, identity_of(points[at])) == Some(at) {
            with_latest(points[at], latest(imported, identity_of(points[at])))
        } else {
            points[at]
        } by {
            assert(before[at] == if last_with(points, identity_of(points[at])) == Some(at) {
                with_latest(points[at], latest(shorter, identity_of(points[at])))
            } else {
                points[at]
            });
        }
    }
}

/// Importing the same points again leaves all points as they are and adds none, whatever was
/// imported.
pub proof fn law_merging_again_keeps_the_points(
    existing: Seq<PointConfigView>,
    imported: Seq<PointConfigView>,
)
    ensures
        ({
            let points = merge_all(existing, imported).points;
            let again = merge_all(points, imported);
            again.points == points && again.added == 0
        }),
{
    let points = merge_all(existing, imported).points;
    let again = merge_all(points, imported);
    assert forall|i: int| 0 <= i < imported.len() implies last_with(
        points,
        identity_of(#[trigger] imported[i]),
    ) is Some by {
        law_every_import_is_present(existing, imported, i);
        lemma_last_with_bounds(points, identity_of(imported[i]));
        let place = choose|place: int|
            0 <= place < points.len() && identities(points)[place] == identity_of(imported[i]);
        assert(identity_of(points[place]) == identity_of(imported[i]));
    }
    lemma_merge_known(points, imported);
    assert forall|at: int| 0 <= at < points.len() implies again.points[at] == points[at] by {
        lemma_merge_gives_latest(existing, imported, identity_of(points[at]));
    }
    assert(again.points =~= points);
}

/// No imported point is lost: each has a point with its identity in the result.
pub proof fn law_every_import_is_present(
    existing: Seq<PointConfigView>,
    imported: Seq<PointConfigView>,
    at: int,
)
    requires
        0 <= at < imported.len(),
    ensures
        identities(merge_all(existing, imported).points).contains(identity_of(imported[at])),
    decreases imported.len(),
{
    let shorter = imported.drop_last();
    let before = merge_all(existing, shorter).points;
    let after = merge_all(existing, imported).points;
    lemma_last_with_bounds(before, identity_of(imported.last()));
    assert(forall|i: int|
        0 <= i < before.len() ==> identity_of(#[trigger] after[i]) == identity_of(before[i]));
    if at < shorter.len() {
        law_every_import_is_present(existing, shorter, at);
        let i = choose|i: int|
            0 <= i < before.len() && identities(before)[i] == identity_of(imported[at]);
        assert(identities(after)[i] == identity_of(imported[at]));
    } else {
        match last_with(before, identity_of(imported.last())) {
            Some(place) => {
                assert(identities(after)[place] == identity_of(imported[at]));
            },
            None => {
                assert(identities(after)[before.len() as int] == identity_of(imported[at]));
            },
        }
    }
}

} // verus!
