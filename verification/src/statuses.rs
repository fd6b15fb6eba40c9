//! The status of each point, found by the point's identity.

use vstd::prelude::*;

use crate::model::{
    identity_of, initial_status, status_after_publish, status_after_read_failure,
    status_after_sample, PointConfig, PointIdentity, PointIdentityView, PointSample,
    PointSampleView, PointStatus, PointStatusView,
};

verus! {

/// The status of each point that was read or tried to be read, by identity.
#[derive(Debug)]
pub struct StatusTable {
    pub entries: Vec<(PointIdentity, PointStatus)>,
}

/// The contents of a list of entries.
pub open spec fn entry_views(
    entries: Seq<(PointIdentity, PointStatus)>,
) -> Seq<(PointIdentityView, PointStatusView)> {
    Seq::new(entries.len(), |i: int| (entries[i].0@, entries[i].1@))
}

/// The statuses of a list of entries by identity.
pub open spec fn status_map(
    entries: Seq<(PointIdentityView, PointStatusView)>,
) -> Map<PointIdentityView, PointStatusView>
    decreases entries.len(),
{
    if entries.len() == 0 {
        Map::empty()
    } else {
        status_map(entries.drop_last()).insert(entries.last().0, entries.last().1)
    }
}

/// No identity stands in the list twice.
pub open spec fn no_duplicates(entries: Seq<(PointIdentityView, PointStatusView)>) -> bool {
    forall|i: int, j: int|
        #![trigger entries[i], entries[j]]
        0 <= i < j < entries.len() ==> entries[i].0 != entries[j].0
}

impl View for StatusTable {
    type V = Map<PointIdentityView, PointStatusView>;

    closed spec fn view(&self) -> Map<PointIdentityView, PointStatusView> {
        status_map(entry_views(self.entries@))
    }
}

/// The status of a point, or the initial one where it has none yet.
pub open spec fn status_in(
    statuses: Map<PointIdentityView, PointStatusView>,
    identity: PointIdentityView,
) -> PointStatusView {
    if statuses.contains_key(identity) {
        statuses[identity]
    } else {
        initial_status()
    }
}

/// The statuses after a value was read.
pub open spec fn with_sample(
    statuses: Map<PointIdentityView, PointStatusView>,
    sample: PointSampleView,
) -> Map<PointIdentityView, PointStatusView> {
    let identity = identity_of(sample.point);
    statuses.insert(
        identity,
        status_after_sample(status_in(statuses, identity), sample.value, sample.timestamp_ms),
    )
}

/// The statuses after a read failed.
pub open spec fn with_read_failure(
    statuses: Map<PointIdentityView, PointStatusView>,
    identity: PointIdentityView,
    error: Seq<char>,
) -> Map<PointIdentityView, PointStatusView> {
    statuses.insert(
        identity,
        status_after_read_failure(status_in(statuses, identity), error),
    )
}

/// The statuses after a publication.
pub open spec fn with_publication(
    statuses: Map<PointIdentityView, PointStatusView>,
    identity: PointIdentityView,
    error: Option<Seq<char>>,
) -> Map<PointIdentityView, PointStatusView> {
    statuses.insert(identity, status_after_publish(status_in(statuses, identity), error))
}

/// The identities of stale points.
pub open spec fn stale_identities(
    statuses: Map<PointIdentityView, PointStatusView>,
) -> Set<PointIdentityView> {
    statuses.dom().filter(|identity: PointIdentityView| statuses[identity].stale)
}

proof fn lemma_status_map(entries: Seq<(PointIdentityView, PointStatusView)>)
    requires
        no_duplicates(entries),
    ensures
        status_map(entries).dom().finite(),
        status_map(entries).dom().len() == entries.len(),
        forall|i: int|
            #![trigger entries[i]]
            0 <= i < entries.len() ==> status_map(entries).contains_key(entries[i].0)
                && status_map(entries)[entries[i].0] == entries[i].1,
        forall|identity: PointIdentityView|
            #![trigger status_map(entries).contains_key(identity)]
            status_map(entries).contains_key(identity) ==> exists|i: int|
                0 <= i < entries.len() && (#[trigger] entries[i]).0 == identity,
    decreases entries.len(),
{
    if entries.len() > 0 {
        let shorter = entries.drop_last();
        assert(forall|i: int| 0 <= i < shorter.len() ==> shorter[i] == entries[i]);
        lemma_status_map(shorter);
        let last = entries[entries.len() - 1];
        assert(!status_map(shorter).contains_key(last.0)) by {
            if status_map(shorter).contains_key(last.0) {
                let i = choose|i: int| 0 <= i < shorter.len() && (#[trigger] shorter[i]).0 == last.0;
                assert(entries[i].0 == last.0);
            }
        }
        assert forall|identity: PointIdentityView| #[trigger] status_map(entries).contains_key(
            identity,
        ) implies exists|i: int| 0 <= i < entries.len() && (#[trigger] entries[i]).0 == identity by {
            if identity == last.0 {
                assert(entries[entries.len() - 1].0 == identity);
            } else {
                assert(status_map(shorter).contains_key(identity));
                let i = choose|i: int| 0 <= i < shorter.len() && (#[trigger] shorter[i]).0
                    == identity;
                assert(entries[i].0 == identity);
            }
        }
        assert forall|i: int|
            #![trigger entries[i]]
            0 <= i < entries.len() implies status_map(entries).contains_key(entries[i].0)
            && status_map(entries)[entries[i].0] == entries[i].1 by {
            if i < shorter.len() {
                assert(shorter[i] == entries[i]);
                assert(entries[i].0 != last.0);
            }
        }
    }
}

/// Changing the status in one place is changing it in the map.
proof fn lemma_status_update(
    entries: Seq<(PointIdentityView, PointStatusView)>,
    at: int,
    status: PointStatusView,
)
    requires
        no_duplicates(entries),
        0 <= at < entries.len(),
    ensures
        no_duplicates(entries.update(at, (entries[at].0, status))),
        status_map(entries.update(at, (entries[at].0, status))) == status_map(entries).insert(
            entries[at].0,
            status,
        ),
{
    let after = entries.update(at, (entries[at].0, status));
    assert(forall|i: int| 0 <= i < after.len() ==> (#[trigger] after[i]).0 == entries[i].0);
    lemma_status_map(entries);
    lemma_status_map(after);
    let left = status_map(after);
    let right = status_map(entries).insert(entries[at].0, status);
    assert forall|identity: PointIdentityView| left.contains_key(identity)
        == right.contains_key(identity) by {
        if left.contains_key(identity) {
            let i = choose|i: int| 0 <= i < after.len() && (#[trigger] after[i]).0 == identity;
            assert(entries[i].0 == identity);
        }
        if status_map(entries).contains_key(identity) {
            let i = choose|i: int| 0 <= i < entries.len() && (#[trigger] entries[i]).0 == identity;
            assert(after[i].0 == identity);
        }
        assert(after[at].0 == entries[at].0);
    }
    assert forall|identity: PointIdentityView| left.contains_key(identity) implies left[identity]
        == right[identity] by {
        let i = choose|i: int| 0 <= i < after.len() && (#[trigger] after[i]).0 == identity;
        assert(left[after[i].0] == after[i].1);
        assert(status_map(entries)[entries[i].0] == entries[i].1);
    }
    assert(left =~= right);
}

impl StatusTable {
    pub closed spec fn well_formed(&self) -> bool {
        no_duplicates(entry_views(self.entries@))
    }

    pub fn new() -> (table: StatusTable)
        ensures
            table.well_formed(),
            table@ == Map::<PointIdentityView, PointStatusView>::empty(),
    {
        let table = StatusTable { entries: Vec::new() };
        assert(entry_views(table.entries@) =~= Seq::empty());
        table
    }

    fn find(&self, identity: &PointIdentity) -> (found: Option<usize>)
        requires
            self.well_formed(),
        ensures
            match found {
                Some(at) => at < self.entries@.len() && self.entries@[at as int].0@ == identity@
                    && self@.contains_key(identity@) && self@[identity@]
                    == self.entries@[at as int].1@,
                None => !self@.contains_key(identity@),
            },
    {
        let ghost all = entry_views(self.entries@);
        let mut i: usize = 0;
        proof {
            lemma_status_map(all);
        }
        while i < self.entries.len()
            invariant
                i <= self.entries@.len(),
                all == entry_views(self.entries@),
                no_duplicates(all),
                forall|k: int| 0 <= k < i ==> (#[trigger] all[k]).0 != identity@,
            decreases self.entries.len() - i,
        {
            if self.entries[i].0.same_as(identity) {
                proof {
                    lemma_status_map(all);
                    assert(all[i as int].0 == identity@);
                }
                return Some(i);
            }
            i += 1;
        }
        None
    }

    pub fn get(&self, identity: &PointIdentity) -> (status: Option<&PointStatus>)
        requires
            self.well_formed(),
        ensures
            match status {
                Some(found) => self@.contains_key(identity@) && self@[identity@] == found@,
                None => !self@.contains_key(identity@),
            },
    {
        match self.find(identity) {
            Some(at) => Some(&self.entries[at].1),
            None => None,
        }
    }

    /// The place of a point's status, which is made where it has none yet.
    fn place_of(&mut self, identity: &PointIdentity) -> (at: usize)
        requires
            old(self).well_formed(),
        ensures
            final(self).well_formed(),
            at < final(self).entries@.len(),
            final(self).entries@[at as int].0@ == identity@,
            final(self).entries@[at as int].1@ == status_in(old(self)@, identity@),
            final(self)@ == old(self)@.insert(identity@, status_in(old(self)@, identity@)),
    {
        let ghost all = entry_views(self.entries@);
        match self.find(identity) {
            Some(at) => {
                assert(self@ =~= self@.insert(identity@, status_in(self@, identity@)));
                at
            },
            None => {
                let at: usize = self.entries.len();
                self.entries.push((identity.clone(), PointStatus::default()));
                proof {
                    let after = entry_views(self.entries@);
                    assert(after =~= all.push((identity@, initial_status())));
                    assert(after.drop_last() =~= all);
                    lemma_status_map(all);
                    assert forall|i: int, j: int|
                        #![trigger after[i], after[j]]
                        0 <= i < j < after.len() implies after[i].0 != after[j].0 by {
                        if j < all.len() {
                            assert(all[i].0 != all[j].0);
                        } else {
                            assert(status_map(all).contains_key(all[i].0));
                        }
                    }
                }
                at
            },
        }
    }

    fn set_status(&mut self, at: usize, status: PointStatus)
        requires
            old(self).well_formed(),
            at < old(self).entries@.len(),
        ensures
            final(self).well_formed(),
            final(self)@ == old(self)@.insert(old(self).entries@[at as int].0@, status@),
    {
        let ghost all = entry_views(self.entries@);
        let identity = self.entries[at].0.clone();
        self.entries.set(at, (identity, status));
        proof {
            assert(entry_views(self.entries@) =~= all.update(at as int, (all[at as int].0, status@)));
            lemma_status_update(all, at as int, status@);
        }
    }

    pub fn record_sample(&mut self, sample: &PointSample)
        requires
            old(self).well_formed(),
        ensures
            final(self).well_formed(),
            final(self)@ == with_sample(old(self)@, sample@),
    {
        let ghost before = self@;
        let identity = PointIdentity::from_point(&sample.point);
        let at: usize = self.place_of(&identity);
        let mut status = self.entries[at].1.clone();
        status.record_sample(sample);
        self.set_status(at, status);
        assert(self@ =~= with_sample(before, sample@));
    }

    pub fn record_read_failure(&mut self, point: &PointConfig, error: &str)
        requires
            old(self).well_formed(),
        ensures
            final(self).well_formed(),
            final(self)@ == with_read_failure(old(self)@, identity_of(point@), error@),
    {
        let ghost before = self@;
        let identity = PointIdentity::from_point(point);
        let at: usize = self.place_of(&identity);
        let mut status = self.entries[at].1.clone();
        status.record_read_failure(error);
        self.set_status(at, status);
        assert(self@ =~= with_read_failure(before, identity_of(point@), error@));
    }

    /// Records a publication, which failed where there is an error.
    pub fn record_publication(&mut self, identity: &PointIdentity, error: Option<&str>)
        requires
            old(self).well_formed(),
        ensures
            final(self).well_formed(),
            final(self)@ == with_publication(
                old(self)@,
                identity@,
                match error {
                    Some(text) => Some(text@),
                    None => None,
                },
            ),
    {
        let ghost before = self@;
        let at: usize = self.place_of(identity);
        let mut status = self.entries[at].1.clone();
        match error {
            Some(text) => status.record_publish_failure(text),
            None => status.record_publish_success(),
        }
        self.set_status(at, status);
        assert(self@ =~= with_publication(
            before,
            identity@,
            match error {
                Some(text) => Some(text@),
                None => None,
            },
        ));
    }

    pub fn len(&self) -> (count: usize)
        requires
            self.well_formed(),
        ensures
            count == self@.dom().len(),
            self@.dom().finite(),
    {
        proof {
            lemma_status_map(entry_views(self.entries@));
        }
        self.entries.len()
    }

    pub fn clear(&mut self)
        ensures
            final(self).well_formed(),
            final(self)@ == Map::<PointIdentityView, PointStatusView>::empty(),
    {
        self.entries.clear();
        assert(entry_views(self.entries@) =~= Seq::empty());
    }

    /// How many points are stale.
    pub fn stale_count(&self) -> (count: usize)
        requires
            self.well_formed(),
        ensures
            count == stale_identities(self@).len(),
    {
        let ghost all = entry_views(self.entries@);
        let mut count: usize = 0;
        let mut i: usize = 0;
        proof {
            assert(all.take(0) =~= Seq::empty());
            assert(stale_identities(status_map(all.take(0))) =~= Set::empty());
        }
        while i < self.entries.len()
            invariant
                i <= self.entries@.len(),
                count <= i,
                all == entry_views(self.entries@),
                no_duplicates(all),
                count == stale_identities(status_map(all.take(i as int))).len(),
            decreases self.entries.len() - i,
        {
            proof {
                lemma_stale_step(all, i as int);
            }
            if self.entries[i].1.stale {
                count += 1;
            }
            i += 1;
        }
        assert(all.take(all.len() as int) =~= all);
        count
    }

    /// Whether a point failed to be read when it was last tried.
    pub fn any_read_error(&self) -> (result: bool)
        requires
            self.well_formed(),
        ensures
            result == exists|identity: PointIdentityView| #[trigger]
                self@.contains_key(identity) && self@[identity].last_error is Some,
    {
        let ghost all = entry_views(self.entries@);
        proof {
            lemma_status_map(all);
        }
        let mut i: usize = 0;
        while i < self.entries.len()
            invariant
                i <= self.entries@.len(),
                all == entry_views(self.entries@),
                no_duplicates(all),
                forall|k: int| 0 <= k < i ==> (#[trigger] all[k]).1.last_error is None,
            decreases self.entries.len() - i,
        {
            if self.entries[i].1.last_error.is_some() {
                proof {
                    lemma_status_map(all);
                    assert(all[i as int].1.last_error is Some);
                    assert(self@.contains_key(all[i as int].0));
                }
                return true;
            }
            assert(all[i as int].1.last_error is None);
            i += 1;
        }
        proof {
            assert forall|identity: PointIdentityView| #[trigger] self@.contains_key(
                identity,
            ) implies self@[identity].last_error is None by {
                let k = choose|k: int| 0 <= k < all.len() && (#[trigger] all[k]).0 == identity;
                assert(self@[all[k].0] == all[k].1);
            }
        }
        false
    }

    /// Whether a point is stale or failed to be published when it was last tried.
    pub fn any_stale_or_unpublished(&self) -> (result: bool)
        requires
            self.well_formed(),
        ensures
            result == exists|identity: PointIdentityView| #[trigger]
                self@.contains_key(identity) && (self@[identity].stale
                    || self@[identity].last_publish_error is Some),
    {
        let ghost all = entry_views(self.entries@);
        proof {
            lemma_status_map(all);
        }
        let mut i: usize = 0;
        while i < self.entries.len()
            invariant
                i <= self.entries@.len(),
                all == entry_views(self.entries@),
                no_duplicates(all),
                forall|k: int|
                    0 <= k < i ==> !(#[trigger] all[k]).1.stale && all[k].1.last_publish_error
                        is None,
            decreases self.entries.len() - i,
        {
            if self.entries[i].1.stale || self.entries[i].1.last_publish_error.is_some() {
                proof {
                    lemma_status_map(all);
                    assert(all[i as int].1.stale || all[i as int].1.last_publish_error is Some);
                    assert(self@.contains_key(all[i as int].0));
                }
                return true;
            }
            assert(!all[i as int].1.stale && all[i as int].1.last_publish_error is None);
            i += 1;
        }
        proof {
            assert forall|identity: PointIdentityView| #[trigger] self@.contains_key(
                identity,
            ) implies !self@[identity].stale && self@[identity].last_publish_error is None by {
                let k = choose|k: int| 0 <= k < all.len() && (#[trigger] all[k]).0 == identity;
                assert(self@[all[k].0] == all[k].1);
            }
        }
        false
    }
}

proof fn lemma_stale_step(entries: Seq<(PointIdentityView, PointStatusView)>, count: int)
    requires
        no_duplicates(entries),
        0 <= count < entries.len(),
    ensures
        stale_identities(status_map(entries.take(count + 1))).len() == stale_identities(
            status_map(entries.take(count)),
        ).len() + if entries[count].1.stale {
            1nat
        } else {
            0
        },
{
    let shorter = entries.take(count);
    let longer = entries.take(count + 1);
    assert(longer.drop_last() =~= shorter);
    assert(forall|i: int| 0 <= i < shorter.len() ==> shorter[i] == entries[i]);
    assert(forall|i: int| 0 <= i < longer.len() ==> longer[i] == entries[i]);
    lemma_status_map(shorter);
    lemma_status_map(longer);
    let last = entries[count];
    assert(longer.last() == last);
    let before = status_map(shorter);
    let after = status_map(longer);
    assert(!before.contains_key(last.0)) by {
        if before.contains_key(last.0) {
            let i = choose|i: int| 0 <= i < shorter.len() && (#[trigger] shorter[i]).0 == last.0;
            assert(entries[i].0 == last.0);
        }
    }
    assert(after =~= before.insert(last.0, last.1));
    before.dom().lemma_len_filter(|identity: PointIdentityView| before[identity].stale);
    if last.1.stale {
        assert(stale_identities(after) =~= stale_identities(before).insert(last.0));
    } else {
        assert(stale_identities(after) =~= stale_identities(before));
    }
}

/// Recording something of one point leaves the statuses of all others as they were.
pub proof fn law_points_are_independent(
    statuses: Map<PointIdentityView, PointStatusView>,
    sample: PointSampleView,
    identity: PointIdentityView,
    error: Seq<char>,
    other: PointIdentityView,
)
    requires
        other != identity,
        other != identity_of(sample.point),
    ensures
        status_in(with_sample(statuses, sample), other) == status_in(statuses, other),
        status_in(with_read_failure(statuses, identity, error), other) == status_in(
            statuses,
            other,
        ),
        status_in(with_publication(statuses, identity, Some(error)), other) == status_in(
            statuses,
            other,
        ),
{
}

} // verus!
