//! The whole of a poll: what is planned, read from each device and put together again.

use vstd::prelude::*;

use crate::bacnet::poll::{
    collated, failed_points, fallback_invariant, group_after_multiple, group_after_single,
    group_next, group_reply_error, group_start,
    law_fallback_accounts_for_every_request, law_plan_accounts_for_every_point,
    law_plan_groups_by_device, law_uncancelled_fallback_is_complete,
    law_usable_reply_answers_every_request, lemma_group_at, lemma_reply_places, plan_invariant,
    poll_plan, reply_values, request_of, requested_points, sampled_points, DeviceGroupView,
    GroupAction, GroupPollView, GroupResultView, PollPlanView, ReadResultView,
};
use crate::model::{PointConfigView, PointFailureView};

verus! {

/// What a device replied while it was read without being cancelled: to the request for all
/// properties and, where that cannot be used, to each request; and when the replies came.
pub struct GroupReplies {
    pub all: Result<Seq<ReadResultView>, Seq<char>>,
    pub times: Seq<i64>,
    pub single: Seq<Result<Seq<u8>, Seq<char>>>,
    pub single_times: Seq<i64>,
}

/// The state after single requests were replied to, from first to last.
pub open spec fn read_singly(
    state: GroupPollView,
    prefix: Seq<char>,
    replies: Seq<Result<Seq<u8>, Seq<char>>>,
    times: Seq<i64>,
) -> GroupPollView
    decreases replies.len(),
{
    if replies.len() == 0 {
        state
    } else {
        group_after_single(
            read_singly(state, prefix, replies.drop_last(), times.drop_last()),
            prefix,
            replies.last(),
            times.last(),
        )
    }
}

/// The state in which a device has been read without being cancelled.
pub open spec fn group_read(
    group: DeviceGroupView,
    prefix: Seq<char>,
    replies: GroupReplies,
) -> GroupPollView {
    let first = group_after_multiple(group_start(group), prefix, replies.all, replies.times);
    match group_reply_error(group.requests, replies.all) {
        None => first,
        Some(_) => read_singly(first, prefix, replies.single, replies.single_times),
    }
}

proof fn lemma_read_singly(
    group: DeviceGroupView,
    prefix: Seq<char>,
    replies: GroupReplies,
    count: int,
)
    requires
        group_reply_error(group.requests, replies.all) is Some,
        replies.single.len() == group.requests.len() <= usize::MAX,
        replies.single_times.len() == group.requests.len(),
        0 <= count <= group.requests.len(),
    ensures
        ({
            let first = group_after_multiple(
                group_start(group),
                prefix,
                replies.all,
                replies.times,
            );
            let state = read_singly(
                first,
                prefix,
                replies.single.take(count),
                replies.single_times.take(count),
            );
            &&& state.next == count
            &&& state.requests == group.requests
            &&& fallback_invariant(state)
        }),
    decreases count,
{
    broadcast use vstd::seq_lib::group_to_multiset_ensures;

    let first = group_after_multiple(group_start(group), prefix, replies.all, replies.times);
    if count == 0 {
        let empty = Seq::<PointConfigView>::empty();
        assert(replies.single.take(0).len() == 0);
        assert(sampled_points(first.result.samples) =~= empty);
        assert(failed_points(first.result.failures) =~= empty);
        assert(requested_points(first.requests).take(0) =~= empty);
        assert(empty.to_multiset().add(empty.to_multiset()) =~= empty.to_multiset());
    } else {
        lemma_read_singly(group, prefix, replies, count - 1);
        let before = read_singly(
            first,
            prefix,
            replies.single.take(count - 1),
            replies.single_times.take(count - 1),
        );
        assert(replies.single.take(count).drop_last() =~= replies.single.take(count - 1));
        assert(replies.single_times.take(count).drop_last() =~= replies.single_times.take(
            count - 1,
        ));
        law_fallback_accounts_for_every_request(
            group,
            before,
            prefix,
            replies.all,
            replies.times,
            replies.single[count - 1],
            replies.single_times[count - 1],
        );
    }
}

/// Where the request for all properties has failed and nothing is cancelled, the properties are asked
/// for one by one, each once and in order, and then the device has been read.
pub proof fn law_fallback_asks_in_order(
    group: DeviceGroupView,
    prefix: Seq<char>,
    replies: GroupReplies,
    count: int,
)
    requires
        group_reply_error(group.requests, replies.all) is Some,
        replies.single.len() == group.requests.len() <= usize::MAX,
        replies.single_times.len() == group.requests.len(),
        0 <= count <= group.requests.len(),
    ensures
        ({
            let first = group_after_multiple(
                group_start(group),
                prefix,
                replies.all,
                replies.times,
            );
            let state = read_singly(
                first,
                prefix,
                replies.single.take(count),
                replies.single_times.take(count),
            );
            if count < group.requests.len() {
                group_next(state, false) == GroupAction::ReadOne(count as usize)
            } else {
                group_next(state, false) == GroupAction::Finish && state == group_read(
                    group,
                    prefix,
                    replies,
                )
            }
        }),
{
    lemma_read_singly(group, prefix, replies, count);
    if count == group.requests.len() {
        assert(replies.single.take(count) =~= replies.single);
        assert(replies.single_times.take(count) =~= replies.single_times);
    }
}

/// The samples and failures of a device that was read without being cancelled are of the requested
/// points: of each there is one or the other and, where no point was
/// requested twice, never both.
proof fn lemma_group_read(group: DeviceGroupView, prefix: Seq<char>, replies: GroupReplies)
    requires
        replies.single.len() == group.requests.len() <= usize::MAX,
        replies.single_times.len() == group.requests.len(),
        requested_points(group.requests).no_duplicates(),
    ensures
        ({
            let state = group_read(group, prefix, replies);
            let asked = requested_points(group.requests);
            let sampled = sampled_points(state.result.samples);
            let failed = failed_points(state.result.failures);
            &&& forall|point: PointConfigView|
                asked.contains(point) ==> (#[trigger] sampled.contains(point)
                    <==> !failed.contains(point))
            &&& forall|point: PointConfigView| #[trigger]
                sampled.contains(point) ==> asked.contains(point)
            &&& forall|point: PointConfigView| #[trigger]
                failed.contains(point) ==> asked.contains(point)
        }),
{
    let state = group_read(group, prefix, replies);
    let asked = requested_points(group.requests);
    let sampled = sampled_points(state.result.samples);
    let failed = failed_points(state.result.failures);
    match group_reply_error(group.requests, replies.all) {
        None => {
            let results = replies.all->Ok_0;
            let values = reply_values(group.requests, results)->Ok_0;
            lemma_reply_places(group.requests, results);
            assert forall|point: PointConfigView| asked.contains(point) implies
                #[trigger] sampled.contains(point) by {
                let place = choose|place: int|
                    0 <= place < asked.len() && asked[place] == point;
                law_usable_reply_answers_every_request(group.requests, results, place);
                let i = choose|i: int|
                    0 <= i < values.len() && (#[trigger] values[i]).0 == place;
                assert(sampled[i] == point);
            }
            assert forall|point: PointConfigView| #[trigger]
                sampled.contains(point) implies asked.contains(point) by {
                let i = choose|i: int| 0 <= i < sampled.len() && sampled[i] == point;
                assert(0 <= values[i].0 < group.requests.len());
                assert(asked[values[i].0] == point);
            }
            assert(failed.len() == 0);
        },
        Some(_) => {
            broadcast use vstd::seq_lib::group_to_multiset_ensures;

            let count = group.requests.len() as int;
            lemma_read_singly(group, prefix, replies, count);
            assert(replies.single.take(count) =~= replies.single);
            assert(replies.single_times.take(count) =~= replies.single_times);
            law_uncancelled_fallback_is_complete(state);
            asked.lemma_multiset_has_no_duplicates();
            let total = sampled.to_multiset().add(failed.to_multiset());
            assert(total == asked.to_multiset());
            assert forall|point: PointConfigView| asked.contains(point) implies
                (#[trigger] sampled.contains(point) <==> !failed.contains(point)) by {
                assert(asked.to_multiset().contains(point));
                assert(total.count(point) == 1);
                assert(sampled.to_multiset().count(point) + failed.to_multiset().count(point)
                    == 1);
                assert(sampled.contains(point) <==> sampled.to_multiset().count(point) > 0);
                assert(failed.contains(point) <==> failed.to_multiset().count(point) > 0);
            }
            assert forall|point: PointConfigView| #[trigger]
                sampled.contains(point) implies asked.contains(point) by {
                assert(sampled.to_multiset().count(point) > 0);
                assert(total.count(point) > 0);
            }
            assert forall|point: PointConfigView| #[trigger]
                failed.contains(point) implies asked.contains(point) by {
                assert(failed.to_multiset().count(point) > 0);
                assert(total.count(point) > 0);
            }
        },
    }
}

/// What a plan for distinct points asks for: only those points, and none of them twice; and those
/// that cannot be asked for are among its failures.
proof fn lemma_plan_points(points: Seq<PointConfigView>)
    requires
        points.no_duplicates(),
    ensures
        ({
            let plan = poll_plan(points);
            &&& forall|i: int|
                0 <= i < plan.groups.len() ==> requested_points(
                    (#[trigger] plan.groups[i]).requests,
                ).no_duplicates()
            &&& forall|i: int, k: int|
                #![trigger plan.groups[i].requests[k]]
                0 <= i < plan.groups.len() && 0 <= k < plan.groups[i].requests.len()
                    ==> points.contains(plan.groups[i].requests[k].point)
            &&& forall|i: int|
                0 <= i < plan.failures.len() ==> {
                    let point = (#[trigger] plan.failures[i]).point;
                    points.contains(point) && point.enabled && request_of(point) is Err
                }
        }),
    decreases points.len(),
{
    if points.len() > 0 {
        let shorter = points.drop_last();
        let point = points[points.len() - 1];
        let before = poll_plan(shorter);
        let after = poll_plan(points);
        lemma_plan_points(shorter);
        assert(points.contains(point));
        assert(!shorter.contains(point)) by {
            if shorter.contains(point) {
                let k = choose|k: int| 0 <= k < shorter.len() && shorter[k] == point;
                assert(points[k] == points[points.len() - 1]);
            }
        }
        assert forall|other: PointConfigView| #[trigger] shorter.contains(other) implies
            points.contains(other) by {
            let k = choose|k: int| 0 <= k < shorter.len() && shorter[k] == other;
            assert(points[k] == other);
        }
        if point.enabled && request_of(point) is Ok {
            let request = request_of(point)->Ok_0;
            assert(request.point == point);
            lemma_group_at(before.groups, point.device_instance);
            assert forall|i: int, k: int|
                #![trigger after.groups[i].requests[k]]
                0 <= i < after.groups.len() && 0 <= k < after.groups[i].requests.len() implies
                points.contains(after.groups[i].requests[k].point) by {
                if i < before.groups.len() && k < before.groups[i].requests.len() {
                    assert(after.groups[i].requests[k] == before.groups[i].requests[k]);
                    assert(shorter.contains(before.groups[i].requests[k].point));
                }
            }
            assert forall|i: int| 0 <= i < after.groups.len() implies requested_points(
                (#[trigger] after.groups[i]).requests,
            ).no_duplicates() by {
                let asked = requested_points(after.groups[i].requests);
                if i < before.groups.len() {
                    let asked_before = requested_points(before.groups[i].requests);
                    assert(requested_points(before.groups[i].requests).no_duplicates());
                    if after.groups[i] != before.groups[i] {
                        assert(asked =~= asked_before.push(point));
                        assert forall|a: int, b: int|
                            0 <= a < asked.len() && 0 <= b < asked.len() && a != b implies asked[a]
                            != asked[b] by {
                            let small = if a < b {
                                a
                            } else {
                                b
                            };
                            assert(shorter.contains(before.groups[i].requests[small].point));
                        }
                    }
                }
            }
        } else if point.enabled {
            assert forall|i: int| 0 <= i < after.failures.len() implies {
                let failed = (#[trigger] after.failures[i]).point;
                points.contains(failed) && failed.enabled && request_of(failed) is Err
            } by {
                if i < before.failures.len() {
                    assert(after.failures[i] == before.failures[i]);
                    assert(shorter.contains(before.failures[i].point));
                }
            }
        } else {
            assert(after == before);
        }
    }
}

/// The samples and failures of a poll are those of its devices, and the failures of its plan.
proof fn lemma_collated_points(failures: Seq<PointFailureView>, groups: Seq<GroupResultView>)
    ensures
        forall|point: PointConfigView| #[trigger]
            sampled_points(collated(failures, groups).samples).contains(point) <==> exists|i: int|
                0 <= i < groups.len() && sampled_points(
                    (#[trigger] groups[i]).samples,
                ).contains(point),
        forall|point: PointConfigView| #[trigger]
            failed_points(collated(failures, groups).failures).contains(point) <==> (failed_points(
                failures,
            ).contains(point) || exists|i: int|
                0 <= i < groups.len() && failed_points(
                    (#[trigger] groups[i]).failures,
                ).contains(point)),
    decreases groups.len(),
{
    if groups.len() > 0 {
        let shorter = groups.drop_last();
        let last = groups[groups.len() - 1];
        let before = collated(failures, shorter);
        let after = collated(failures, groups);
        lemma_collated_points(failures, shorter);
        assert(sampled_points(after.samples) =~= sampled_points(before.samples) + sampled_points(
            last.samples,
        ));
        assert(failed_points(after.failures) =~= failed_points(before.failures) + failed_points(
            last.failures,
        ));
        assert forall|point: PointConfigView| #[trigger]
            sampled_points(after.samples).contains(point) <==> exists|i: int|
            0 <= i < groups.len() && sampled_points((#[trigger] groups[i]).samples).contains(
                point,
            ) by {
            lemma_contains_concat(
                sampled_points(before.samples),
                sampled_points(last.samples),
                point,
            );
            if exists|i: int|
                0 <= i < groups.len() && sampled_points((#[trigger] groups[i]).samples).contains(
                    point,
                ) {
                let i = choose|i: int|
                    0 <= i < groups.len() && sampled_points(
                        (#[trigger] groups[i]).samples,
                    ).contains(point);
                if i < shorter.len() {
                    assert(shorter[i] == groups[i]);
                }
            }
            if sampled_points(before.samples).contains(point) {
                let i = choose|i: int|
                    0 <= i < shorter.len() && sampled_points(
                        (#[trigger] shorter[i]).samples,
                    ).contains(point);
                assert(groups[i] == shorter[i]);
            }
        }
        assert forall|point: PointConfigView| #[trigger]
            failed_points(after.failures).contains(point) <==> (failed_points(failures).contains(
            point,
        ) || exists|i: int|
            0 <= i < groups.len() && failed_points((#[trigger] groups[i]).failures).contains(
                point,
            )) by {
            lemma_contains_concat(
                failed_points(before.failures),
                failed_points(last.failures),
                point,
            );
            if exists|i: int|
                0 <= i < groups.len() && failed_points((#[trigger] groups[i]).failures).contains(
                    point,
                ) {
                let i = choose|i: int|
                    0 <= i < groups.len() && failed_points(
                        (#[trigger] groups[i]).failures,
                    ).contains(point);
                if i < shorter.len() {
                    assert(shorter[i] == groups[i]);
                }
            }
            if failed_points(before.failures).contains(point) && !failed_points(
                failures,
            ).contains(point) {
                let i = choose|i: int|
                    0 <= i < shorter.len() && failed_points(
                        (#[trigger] shorter[i]).failures,
                    ).contains(point);
                assert(groups[i] == shorter[i]);
            }
        }
    }
}

proof fn lemma_contains_concat<T>(left: Seq<T>, right: Seq<T>, item: T)
    ensures
        (left + right).contains(item) <==> left.contains(item) || right.contains(item),
{
    let all = left + right;
    if left.contains(item) {
        let i = choose|i: int| 0 <= i < left.len() && left[i] == item;
        assert(all[i] == item);
    }
    if right.contains(item) {
        let i = choose|i: int| 0 <= i < right.len() && right[i] == item;
        assert(all[left.len() + i] == item);
    }
}

/// Whether these are the groups of a plan, in the order in which they were read, with what each
/// device replied.
pub open spec fn all_read(
    plan: PollPlanView,
    read: Seq<DeviceGroupView>,
    replies: Seq<GroupReplies>,
) -> bool {
    &&& read.to_multiset() == plan.groups.to_multiset()
    &&& replies.len() == read.len()
    &&& forall|i: int|
        0 <= i < read.len() ==> {
            &&& (#[trigger] replies[i]).single.len() == read[i].requests.len() <= usize::MAX
            &&& replies[i].single_times.len() == read[i].requests.len()
        }
}

/// What the groups of a plan gave.
pub open spec fn group_results(
    read: Seq<DeviceGroupView>,
    prefix: Seq<char>,
    replies: Seq<GroupReplies>,
) -> Seq<GroupResultView> {
    Seq::new(read.len(), |i: int| group_read(read[i], prefix, replies[i]).result)
}

proof fn lemma_read_is_planned(plan: PollPlanView, read: Seq<DeviceGroupView>, i: int)
    requires
        read.to_multiset() == plan.groups.to_multiset(),
        0 <= i < read.len(),
    ensures
        plan.groups.contains(read[i]),
{
    broadcast use vstd::seq_lib::group_to_multiset_ensures;

    assert(read.contains(read[i]));
    assert(read.to_multiset().count(read[i]) > 0);
}

proof fn lemma_planned_is_read(plan: PollPlanView, read: Seq<DeviceGroupView>, g: int) -> (i: int)
    requires
        read.to_multiset() == plan.groups.to_multiset(),
        0 <= g < plan.groups.len(),
    ensures
        0 <= i < read.len(),
        read[i] == plan.groups[g],
{
    broadcast use vstd::seq_lib::group_to_multiset_ensures;

    assert(plan.groups.contains(plan.groups[g]));
    assert(plan.groups.to_multiset().count(plan.groups[g]) > 0);
    assert(read.contains(plan.groups[g]));
    choose|i: int| 0 <= i < read.len() && read[i] == plan.groups[g]
}

/// No device is read twice.
proof fn lemma_same_device(plan: PollPlanView, read: Seq<DeviceGroupView>, i: int, j: int)
    requires
        plan_invariant(plan),
        read.to_multiset() == plan.groups.to_multiset(),
        0 <= i < read.len(),
        0 <= j < read.len(),
        read[i].device_instance == read[j].device_instance,
    ensures
        i == j,
{
    assert(plan.groups.no_duplicates()) by {
        assert forall|i: int, j: int|
            0 <= i < plan.groups.len() && 0 <= j < plan.groups.len() && i != j implies
            plan.groups[i] != plan.groups[j] by {
            if i < j {
                assert(plan.groups[i].device_instance != plan.groups[j].device_instance);
            } else {
                assert(plan.groups[j].device_instance != plan.groups[i].device_instance);
            }
        }
    }
    plan.groups.lemma_multiset_has_no_duplicates();
    read.lemma_multiset_has_no_duplicates_conv();
    lemma_read_is_planned(plan, read, i);
    lemma_read_is_planned(plan, read, j);
    let a = choose|a: int| 0 <= a < plan.groups.len() && plan.groups[a] == read[i];
    let b = choose|b: int| 0 <= b < plan.groups.len() && plan.groups[b] == read[j];
    if a < b {
        assert(plan.groups[a].device_instance != plan.groups[b].device_instance);
    } else if b < a {
        assert(plan.groups[b].device_instance != plan.groups[a].device_instance);
    }
}

/// A device that was read gave a sample or a failure of a point, and not both, exactly where the
/// point was asked for, which is then enabled and on that device.
proof fn lemma_read_point(
    points: Seq<PointConfigView>,
    prefix: Seq<char>,
    read: Seq<DeviceGroupView>,
    replies: Seq<GroupReplies>,
    i: int,
    point: PointConfigView,
)
    requires
        points.no_duplicates(),
        all_read(poll_plan(points), read, replies),
        0 <= i < read.len(),
    ensures
        ({
            let result = group_results(read, prefix, replies)[i];
            let sampled = sampled_points(result.samples).contains(point);
            let failed = failed_points(result.failures).contains(point);
            if requested_points(read[i].requests).contains(point) {
                &&& sampled != failed
                &&& points.contains(point)
                &&& point.enabled
                &&& request_of(point) is Ok
                &&& read[i].device_instance == point.device_instance
            } else {
                !sampled && !failed
            }
        }),
{
    let plan = poll_plan(points);
    law_plan_groups_by_device(points);
    lemma_plan_points(points);
    lemma_read_is_planned(plan, read, i);
    let g = choose|g: int| 0 <= g < plan.groups.len() && plan.groups[g] == read[i];
    assert(requested_points(plan.groups[g].requests).no_duplicates());
    assert(replies[i].single.len() == read[i].requests.len());
    lemma_group_read(read[i], prefix, replies[i]);
    let asked = requested_points(read[i].requests);
    let result = group_read(read[i], prefix, replies[i]).result;
    assert(group_results(read, prefix, replies)[i] == result);
    assert(sampled_points(result.samples).contains(point) ==> asked.contains(point));
    assert(failed_points(result.failures).contains(point) ==> asked.contains(point));
    if asked.contains(point) {
        let k = choose|k: int| 0 <= k < asked.len() && asked[k] == point;
        assert(plan.groups[g].requests[k].point == point);
    }
}

/// A poll of distinct points that is not cancelled accounts for all of them, whatever the devices
/// reply and in whatever order they are done: each enabled point is that of a sample or of a
/// failure and never of both, and no other point is that of either.
pub proof fn law_poll_accounts_for_every_point(
    points: Seq<PointConfigView>,
    prefix: Seq<char>,
    read: Seq<DeviceGroupView>,
    replies: Seq<GroupReplies>,
    point: PointConfigView,
)
    requires
        points.no_duplicates(),
        all_read(poll_plan(points), read, replies),
    ensures
        ({
            let outcome = collated(
                poll_plan(points).failures,
                group_results(read, prefix, replies),
            );
            let sampled = sampled_points(outcome.samples).contains(point);
            let failed = failed_points(outcome.failures).contains(point);
            if points.contains(point) && point.enabled {
                sampled != failed
            } else {
                !sampled && !failed
            }
        }),
{
    let plan = poll_plan(points);
    let results = group_results(read, prefix, replies);
    law_plan_groups_by_device(points);
    lemma_plan_points(points);
    lemma_collated_points(plan.failures, results);
    let unread = failed_points(plan.failures).contains(point);
    if unread {
        let k = choose|k: int|
            0 <= k < plan.failures.len() && failed_points(plan.failures)[k] == point;
        assert(plan.failures[k].point == point);
    }
    assert forall|i: int| 0 <= i < results.len() implies (sampled_points(
        (#[trigger] results[i]).samples,
    ).contains(point) || failed_points(results[i].failures).contains(point)) == requested_points(
        read[i].requests,
    ).contains(point) by {
        lemma_read_point(points, prefix, read, replies, i, point);
    }
    if exists|i: int|
        0 <= i < read.len() && requested_points((#[trigger] read[i]).requests).contains(point) {
        let i = choose|i: int|
            0 <= i < read.len() && requested_points((#[trigger] read[i]).requests).contains(point);
        lemma_read_point(points, prefix, read, replies, i, point);
        assert forall|j: int| 0 <= j < results.len() && j != i implies !sampled_points(
            (#[trigger] results[j]).samples,
        ).contains(point) && !failed_points(results[j].failures).contains(point) by {
            lemma_read_point(points, prefix, read, replies, j, point);
            if requested_points(read[j].requests).contains(point) {
                lemma_same_device(plan, read, i, j);
            }
        }
        let one = results[i];
        assert(sampled_points(one.samples).contains(point) || failed_points(
            one.failures,
        ).contains(point));
    } else if points.contains(point) && point.enabled {
        let at = choose|at: int| 0 <= at < points.len() && points[at] == point;
        law_plan_accounts_for_every_point(points, at);
        match request_of(point) {
            Ok(request) => {
                let (g, k) = choose|g: int, k: int|
                    #![trigger plan.groups[g].requests[k]]
                    0 <= g < plan.groups.len() && 0 <= k < plan.groups[g].requests.len()
                        && plan.groups[g].device_instance == point.device_instance
                        && plan.groups[g].requests[k] == request;
                let i = lemma_planned_is_read(plan, read, g);
                assert(requested_points(read[i].requests)[k] == point);
            },
            Err(error) => {
                let failure = PointFailureView { point, error };
                let k = choose|k: int|
                    0 <= k < plan.failures.len() && plan.failures[k] == failure;
                assert(failed_points(plan.failures)[k] == point);
            },
        }
    }
}

} // verus!
