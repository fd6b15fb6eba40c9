//! What is asked of devices when points are read, and what comes of the replies.

use vstd::prelude::*;

use crate::bacnet::poll::{
    answered, answered_places, collated, completed, enabled_of, group_after_multiple,
    group_after_single, group_at, group_next, group_start, law_usable_reply_answers_every_request,
    poll_plan, reply_error, reply_values, request_of, sample_of, samples_of, split_by_device,
    DeviceGroupView, GroupAction, GroupPollView, GroupResultView, PollRequestView, ReadResultView,
};
use crate::model::{PointConfigView, PointFailureView, PollOutcomeView, TelemetryValueView};
use crate::numerals::decimal;
use crate::topic::point_topic;
use crate::value::{
    lemma_decimal_spelling, property_of_text, scalar_of, type_of_text, ObjectType,
    PropertyIdentifier,
};

verus! {

/// An object type and a property may be given by their numbers.
pub proof fn law_numbers_name_types_and_properties(number: u32)
    ensures
        type_of_text(decimal(number as nat)) == Some(ObjectType(number)),
        property_of_text(decimal(number as nat)) == Some(PropertyIdentifier(number)),
{
    lemma_decimal_spelling(number as nat);
    crate::numerals::law_decimal_reads_back(number as nat, u32::MAX as nat);
}

/// A point asks for its own object and property: the instance is the point's, the type and the
/// property are those that its texts name.
pub proof fn law_points_ask_for_their_objects(point: PointConfigView)
    ensures
        request_of(point) is Ok <==> type_of_text(point.object_type) is Some && property_of_text(
            point.property,
        ) is Some && point.object_instance <= 4194303,
        request_of(point) is Ok ==> {
            let request = request_of(point)->Ok_0;
            &&& request.point == point
            &&& request.object_identifier.instance == point.object_instance
            &&& Some(request.object_identifier.object_type) == type_of_text(point.object_type)
            &&& Some(request.property_identifier) == property_of_text(point.property)
        },
        type_of_text(point.object_type) is None ==> request_of(point)->Err_0
            == "unknown BACnet object type '"@ + point.object_type + "'"@,
        type_of_text(point.object_type) is Some && property_of_text(point.property) is None
            ==> request_of(point)->Err_0 == "unknown BACnet property '"@ + point.property + "'"@,
        type_of_text(point.object_type) is Some && property_of_text(point.property) is Some
            && point.object_instance > 4194303 ==> request_of(point)->Err_0
            == "invalid object identifier"@,
{
}

/// Points are planned one by one: one that is not enabled is left out; one that cannot be asked for
/// fails; any other joins the requests to its device, behind those that are there, or starts a new
/// list behind all others where its device has none.
pub proof fn law_points_are_planned_in_order(
    points: Seq<PointConfigView>,
    point: PointConfigView,
    at: int,
)
    ensures
        poll_plan(Seq::empty()).groups.len() == 0,
        poll_plan(Seq::empty()).failures.len() == 0,
        ({
            let before = poll_plan(points);
            let after = poll_plan(points.push(point));
            &&& !point.enabled ==> after == before
            &&& point.enabled && request_of(point) is Err ==> {
                &&& after.groups == before.groups
                &&& after.failures == before.failures.push(
                    PointFailureView { point, error: request_of(point)->Err_0 },
                )
            }
            &&& point.enabled && request_of(point) is Ok ==> {
                &&& after.failures == before.failures
                &&& (forall|i: int|
                    0 <= i < before.groups.len() ==> (#[trigger] before.groups[i]).device_instance
                        != point.device_instance) ==> after.groups == before.groups.push(
                    DeviceGroupView {
                        device_instance: point.device_instance,
                        requests: seq![request_of(point)->Ok_0],
                    },
                )
                &&& 0 <= at < before.groups.len() && before.groups[at].device_instance
                    == point.device_instance && (forall|i: int|
                    0 <= i < at ==> (#[trigger] before.groups[i]).device_instance
                        != point.device_instance) ==> {
                    &&& after.groups.len() == before.groups.len()
                    &&& after.groups[at].device_instance == point.device_instance
                    &&& after.groups[at].requests == before.groups[at].requests.push(
                        request_of(point)->Ok_0,
                    )
                    &&& forall|i: int|
                        0 <= i < before.groups.len() && i != at ==> #[trigger] after.groups[i]
                            == before.groups[i]
                }
            }
        }),
{
    assert(points.push(point).drop_last() =~= points);
    lemma_group_at(poll_plan(points).groups, point.device_instance, at);
}

proof fn lemma_group_at(groups: Seq<DeviceGroupView>, device: u32, at: int)
    ensures
        (forall|i: int|
            0 <= i < groups.len() ==> (#[trigger] groups[i]).device_instance != device) ==> group_at(
            groups,
            device,
        ) is None,
        0 <= at < groups.len() && groups[at].device_instance == device && (forall|i: int|
            0 <= i < at ==> (#[trigger] groups[i]).device_instance != device) ==> group_at(
            groups,
            device,
        ) == Some(at),
    decreases groups.len(),
{
    if groups.len() > 0 {
        let before = groups.drop_last();
        assert forall|i: int| 0 <= i < before.len() implies #[trigger] before[i] == groups[i] by {}
        lemma_group_at(before, device, at);
        assert(groups[groups.len() - 1] == groups.last());
        if forall|i: int|
            0 <= i < groups.len() ==> (#[trigger] groups[i]).device_instance != device {
            assert forall|i: int| 0 <= i < before.len() implies (
            #[trigger] before[i]).device_instance != device by {
                assert(before[i] == groups[i]);
            }
        }
        if 0 <= at < groups.len() && groups[at].device_instance == device && (forall|i: int|
            0 <= i < at ==> (#[trigger] groups[i]).device_instance != device) {
            assert forall|i: int| 0 <= i < at && i < before.len() implies (
            #[trigger] before[i]).device_instance != device by {
                assert(before[i] == groups[i]);
            }
            if at < before.len() {
                assert(before[at] == groups[at]);
            }
        }
    }
}

/// A value in a reply belongs to the first request for the same object and the same property. A
/// result without a value, or that was not asked for, counts for nothing; one that cannot be decoded
/// spoils the reply.
pub proof fn law_values_belong_to_their_requests(
    requests: Seq<PollRequestView>,
    results: Seq<ReadResultView>,
    result: ReadResultView,
    at: int,
)
    requires
        reply_values(requests, results) is Ok,
    ensures
        ({
            let before = reply_values(requests, results)->Ok_0;
            let after = reply_values(requests, results.push(result));
            let asked = 0 <= at < requests.len() && is_for(requests[at], result) && forall|i: int|
                0 <= i < at ==> !is_for(#[trigger] requests[i], result);
            let unasked = forall|i: int|
                0 <= i < requests.len() ==> !is_for(#[trigger] requests[i], result);
            &&& result.value is None || unasked ==> after == Ok::<
                Seq<(int, TelemetryValueView)>,
                Seq<char>,
            >(before)
            &&& asked && result.value is Some && scalar_of(result.value->Some_0) is Ok ==> after
                == Ok::<Seq<(int, TelemetryValueView)>, Seq<char>>(
                before.push((at, scalar_of(result.value->Some_0)->Ok_0)),
            )
            &&& asked && result.value is Some && scalar_of(result.value->Some_0) is Err ==> after
                is Err
        }),
{
    assert(results.push(result).drop_last() =~= results);
    lemma_answered_at(requests, result, at);
}

/// Whether a result is one for a request.
pub open spec fn is_for(request: PollRequestView, result: ReadResultView) -> bool {
    &&& request.object_identifier.object_type == result.object_identifier.object_type
    &&& request.object_identifier.instance == result.object_identifier.instance
    &&& request.property_identifier == result.property_identifier
}

proof fn lemma_answered_at(requests: Seq<PollRequestView>, result: ReadResultView, at: int)
    ensures
        (forall|i: int| 0 <= i < requests.len() ==> !is_for(#[trigger] requests[i], result))
            ==> answered(requests, result) is None,
        0 <= at < requests.len() && is_for(requests[at], result) && (forall|i: int|
            0 <= i < at ==> !is_for(#[trigger] requests[i], result)) ==> answered(requests, result)
            == Some(at),
        answered(requests, result) is Some ==> 0 <= answered(requests, result)->Some_0
            < requests.len(),
    decreases requests.len(),
{
    if requests.len() > 0 {
        let before = requests.drop_last();
        lemma_answered_at(before, result, at);
        assert(requests[requests.len() - 1] == requests.last());
        if forall|i: int| 0 <= i < requests.len() ==> !is_for(#[trigger] requests[i], result) {
            assert forall|i: int| 0 <= i < before.len() implies !is_for(
                #[trigger] before[i],
                result,
            ) by {
                assert(before[i] == requests[i]);
            }
        }
        if 0 <= at < requests.len() && is_for(requests[at], result) && (forall|i: int|
            0 <= i < at ==> !is_for(#[trigger] requests[i], result)) {
            assert forall|i: int| 0 <= i < at && i < before.len() implies !is_for(
                #[trigger] before[i],
                result,
            ) by {
                assert(before[i] == requests[i]);
            }
            if at < before.len() {
                assert(before[at] == requests[at]);
            }
        }
    }
}

/// Whether there is a value for the request at a place.
pub open spec fn holds_value(values: Seq<(int, TelemetryValueView)>, place: int) -> bool {
    exists|i: int| 0 <= i < values.len() && (#[trigger] values[i]).0 == place
}

/// A reply is used where it holds a value for every request, and only there.
pub proof fn law_complete_replies_are_used(
    requests: Seq<PollRequestView>,
    results: Seq<ReadResultView>,
)
    ensures
        reply_error(requests, results) is None <==> reply_values(requests, results) is Ok
            && forall|place: int|
            0 <= place < requests.len() ==> #[trigger] holds_value(
                reply_values(requests, results)->Ok_0,
                place,
            ),
{
    let values = reply_values(requests, results)->Ok_0;
    if reply_error(requests, results) is None {
        assert forall|place: int| 0 <= place < requests.len() implies #[trigger] holds_value(
            values,
            place,
        ) by {
            law_usable_reply_answers_every_request(requests, results, place);
            let i = choose|i: int| 0 <= i < values.len() && (#[trigger] values[i]).0 == place;
            assert(values[i].0 == place);
        }
    }
    if reply_values(requests, results) is Ok && forall|place: int|
        0 <= place < requests.len() ==> #[trigger] holds_value(values, place) {
        lemma_values_in_range(requests, results);
        let all = vstd::set_lib::set_int_range(0, requests.len() as int);
        assert forall|place: int| #[trigger] answered_places(values).contains(place)
            == all.contains(place) by {
            lemma_answered_places(values, place);
            if 0 <= place < requests.len() {
                assert(holds_value(values, place));
            }
        }
        assert(answered_places(values) =~= all);
        vstd::set_lib::lemma_int_range(0, requests.len() as int);
    }
}

proof fn lemma_values_in_range(requests: Seq<PollRequestView>, results: Seq<ReadResultView>)
    ensures
        reply_values(requests, results) is Ok ==> forall|i: int|
            0 <= i < reply_values(requests, results)->Ok_0.len() ==> 0 <= (#[trigger] reply_values(
                requests,
                results,
            )->Ok_0[i]).0 < requests.len(),
    decreases results.len(),
{
    if results.len() > 0 {
        lemma_values_in_range(requests, results.drop_last());
        lemma_answered_at(requests, results.last(), 0);
    }
}

proof fn lemma_answered_places(values: Seq<(int, TelemetryValueView)>, place: int)
    ensures
        answered_places(values).contains(place) <==> exists|i: int|
            0 <= i < values.len() && (#[trigger] values[i]).0 == place,
    decreases values.len(),
{
    if values.len() > 0 {
        let before = values.drop_last();
        lemma_answered_places(before, place);
        assert(values[values.len() - 1] == values.last());
        if answered_places(before).contains(place) {
            let i = choose|i: int| 0 <= i < before.len() && (#[trigger] before[i]).0 == place;
            assert(values[i].0 == place);
        }
        if exists|i: int| 0 <= i < values.len() && (#[trigger] values[i]).0 == place {
            let i = choose|i: int| 0 <= i < values.len() && (#[trigger] values[i]).0 == place;
            if i < before.len() {
                assert(before[i].0 == place);
            }
        }
    }
}

/// A sample is of the point that asked, with the value that was read, under the topic of that point.
pub proof fn law_samples_are_of_their_points(
    prefix: Seq<char>,
    requests: Seq<PollRequestView>,
    values: Seq<(int, TelemetryValueView)>,
    times: Seq<i64>,
    at: int,
)
    requires
        0 <= at < values.len(),
        0 <= values[at].0 < requests.len(),
    ensures
        ({
            let samples = samples_of(prefix, requests, values, times);
            let point = requests[values[at].0].point;
            &&& samples.len() == values.len()
            &&& samples[at].point == point
            &&& samples[at].value == values[at].1
            &&& samples[at].topic == point_topic(prefix, point)
            &&& samples[at].timestamp_ms == times[at]
        }),
{
}

/// A device is asked for all of its points at once; where the reply is not usable, for one after the
/// other, in their order, with a warning that names the device. Nothing is asked once the poll is
/// cancelled.
pub proof fn law_devices_are_asked_once_then_singly(
    group: DeviceGroupView,
    prefix: Seq<char>,
    results: Seq<ReadResultView>,
    message: Seq<char>,
    times: Seq<i64>,
)
    requires
        group.requests.len() <= usize::MAX,
    ensures
        ({
            let start = group_start(group);
            let used = group_after_multiple(start, prefix, Ok(results), times);
            let refused = group_after_multiple(start, prefix, Err(message), times);
            &&& start.requests == group.requests
            &&& start.device_instance == group.device_instance
            &&& start.next == 0
            &&& start.result.samples.len() == 0
            &&& start.result.failures.len() == 0
            &&& start.result.warning is None
            &&& reply_error(group.requests, results) is None ==> {
                &&& used.result.samples == samples_of(
                    prefix,
                    group.requests,
                    reply_values(group.requests, results)->Ok_0,
                    times,
                )
                &&& used.result.failures.len() == 0
                &&& used.result.warning is None
            }
            &&& reply_error(group.requests, results) is Some ==> used == group_after_multiple(
                start,
                prefix,
                Err(reply_error(group.requests, results)->Some_0),
                times,
            )
            &&& refused.result.samples.len() == 0
            &&& refused.result.failures.len() == 0
            &&& refused.result.warning == Some(
                "RPM failed for device "@ + decimal(group.device_instance as nat)
                    + "; used fallback: "@ + message,
            )
            &&& group.requests.len() > 0 ==> group_next(refused, false) == GroupAction::ReadOne(0)
            &&& group.requests.len() == 0 ==> group_next(refused, false) == GroupAction::Finish
            &&& group_next(refused, true) == GroupAction::Finish
        }),
{
}

/// A single read gives one sample of the next point or one failure of it, behind what was read
/// before, and goes on to the point after it.
pub proof fn law_single_reads(
    state: GroupPollView,
    prefix: Seq<char>,
    bytes: Seq<u8>,
    message: Seq<char>,
    time: i64,
)
    requires
        state.next < state.requests.len() <= usize::MAX,
    ensures
        ({
            let point = state.requests[state.next as int].point;
            let read = group_after_single(state, prefix, Ok(bytes), time);
            let unread = group_after_single(state, prefix, Err(message), time);
            &&& read.next == state.next + 1
            &&& unread.next == state.next + 1
            &&& read.requests == state.requests
            &&& read.result.warning == state.result.warning
            &&& scalar_of(bytes) is Ok ==> {
                &&& read.result.failures == state.result.failures
                &&& read.result.samples.len() == state.result.samples.len() + 1
                &&& read.result.samples.drop_last() == state.result.samples
                &&& read.result.samples.last().point == point
                &&& read.result.samples.last().value == scalar_of(bytes)->Ok_0
                &&& read.result.samples.last().topic == point_topic(prefix, point)
                &&& read.result.samples.last().timestamp_ms == time
            }
            &&& scalar_of(bytes) is Err ==> {
                &&& read.result.samples == state.result.samples
                &&& read.result.failures == state.result.failures.push(
                    PointFailureView { point, error: scalar_of(bytes)->Err_0.message() },
                )
            }
            &&& unread.result.samples == state.result.samples
            &&& unread.result.failures == state.result.failures.push(
                PointFailureView { point, error: message },
            )
            &&& state.next + 1 < state.requests.len() ==> group_next(read, false)
                == GroupAction::ReadOne((state.next + 1) as usize)
            &&& state.next + 1 == state.requests.len() ==> group_next(read, false)
                == GroupAction::Finish
            &&& group_next(read, true) == GroupAction::Finish
        }),
{
    let point = state.requests[state.next as int].point;
    if scalar_of(bytes) is Ok {
        let value = scalar_of(bytes)->Ok_0;
        assert(state.result.samples.push(sample_of(prefix, point, value, time)).drop_last()
            =~= state.result.samples);
    }
}

/// The outcome of a poll: the points that could not be asked for fail first, then come the samples,
/// the failures and the warning of each device, in the order of the devices.
pub proof fn law_outcomes_are_put_together(
    failures: Seq<PointFailureView>,
    groups: Seq<GroupResultView>,
    group: GroupResultView,
)
    ensures
        collated(failures, Seq::empty()).samples.len() == 0,
        collated(failures, Seq::empty()).failures == failures,
        collated(failures, Seq::empty()).warnings.len() == 0,
        ({
            let before = collated(failures, groups);
            let after = collated(failures, groups.push(group));
            &&& after.samples == before.samples + group.samples
            &&& after.failures == before.failures + group.failures
            &&& group.warning is None ==> after.warnings == before.warnings
            &&& group.warning is Some ==> after.warnings == before.warnings.push(
                group.warning->Some_0,
            )
        }),
{
    assert(groups.push(group).drop_last() =~= groups);
}

/// The points of missing devices fail behind all others, each with its device, and a warning comes
/// before all others; without such devices, nothing is added.
pub proof fn law_skipped_points_fail(
    outcome: PollOutcomeView,
    skipped: Seq<PointConfigView>,
    unresolved: Seq<u32>,
    at: int,
)
    requires
        0 <= at < skipped.len(),
    ensures
        ({
            let after = completed(outcome, skipped, unresolved);
            let failure = after.failures[outcome.failures.len() + at];
            &&& after.samples == outcome.samples
            &&& after.failures.len() == outcome.failures.len() + skipped.len()
            &&& after.failures.take(outcome.failures.len() as int) == outcome.failures
            &&& failure.point == skipped[at]
            &&& failure.error == "device "@ + decimal(skipped[at].device_instance as nat)
                + " not in I-Am cache"@
            &&& unresolved.len() == 0 ==> after.warnings == outcome.warnings
            &&& unresolved.len() > 0 ==> after.warnings.len() == outcome.warnings.len() + 1
                && after.warnings.drop_first() == outcome.warnings
        }),
        completed(outcome, Seq::empty(), Seq::empty()) == outcome,
{
    let after = completed(outcome, skipped, unresolved);
    assert(after.failures.take(outcome.failures.len() as int) =~= outcome.failures);
    if unresolved.len() > 0 {
        assert(after.warnings.drop_first() =~= outcome.warnings);
    }
    assert(completed(outcome, Seq::empty(), Seq::empty()).failures =~= outcome.failures);
}

/// Points are polled or skipped by whether their device is missing, and enabled points are kept, all
/// in their order.
pub proof fn law_points_are_told_apart_in_order(
    points: Seq<PointConfigView>,
    point: PointConfigView,
    missing: Set<u32>,
)
    ensures
        ({
            let before = split_by_device(points, missing);
            let after = split_by_device(points.push(point), missing);
            if missing.contains(point.device_instance) {
                after.0 == before.0 && after.1 == before.1.push(point)
            } else {
                after.0 == before.0.push(point) && after.1 == before.1
            }
        }),
        split_by_device(Seq::empty(), missing).0.len() == 0,
        split_by_device(Seq::empty(), missing).1.len() == 0,
        point.enabled ==> enabled_of(points.push(point)) == enabled_of(points).push(point),
        !point.enabled ==> enabled_of(points.push(point)) == enabled_of(points),
        enabled_of(Seq::empty()).len() == 0,
{
    assert(points.push(point).drop_last() =~= points);
}

} // verus!
