//! When the republisher polls a point, leaves a device alone and asks for addresses. Times are in
//! nanoseconds.

use vstd::prelude::*;

use crate::bacnet::poll::{devices_of, enabled_of};
use crate::bacnet::refresh::RefreshOutcomeView;
use crate::model::{PointConfigView, PollOutcomeView};
use crate::order::{ascending, lemma_ascending_is, lemma_push_contains, strictly_ascending};
use crate::worker::backoff::{backoff_in, failed_devices, missing_failures, sampled_devices};
use crate::worker::republisher::{
    due_places, is_due, law_due_points_are_polled, poll_due, points_at, polled_state,
    refreshed_state, republisher_start, round, startup_missing, with_polled, RepublisherActionView,
    RepublisherView,
};

verus! {

/// The points of a poll are those at the places that are noted as due, all of them at one time, each
/// once and in the order in which they are configured.
pub open spec fn polls(
    state: RepublisherView,
    outcome: (RepublisherView, RepublisherActionView),
    now: u128,
) -> bool {
    let (after, action) = outcome;
    &&& action is Poll
    &&& after.polled_at == now
    &&& after.due.len() == action->Poll_0.len()
    &&& after.due.len() > 0
    &&& forall|j: int, k: int|
        0 <= j < k < after.due.len() ==> #[trigger] after.due[j] < #[trigger] after.due[k]
    &&& forall|k: int|
        0 <= k < after.due.len() ==> #[trigger] after.due[k] < state.points.len()
            && action->Poll_0[k] == state.points[after.due[k] as int]
}

/// Only points that are enabled, whose device is neither missing nor paused, and that were not
/// polled within their interval, are polled. A point with an interval of some seconds that was
/// polled before is polled again only when that many seconds have passed, and never within a
/// second. A poll leaves everything else as it was, the points, the devices and what is known of
/// them.
pub proof fn law_points_are_not_polled_early(state: RepublisherView, now: u128)
    requires
        state.points.len() <= usize::MAX,
    ensures
        poll_due(state, now).1 is Poll || poll_due(state, now).1 is Rest,
        poll_due(state, now).1 is Poll ==> polls(state, poll_due(state, now), now),
        ({
            let (after, action) = poll_due(state, now);
            &&& after.points == state.points
            &&& after.unresolved == state.unresolved
            &&& after.backoffs == state.backoffs
            &&& after.last_polled == state.last_polled
            &&& after.statuses == state.statuses
            &&& after.devices == state.devices
            &&& after.bacnet == state.bacnet
            &&& after.last_resolve_attempt == state.last_resolve_attempt
            &&& after.last_full_refresh == state.last_full_refresh
            &&& action is Poll ==> forall|k: int|
                #![trigger after.due[k]]
                0 <= k < after.due.len() ==> {
                    let place = after.due[k];
                    let point = state.points[place as int];
                    &&& point.enabled
                    &&& !state.unresolved.contains(point.device_instance)
                    &&& state.backoffs.contains_key(point.device_instance)
                        ==> state.backoffs[point.device_instance].until <= now
                    &&& state.last_polled.contains_key(place) ==> {
                        &&& now - state.last_polled[place] >= point.poll_interval_secs
                            * 1_000_000_000
                        &&& now - state.last_polled[place] >= 1_000_000_000
                    }
                }
        }),
{
    law_due_points_are_polled(state, now, state.points.len());
    let due = due_places(state, now, state.points.len());
    assert forall|k: int| 0 <= k < due.len() implies {
        let place = #[trigger] due[k];
        place < state.points.len() && is_due(state, place as int, now)
    } by {
        let place = due[k];
    }
}

/// A point that is enabled, whose device is neither missing nor paused, and that was never polled or
/// was polled as many seconds ago as its interval says, is among the points that are polled.
pub proof fn law_points_are_polled_in_time(state: RepublisherView, now: u128, place: usize)
    requires
        place < state.points.len() <= usize::MAX,
        ({
            let point = state.points[place as int];
            &&& point.enabled
            &&& !state.unresolved.contains(point.device_instance)
            &&& !state.backoffs.contains_key(point.device_instance)
                || state.backoffs[point.device_instance].until <= now
            &&& !state.last_polled.contains_key(place) || (now - state.last_polled[place]
                >= point.poll_interval_secs * 1_000_000_000 && now - state.last_polled[place]
                >= 1_000_000_000)
        }),
    ensures
        ({
            let (after, action) = poll_due(state, now);
            &&& action is Poll
            &&& after.due.contains(place)
            &&& action->Poll_0.contains(state.points[place as int])
        }),
{
    law_due_points_are_polled(state, now, state.points.len());
    assert(is_due(state, place as int, now));
    let due = due_places(state, now, state.points.len());
    assert(due.contains(place));
    let k = choose|k: int| 0 <= k < due.len() && due[k] == place;
    assert(points_at(state.points, due)[k] == state.points[place as int]);
}

/// Once a poll is done, the polled points are noted with the time of the poll, and no others.
pub proof fn law_polls_are_noted(state: RepublisherView, outcome: PollOutcomeView, place: usize)
    ensures
        ({
            let after = polled_state(state, outcome);
            &&& after.last_polled.contains_key(place) == (state.due.contains(place)
                || state.last_polled.contains_key(place))
            &&& state.due.contains(place) ==> after.last_polled[place] == state.polled_at
            &&& !state.due.contains(place) && state.last_polled.contains_key(place)
                ==> after.last_polled[place] == state.last_polled[place]
            &&& after.points == state.points
            &&& after.unresolved == state.unresolved
            &&& after.devices == state.devices
            &&& after.bacnet == state.bacnet
            &&& after.due.len() == 0
            &&& after.last_resolve_attempt == state.last_resolve_attempt
            &&& after.last_full_refresh == state.last_full_refresh
        }),
{
    lemma_noted(state.last_polled, state.due, state.polled_at, place);
}

proof fn lemma_noted(last_polled: Map<usize, u128>, places: Seq<usize>, now: u128, place: usize)
    ensures
        ({
            let after = with_polled(last_polled, places, now);
            &&& after.contains_key(place) == (places.contains(place) || last_polled.contains_key(
                place,
            ))
            &&& places.contains(place) ==> after[place] == now
            &&& !places.contains(place) && last_polled.contains_key(place) ==> after[place]
                == last_polled[place]
        }),
    decreases places.len(),
{
    if places.len() > 0 {
        let before = places.drop_last();
        lemma_noted(last_polled, before, now, place);
        assert(places[places.len() - 1] == places.last());
        if before.contains(place) {
            let i = choose|i: int| 0 <= i < before.len() && before[i] == place;
            assert(places[i] == place);
        }
        if places.contains(place) && place != places.last() {
            let i = choose|i: int| 0 <= i < places.len() && places[i] == place;
            assert(before[i] == place);
        }
    }
}

/// Between two polls of a point lie at least as many seconds as its interval says, and at least one:
/// where a poll at one time held the point, a poll at another time holds it only that much later.
pub proof fn law_polls_of_a_point_are_apart(
    state: RepublisherView,
    first: u128,
    outcome: PollOutcomeView,
    second: u128,
    place: usize,
)
    requires
        place < state.points.len() <= usize::MAX,
        poll_due(state, first).1 is Poll,
        poll_due(state, first).0.due.contains(place),
    ensures
        ({
            let between = polled_state(poll_due(state, first).0, outcome);
            let (after, action) = poll_due(between, second);
            action is Poll && after.due.contains(place) ==> {
                &&& second - first >= state.points[place as int].poll_interval_secs * 1_000_000_000
                &&& second - first >= 1_000_000_000
            }
        }),
{
    let started = poll_due(state, first).0;
    let between = polled_state(started, outcome);
    law_polls_are_noted(started, outcome, place);
    law_points_are_not_polled_early(between, second);
    let (after, action) = poll_due(between, second);
    if action is Poll && after.due.contains(place) {
        let k = choose|k: int| 0 <= k < after.due.len() && after.due[k] == place;
        assert(after.due[k] == place);
        assert(between.points == state.points);
        assert(between.last_polled.contains_key(place));
        assert(between.last_polled[place] == first);
    }
}

/// What a round does: a stop comes before all else; when four minutes have passed since the addresses
/// of all devices were asked for, they are asked for again; when a minute has passed since missing
/// devices were asked for, they are asked for; else the points that are due are polled. Asking for
/// addresses is noted with its time.
pub proof fn law_what_a_round_does(state: RepublisherView, stop: bool, now: u128, missing: Seq<u32>)
    requires
        strictly_ascending(missing),
        missing.to_set() == state.unresolved,
    ensures
        ({
            let (after, action) = round(state, stop, now);
            let keepalive = now - state.last_full_refresh >= 240_000_000_000;
            let again = missing.len() > 0 && now - state.last_resolve_attempt >= 60_000_000_000;
            &&& stop ==> action is StopClient
            &&& !stop && keepalive ==> {
                &&& action == RepublisherActionView::Refresh(state.devices)
                &&& after.last_full_refresh == now
                &&& after.last_resolve_attempt == now
            }
            &&& !stop && !keepalive && again ==> {
                &&& action == RepublisherActionView::Refresh(missing)
                &&& after.last_full_refresh == state.last_full_refresh
                &&& after.last_resolve_attempt == now
            }
            &&& !stop && !keepalive && !again ==> (after, action) == poll_due(state, now)
            &&& after.points == state.points
            &&& after.unresolved == state.unresolved
            &&& after.backoffs == state.backoffs
            &&& after.last_polled == state.last_polled
            &&& after.statuses == state.statuses
            &&& after.devices == state.devices
            &&& after.bacnet == state.bacnet
        }),
{
    lemma_ascending_is(missing, state.unresolved);
}

/// When addresses come in, a device that was asked for and not found is missing from then on, one
/// that was found is neither missing nor paused, and of all others is known what was known. Nothing
/// is forgotten of when points were polled; without a reply, nothing changes.
pub proof fn law_refreshes_change_what_is_known(
    state: RepublisherView,
    refresh: RefreshOutcomeView,
    error: Seq<char>,
    device: u32,
)
    ensures
        refreshed_state(state, Err(error)) == state,
        ({
            let after = refreshed_state(state, Ok(refresh));
            &&& refresh.unresolved.contains(device) ==> after.unresolved.contains(device)
            &&& !refresh.unresolved.contains(device) && refresh.resolved.contains(device)
                ==> !after.unresolved.contains(device)
            &&& !refresh.unresolved.contains(device) && !refresh.resolved.contains(device)
                ==> after.unresolved.contains(device) == state.unresolved.contains(device)
            &&& refresh.resolved.contains(device) ==> !after.backoffs.contains_key(device)
            &&& !refresh.resolved.contains(device) ==> backoff_in(after.backoffs, device)
                == backoff_in(state.backoffs, device)
            &&& after.last_polled == state.last_polled
            &&& after.points == state.points
            &&& after.devices == state.devices
            &&& after.bacnet == state.bacnet
            &&& after.last_resolve_attempt == state.last_resolve_attempt
            &&& after.last_full_refresh == state.last_full_refresh
        }),
{
}

/// At the start, exactly the devices that were asked for and not found are missing; where asking
/// failed, none counts as missing.
pub proof fn law_missing_at_the_start(
    refresh: RefreshOutcomeView,
    error: Seq<char>,
    device: u32,
)
    ensures
        startup_missing(Ok(refresh)).contains(device) <==> refresh.unresolved.contains(device),
        !startup_missing(Err(error)).contains(device),
{
}

/// After a poll, a device that answered at all is not paused. One that was polled and only failed is
/// paused: at first for ten seconds, then for twice as long as before, and never for longer than is
/// configured or, where that is less than ten seconds, for ten. All other devices stay as they were.
pub proof fn law_failing_devices_are_paused(
    state: RepublisherView,
    outcome: PollOutcomeView,
    device: u32,
)
    requires
        state.polled_at + u64::MAX * 1_000_000_000 <= u128::MAX,
        forall|k: int| 0 <= k < state.due.len() ==> #[trigger] state.due[k] < state.points.len(),
    ensures
        ({
            let after = polled_state(state, outcome);
            let polled = exists|k: int|
                0 <= k < state.due.len() && (#[trigger] state.points[state.due[k] as int]).device_instance
                    == device;
            let answered = exists|i: int|
                0 <= i < outcome.samples.len() && (#[trigger] outcome.samples[i]).point.device_instance
                    == device;
            let failed = exists|i: int|
                0 <= i < outcome.failures.len()
                    && (#[trigger] outcome.failures[i]).point.device_instance == device;
            let longest = if state.bacnet.device_backoff_max_secs < 10 {
                10_000_000_000
            } else {
                state.bacnet.device_backoff_max_secs * 1_000_000_000
            };
            let paused = after.backoffs[device];
            &&& polled && answered ==> !after.backoffs.contains_key(device)
            &&& polled && !answered && failed ==> {
                &&& after.backoffs.contains_key(device)
                &&& paused.until == state.polled_at + paused.delay
                &&& !state.backoffs.contains_key(device) ==> paused.delay == 10_000_000_000
                &&& state.backoffs.contains_key(device) ==> {
                    let twice = state.backoffs[device].delay * 2;
                    paused.delay == if twice < longest {
                        twice
                    } else {
                        longest
                    }
                }
            }
            &&& !polled || (!answered && !failed) ==> {
                &&& after.backoffs.contains_key(device) == state.backoffs.contains_key(device)
                &&& state.backoffs.contains_key(device) ==> paused == state.backoffs[device]
            }
        }),
{
    let at = devices_of(points_at(state.points, state.due));
    let (sampled, failing) = (sampled_devices(outcome), failed_devices(outcome));
    assert forall|k: int| 0 <= k < state.due.len() implies at[k] == (
    #[trigger] state.points[state.due[k] as int]).device_instance by {}
    assert forall|i: int| 0 <= i < outcome.samples.len() implies sampled[i] == (
    #[trigger] outcome.samples[i]).point.device_instance by {}
    assert forall|i: int| 0 <= i < outcome.failures.len() implies failing[i] == (
    #[trigger] outcome.failures[i]).point.device_instance by {}
    if exists|k: int|
        0 <= k < state.due.len() && (#[trigger] state.points[state.due[k] as int]).device_instance
            == device {
        let k = choose|k: int|
            0 <= k < state.due.len()
                && (#[trigger] state.points[state.due[k] as int]).device_instance == device;
        assert(at[k] == device);
        assert(at.contains(device));
    } else if at.contains(device) {
        let k = choose|k: int| 0 <= k < at.len() && at[k] == device;
        assert(state.points[state.due[k] as int].device_instance == device);
    }
    if exists|i: int|
        0 <= i < outcome.samples.len() && (#[trigger] outcome.samples[i]).point.device_instance
            == device {
        let i = choose|i: int|
            0 <= i < outcome.samples.len() && (#[trigger] outcome.samples[i]).point.device_instance
                == device;
        assert(sampled[i] == device);
        assert(sampled.contains(device));
    } else if sampled.contains(device) {
        let i = choose|i: int| 0 <= i < sampled.len() && sampled[i] == device;
        assert(outcome.samples[i].point.device_instance == device);
    }
    if exists|i: int|
        0 <= i < outcome.failures.len() && (#[trigger] outcome.failures[i]).point.device_instance
            == device {
        let i = choose|i: int|
            0 <= i < outcome.failures.len()
                && (#[trigger] outcome.failures[i]).point.device_instance == device;
        assert(failing[i] == device);
        assert(failing.contains(device));
    } else if failing.contains(device) {
        let i = choose|i: int| 0 <= i < failing.len() && failing[i] == device;
        assert(outcome.failures[i].point.device_instance == device);
    }
}

/// The republisher looks after the devices of the enabled points, each once and in ascending order,
/// and starts with nothing polled, nothing missing and nothing paused.
pub proof fn law_the_devices_of_enabled_points(
    bacnet: crate::config::BacnetConfig,
    points: Seq<PointConfigView>,
    devices: Seq<u32>,
)
    requires
        strictly_ascending(devices),
        forall|device: u32|
            #[trigger] devices.contains(device) <==> exists|i: int|
                0 <= i < points.len() && (#[trigger] points[i]).enabled && points[i].device_instance
                    == device,
    ensures
        ({
            let state = republisher_start(bacnet, points);
            &&& state.devices == devices
            &&& state.points == points
            &&& state.bacnet == bacnet
            &&& state.last_polled == Map::<usize, u128>::empty()
            &&& state.unresolved == Set::<u32>::empty()
            &&& state.backoffs.dom() == Set::<u32>::empty()
            &&& state.statuses.dom() == Set::<crate::model::PointIdentityView>::empty()
        }),
{
    let found = devices_of(enabled_of(points));
    assert forall|device: u32| #[trigger] found.contains(device) == devices.contains(device) by {
        lemma_enabled_devices(points, device);
    }
    assert(found.to_set() =~= devices.to_set());
    lemma_ascending_is(devices, found.to_set());
}

proof fn lemma_enabled_devices(points: Seq<PointConfigView>, device: u32)
    ensures
        devices_of(enabled_of(points)).contains(device) <==> exists|i: int|
            0 <= i < points.len() && (#[trigger] points[i]).enabled && points[i].device_instance
                == device,
    decreases points.len(),
{
    if points.len() > 0 {
        let before = points.drop_last();
        lemma_enabled_devices(before, device);
        let shorter = devices_of(enabled_of(before));
        let found = devices_of(enabled_of(points));
        if points.last().enabled {
            assert(found =~= shorter.push(points.last().device_instance));
            lemma_push_contains(shorter, points.last().device_instance, device);
        } else {
            assert(found =~= shorter);
        }
        if shorter.contains(device) {
            let i = choose|i: int|
                0 <= i < before.len() && (#[trigger] before[i]).enabled && before[i].device_instance
                    == device;
            assert(points[i] == before[i]);
        }
        if exists|i: int|
            0 <= i < points.len() && (#[trigger] points[i]).enabled && points[i].device_instance
                == device {
            let i = choose|i: int|
                0 <= i < points.len() && (#[trigger] points[i]).enabled && points[i].device_instance
                    == device;
            if i < before.len() {
                assert(before[i] == points[i]);
            } else {
                assert(points[i] == points.last());
            }
        }
        if found.contains(device) && !shorter.contains(device) {
            assert(points[points.len() - 1] == points.last());
        }
    } else {
        assert(devices_of(enabled_of(points)).len() == 0);
    }
}

/// The points that fail because their devices are missing: exactly the enabled points of these
/// devices, in their order, each with the device in its message.
pub proof fn law_points_of_missing_devices_fail(
    points: Seq<PointConfigView>,
    point: PointConfigView,
    missing: Set<u32>,
)
    ensures
        missing_failures(Seq::empty(), missing).len() == 0,
        ({
            let before = missing_failures(points, missing);
            let after = missing_failures(points.push(point), missing);
            if point.enabled && missing.contains(point.device_instance) {
                &&& after.len() == before.len() + 1
                &&& after.drop_last() == before
                &&& after.last().point == point
                &&& after.last().error == "device "@ + crate::numerals::decimal(
                    point.device_instance as nat,
                ) + " not in I-Am cache"@
            } else {
                after == before
            }
        }),
{
    assert(points.push(point).drop_last() =~= points);
    assert(missing_failures(points, missing).push(crate::bacnet::poll::not_found_failure(point)).drop_last()
        =~= missing_failures(points, missing));
}

} // verus!
