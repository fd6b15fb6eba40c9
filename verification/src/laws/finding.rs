//! How devices are found: by asking for all of them, and for those whose addresses are wanted.

use vstd::prelude::*;

use crate::address::{address_text, Ipv4Addr};
use crate::bacnet::discovery::{
    are_targets, devices_by_instance, devices_sorted, discovery_bound, discovery_heard, discovery_next,
    discovery_pass_failed, discovery_stopped, placed, with_devices, DiscoveryActionView,
    DiscoveryView,
};
use crate::bacnet::refresh::{
    chunk_ranges, partition, refresh_first, refresh_looked_up, refresh_sent, refresh_start,
    unknown_of, DeviceRefreshView, RefreshAction,
};
use crate::config::BacnetConfig;
use crate::model::{DiscoveredDeviceView, NetworkInterfaceView};
use crate::numerals::decimal;
use crate::network::{address_numbers, interface_numbers};
use crate::order::{lemma_ascending_is, lemma_push_contains, strictly_ascending};

verus! {

/// Devices are first asked for by a broadcast, with the configured time to answer; where no device is
/// wanted, nothing is sent. Each wanted device counts once.
pub proof fn law_refresh_starts_with_a_broadcast(
    window_ms: u64,
    instances: Seq<u32>,
    wanted: Seq<u32>,
)
    requires
        strictly_ascending(wanted),
        forall|device: u32| #[trigger] wanted.contains(device) <==> instances.contains(device),
    ensures
        ({
            let state = refresh_start(window_ms, instances);
            &&& state.requested == wanted
            &&& state.unresolved.len() == 0
            &&& state.passes == 0
            &&& wanted.len() > 0 ==> refresh_first(state) == RefreshAction::Broadcast {
                wait_ms: window_ms,
            }
            &&& wanted.len() == 0 ==> refresh_first(state) == RefreshAction::Finish
            &&& refresh_sent(state) == (state, RefreshAction::Lookup)
        }),
{
    assert(instances.to_set() =~= wanted.to_set());
    lemma_ascending_is(wanted, instances.to_set());
}

/// The devices that are still missing are those that are wanted and not known, in their order.
pub proof fn law_missing_devices(requested: Seq<u32>, known: Seq<bool>, device: u32)
    requires
        known.len() == requested.len(),
    ensures
        unknown_of(requested, known).contains(device) <==> exists|i: int|
            0 <= i < requested.len() && #[trigger] requested[i] == device && !known[i],
        strictly_ascending(requested) ==> strictly_ascending(unknown_of(requested, known)),
        (forall|i: int| 0 <= i < known.len() ==> #[trigger] known[i]) ==> unknown_of(
            requested,
            known,
        ).len() == 0,
    decreases requested.len(),
{
    if requested.len() > 0 {
        let (shorter, fewer) = (requested.drop_last(), known.drop_last());
        law_missing_devices(shorter, fewer, device);
        let before = unknown_of(shorter, fewer);
        lemma_push_contains(before, requested.last(), device);
        if before.contains(device) {
            let i = choose|i: int|
                0 <= i < shorter.len() && #[trigger] shorter[i] == device && !fewer[i];
            assert(requested[i] == device && !known[i]);
        }
        if exists|i: int|
            0 <= i < requested.len() && #[trigger] requested[i] == device && !known[i] {
            let i = choose|i: int|
                0 <= i < requested.len() && #[trigger] requested[i] == device && !known[i];
            if i < shorter.len() {
                assert(shorter[i] == device && !fewer[i]);
            }
        }
        assert(requested[requested.len() - 1] == requested.last());
        assert(known[known.len() - 1] == known.last());
        if strictly_ascending(requested) {
            assert(strictly_ascending(shorter)) by {
                assert forall|i: int, j: int| 0 <= i < j < shorter.len() implies shorter[i]
                    < shorter[j] by {
                    assert(requested[i] < requested[j]);
                }
            }
            let after = unknown_of(requested, known);
            assert forall|i: int, j: int| 0 <= i < j < after.len() implies after[i] < after[j] by {
                assert(after[i] == before[i]);
                if j < before.len() {
                    assert(after[j] == before[j]);
                } else {
                    assert(before.contains(before[i]));
                    lemma_missing_were_requested(shorter, fewer, before[i]);
                    let k = choose|k: int| 0 <= k < shorter.len() && shorter[k] == before[i];
                    assert(requested[k] < requested[requested.len() - 1]);
                }
            }
        }
        if forall|i: int| 0 <= i < known.len() ==> #[trigger] known[i] {
            assert forall|i: int| 0 <= i < fewer.len() implies #[trigger] fewer[i] by {
                assert(known[i]);
            }
        }
    }
}

proof fn lemma_missing_were_requested(requested: Seq<u32>, known: Seq<bool>, device: u32)
    requires
        known.len() == requested.len(),
        unknown_of(requested, known).contains(device),
    ensures
        requested.contains(device),
    decreases requested.len(),
{
    if requested.len() > 0 {
        let before = unknown_of(requested.drop_last(), known.drop_last());
        lemma_push_contains(before, requested.last(), device);
        assert(requested[requested.len() - 1] == requested.last());
        if before.contains(device) {
            lemma_missing_were_requested(requested.drop_last(), known.drop_last(), device);
            let i = choose|i: int|
                0 <= i < requested.drop_last().len() && requested.drop_last()[i] == device;
            assert(requested[i] == device);
        }
    }
}

/// Missing devices are asked for by ranges of twenty-five, each from its first to its last device.
pub proof fn law_ranges_of_devices(sorted: Seq<u32>, at: int)
    requires
        0 <= at < chunk_ranges(sorted).len(),
    ensures
        sorted.len() <= chunk_ranges(sorted).len() * 25 < sorted.len() + 25,
        0 <= at * 25 < sorted.len(),
        chunk_ranges(sorted)[at].0 == sorted[at * 25],
        at * 25 + 24 < sorted.len() ==> chunk_ranges(sorted)[at].1 == sorted[at * 25 + 24],
        at * 25 + 24 >= sorted.len() ==> chunk_ranges(sorted)[at].1 == sorted[sorted.len() - 1],
{
}

/// Where devices are missing after a look-up, they are asked for by their ranges, a second being left
/// for each to answer, but no more than twice; and when nothing is missing any more, that is all.
pub proof fn law_missing_devices_are_asked_for_twice(
    state: DeviceRefreshView,
    known: Seq<bool>,
    missing: Seq<u32>,
)
    requires
        known.len() == state.requested.len(),
        strictly_ascending(state.requested),
        missing == unknown_of(state.requested, known),
    ensures
        ({
            let (after, action) = refresh_looked_up(state, known);
            &&& after.unresolved == missing
            &&& after.requested == state.requested
            &&& missing.len() == 0 ==> action is Finish
            &&& state.passes >= 2 ==> action is Finish
            &&& missing.len() > 0 && state.passes < 2 ==> {
                &&& after.passes == state.passes + 1
                &&& after.ranges == chunk_ranges(missing)
                &&& after.next_range == 1
                &&& action == RefreshAction::Targeted {
                    low: chunk_ranges(missing)[0].0,
                    high: chunk_ranges(missing)[0].1,
                    wait_ms: 1000,
                }
            }
        }),
        ({
            let (after, action) = refresh_sent(state);
            &&& state.next_range < state.ranges.len() <= usize::MAX ==> {
                &&& after.next_range == state.next_range + 1
                &&& action == RefreshAction::Targeted {
                    low: state.ranges[state.next_range as int].0,
                    high: state.ranges[state.next_range as int].1,
                    wait_ms: 1000,
                }
            }
            &&& state.next_range >= state.ranges.len() ==> action == RefreshAction::Lookup
            &&& after.requested == state.requested
            &&& after.unresolved == state.unresolved
            &&& after.passes == state.passes
        }),
{
    law_missing_devices(state.requested, known, 0);
    lemma_ascending_is(missing, missing.to_set());
}

/// The outcome: each wanted device stands in one of the two lists, in its order.
pub proof fn law_outcome_of_a_refresh(requested: Seq<u32>, device: u32, missing: Set<u32>)
    ensures
        ({
            let before = partition(requested, missing);
            let after = partition(requested.push(device), missing);
            if missing.contains(device) {
                after.unresolved == before.unresolved.push(device) && after.resolved
                    == before.resolved
            } else {
                after.resolved == before.resolved.push(device) && after.unresolved
                    == before.unresolved
            }
        }),
        partition(Seq::empty(), missing).resolved.len() == 0,
        partition(Seq::empty(), missing).unresolved.len() == 0,
{
    assert(requested.push(device).drop_last() =~= requested);
}

proof fn lemma_sorted(list: Seq<u32>) -> (sorted: Seq<u32>)
    ensures
        strictly_ascending(sorted),
        sorted.to_set() == list.to_set(),
    decreases list.len(),
{
    if list.len() == 0 {
        list
    } else {
        let before = lemma_sorted(list.drop_last());
        let after = lemma_inserted(before, list.last());
        assert forall|number: u32| #[trigger] after.to_set().contains(number)
            == list.to_set().contains(number) by {
            assert(list =~= list.drop_last().push(list.last()));
            lemma_push_contains(list.drop_last(), list.last(), number);
            assert(before.to_set().contains(number) == list.drop_last().to_set().contains(number));
            assert(after.contains(number) == (before.contains(number) || number == list.last()));
        }
        assert(after.to_set() =~= list.to_set());
        after
    }
}

proof fn lemma_inserted(sorted: Seq<u32>, number: u32) -> (after: Seq<u32>)
    requires
        strictly_ascending(sorted),
    ensures
        strictly_ascending(after),
        forall|other: u32|
            #[trigger] after.contains(other) <==> sorted.contains(other) || other == number,
    decreases sorted.len(),
{
    if sorted.len() == 0 || sorted.last() < number {
        let after = sorted.push(number);
        assert forall|other: u32|
            #[trigger] after.contains(other) <==> sorted.contains(other) || other == number by {
            lemma_push_contains(sorted, number, other);
        }
        assert forall|i: int, j: int| 0 <= i < j < after.len() implies after[i] < after[j] by {
            if j == sorted.len() && i < sorted.len() - 1 {
                assert(sorted[i] < sorted[sorted.len() - 1]);
            }
        }
        after
    } else if sorted.last() == number {
        assert(sorted[sorted.len() - 1] == number);
        sorted
    } else {
        let shorter = sorted.drop_last();
        assert forall|i: int, j: int| 0 <= i < j < shorter.len() implies shorter[i] < shorter[j] by {
            assert(sorted[i] < sorted[j]);
        }
        let before = lemma_inserted(shorter, number);
        let after = before.push(sorted.last());
        assert forall|other: u32|
            #[trigger] after.contains(other) <==> sorted.contains(other) || other == number by {
            lemma_push_contains(before, sorted.last(), other);
            lemma_push_contains(shorter, sorted.last(), other);
            assert(sorted =~= shorter.push(sorted.last()));
            assert(before.contains(other) <==> shorter.contains(other) || other == number);
        }
        assert forall|i: int, j: int| 0 <= i < j < after.len() implies after[i] < after[j] by {
            if j < before.len() {
                assert(before[i] < before[j]);
            } else {
                assert(before.contains(before[i]));
                assert(shorter.contains(before[i]) || before[i] == number);
                if shorter.contains(before[i]) {
                    let k = choose|k: int| 0 <= k < shorter.len() && shorter[k] == before[i];
                    assert(sorted[k] < sorted[sorted.len() - 1]);
                }
            }
        }
        after
    }
}

/// Discovery looks on the addresses of all interfaces, each once, or on the selected one; where there
/// is none, on all addresses at once.
pub proof fn law_discovery_looks_everywhere(
    config: BacnetConfig,
    interfaces: Seq<NetworkInterfaceView>,
    targets: Seq<Ipv4Addr>,
)
    requires
        are_targets(config, interfaces, targets),
    ensures
        config.discover_all_interfaces && interfaces.len() > 0 ==> {
            &&& forall|address: Ipv4Addr|
                #[trigger] targets.contains(address) <==> exists|i: int|
                    0 <= i < interfaces.len() && (#[trigger] interfaces[i]).addr == address
            &&& forall|j: int, k: int|
                0 <= j < k < targets.len() ==> #[trigger] targets[j] != #[trigger] targets[k]
        },
        config.discover_all_interfaces && interfaces.len() == 0 ==> targets == seq![
            Ipv4Addr { a: 0, b: 0, c: 0, d: 0 },
        ],
        !config.discover_all_interfaces && config.selected_interface is Some ==> targets == seq![
            config.selected_interface->Some_0,
        ],
        !config.discover_all_interfaces && config.selected_interface is None ==> targets == seq![
            Ipv4Addr { a: 0, b: 0, c: 0, d: 0 },
        ],
{
    if config.discover_all_interfaces && interfaces.len() > 0 {
        let numbers = interface_numbers(interfaces);
        let sorted = lemma_sorted(numbers);
        lemma_ascending_is(sorted, numbers.to_set());
        assert(address_numbers(targets) == sorted);
        assert forall|address: Ipv4Addr|
            #[trigger] targets.contains(address) <==> exists|i: int|
                0 <= i < interfaces.len() && (#[trigger] interfaces[i]).addr == address by {
            if targets.contains(address) {
                let j = choose|j: int| 0 <= j < targets.len() && targets[j] == address;
                assert(address_numbers(targets)[j] == targets[j].number());
                assert(sorted.contains(sorted[j]));
                assert(numbers.to_set().contains(sorted[j]));
                let i = choose|i: int| 0 <= i < numbers.len() && numbers[i] == sorted[j];
                assert(numbers[i] == interfaces[i].addr.number());
                crate::address::lemma_number_is_unique(targets[j], interfaces[i].addr);
            }
            if exists|i: int| 0 <= i < interfaces.len() && (#[trigger] interfaces[i]).addr == address {
                let i = choose|i: int|
                    0 <= i < interfaces.len() && (#[trigger] interfaces[i]).addr == address;
                assert(numbers[i] == interfaces[i].addr.number());
                assert(numbers.contains(numbers[i]));
                assert(sorted.to_set().contains(numbers[i]));
                let j = choose|j: int| 0 <= j < sorted.len() && sorted[j] == numbers[i];
                assert(address_numbers(targets)[j] == targets[j].number());
                crate::address::lemma_number_is_unique(targets[j], interfaces[i].addr);
                assert(targets[j] == address);
            }
        }
        assert forall|j: int, k: int| 0 <= j < k < targets.len() implies #[trigger] targets[j]
            != #[trigger] targets[k] by {
            assert(address_numbers(targets)[j] == targets[j].number());
            assert(address_numbers(targets)[k] == targets[k].number());
            assert(sorted[j] < sorted[k]);
        }
    }
}

/// On each address, devices are asked to answer three times, and then the client is stopped; then
/// comes the next address, and after the last one discovery is done where any could be bound to.
pub proof fn law_discovery_asks_three_times(
    state: DiscoveryView,
    found: Seq<DiscoveredDeviceView>,
    error: Seq<char>,
)
    requires
        state.at < state.targets.len() <= usize::MAX,
        state.pass < 3,
    ensures
        discovery_next(state) == DiscoveryActionView::Bind(state.targets[state.at as int]),
        ({
            let (after, action) = discovery_bound(state, None);
            &&& action == DiscoveryActionView::Broadcast
            &&& after.pass == 0
            &&& after.bound_any
            &&& after.at == state.at
            &&& after.devices == state.devices
        }),
        ({
            let (after, action) = discovery_heard(state, found);
            &&& after.pass == state.pass + 1
            &&& after.at == state.at
            &&& after.bound_any == state.bound_any
            &&& after.warnings == state.warnings
            &&& state.pass < 2 ==> action == DiscoveryActionView::Broadcast
            &&& state.pass == 2 ==> action == DiscoveryActionView::Stop { checked: true }
        }),
        !state.strict ==> {
            let (after, action) = discovery_pass_failed(state, error);
            &&& after.pass == state.pass + 1
            &&& after.devices == state.devices
            &&& after.at == state.at
            &&& state.pass < 2 ==> action == DiscoveryActionView::Broadcast
            &&& state.pass == 2 ==> action == DiscoveryActionView::Stop {
                checked: state.any_pass_sent,
            }
        },
        state.failing is None ==> {
            let (after, action) = discovery_stopped(state, None);
            &&& after.at == state.at + 1
            &&& after.devices == state.devices
            &&& after.at < state.targets.len() ==> action == DiscoveryActionView::Bind(
                state.targets[state.at + 1],
            )
            &&& after.at == state.targets.len() && state.bound_any ==> action
                == DiscoveryActionView::Finish
            &&& after.at == state.targets.len() && !state.bound_any ==> action is Fail
        },
        !state.strict ==> {
            let (after, action) = discovery_bound(state, Some(error));
            &&& after.at == state.at + 1
            &&& after.devices == state.devices
            &&& after.bound_any == state.bound_any
            &&& after.at < state.targets.len() ==> action == DiscoveryActionView::Bind(
                state.targets[state.at + 1],
            )
        },
{
}

/// The devices that are shown are those that were found, by ascending number, and those with the same
/// number in the order in which they were found.
pub proof fn law_devices_with_one_number_stay_in_order(
    list: Seq<DiscoveredDeviceView>,
    instance: u32,
)
    ensures
        devices_sorted(list).filter(|device: DiscoveredDeviceView| device.instance == instance)
            == list.filter(|device: DiscoveredDeviceView| device.instance == instance),
    decreases list.len(),
{
    reveal(Seq::filter);
    if list.len() > 0 {
        let before = list.drop_last();
        law_devices_with_one_number_stay_in_order(before, instance);
        lemma_placed_in_order(devices_sorted(before), list.last(), instance);
    }
}

proof fn lemma_placed_in_order(
    list: Seq<DiscoveredDeviceView>,
    device: DiscoveredDeviceView,
    instance: u32,
)
    ensures
        ({
            let same = |other: DiscoveredDeviceView| other.instance == instance;
            placed(list, device).filter(same) == if device.instance == instance {
                list.filter(same).push(device)
            } else {
                list.filter(same)
            }
        }),
    decreases list.len(),
{
    reveal(Seq::filter);
    let same = |other: DiscoveredDeviceView| other.instance == instance;
    let after = placed(list, device);
    if list.len() == 0 || list.last().instance <= device.instance {
        assert(after.drop_last() =~= list);
    } else {
        lemma_placed_in_order(list.drop_last(), device, instance);
        assert(after.drop_last() =~= placed(list.drop_last(), device));
    }
}

/// A list of devices by ascending number holds one device under each of its numbers, and none under
/// any other.
pub proof fn law_devices_by_their_numbers(list: Seq<DiscoveredDeviceView>, at: int, other: u32)
    requires
        forall|i: int, j: int|
            0 <= i < j < list.len() ==> (#[trigger] list[i]).instance < (
            #[trigger] list[j]).instance,
    ensures
        0 <= at < list.len() ==> devices_by_instance(list).contains_key(list[at].instance)
            && devices_by_instance(list)[list[at].instance] == list[at],
        (forall|i: int| 0 <= i < list.len() ==> (#[trigger] list[i]).instance != other)
            ==> !devices_by_instance(list).contains_key(other),
    decreases list.len(),
{
    if list.len() > 0 {
        let before = list.drop_last();
        assert forall|i: int, j: int| 0 <= i < j < before.len() implies (
        #[trigger] before[i]).instance < (#[trigger] before[j]).instance by {
            assert(list[i].instance < list[j].instance);
        }
        law_devices_by_their_numbers(before, at, other);
        assert(list[list.len() - 1] == list.last());
        if 0 <= at < before.len() {
            assert(before[at] == list[at]);
            assert(list[at].instance < list[list.len() - 1].instance);
        }
        if forall|i: int| 0 <= i < list.len() ==> (#[trigger] list[i]).instance != other {
            assert forall|i: int| 0 <= i < before.len() implies (#[trigger] before[i]).instance
                != other by {
                assert(before[i] == list[i]);
            }
        }
    }
}

/// A client that cannot be bound, or a broadcast that cannot be sent, is told with its address; under
/// the strict policy it ends the discovery, which first stops the client, and fails with that very
/// message.
pub proof fn law_strict_discovery_fails(state: DiscoveryView, error: Seq<char>)
    requires
        state.at < state.targets.len() <= usize::MAX,
        state.pass < 3,
    ensures
        ({
            let address = address_text(state.targets[state.at as int]);
            let unbound = "failed to start BACnet client on "@ + address + ": "@ + error;
            let unsent = "Who-Is pass "@ + decimal((state.pass + 1) as nat) + " failed on "@
                + address + ": "@ + error;
            &&& state.strict ==> {
                let (after, action) = discovery_pass_failed(state, error);
                &&& discovery_bound(state, Some(error)).1 == DiscoveryActionView::Fail(unbound)
                &&& action == DiscoveryActionView::Stop { checked: false }
                &&& discovery_stopped(after, None).1 == DiscoveryActionView::Fail(unsent)
            }
            &&& !state.strict ==> {
                &&& discovery_bound(state, Some(error)).0.warnings == state.warnings.push(unbound)
                &&& discovery_pass_failed(state, error).0.warnings == state.warnings.push(unsent)
            }
            &&& state.failing is None && state.any_pass_sent ==> discovery_stopped(
                state,
                Some(error),
            ).1 == DiscoveryActionView::Fail(error)
        }),
{
}

/// Of the answers of a device, the last one counts; devices that did not answer again stay as they
/// were found before.
pub proof fn law_the_last_answer_counts(
    known: Map<u32, DiscoveredDeviceView>,
    found: Seq<DiscoveredDeviceView>,
    at: int,
    other: u32,
)
    requires
        0 <= at < found.len(),
        forall|i: int|
            at < i < found.len() ==> (#[trigger] found[i]).instance != found[at].instance,
    ensures
        ({
            let after = with_devices(known, found);
            &&& after.contains_key(found[at].instance)
            &&& after[found[at].instance] == found[at]
            &&& (forall|i: int| 0 <= i < found.len() ==> (#[trigger] found[i]).instance != other) ==> {
                &&& after.contains_key(other) == known.contains_key(other)
                &&& known.contains_key(other) ==> after[other] == known[other]
            }
        }),
    decreases found.len(),
{
    let before = found.drop_last();
    lemma_silent_devices(known, found, other);
    if at < before.len() {
        assert forall|i: int| at < i < before.len() implies (#[trigger] before[i]).instance
            != before[at].instance by {
            assert(before[i] == found[i]);
        }
        law_the_last_answer_counts(known, before, at, other);
        assert(found[found.len() - 1] == found.last());
    }
}

proof fn lemma_silent_devices(
    known: Map<u32, DiscoveredDeviceView>,
    found: Seq<DiscoveredDeviceView>,
    other: u32,
)
    ensures
        (forall|i: int| 0 <= i < found.len() ==> (#[trigger] found[i]).instance != other) ==> {
            let after = with_devices(known, found);
            &&& after.contains_key(other) == known.contains_key(other)
            &&& known.contains_key(other) ==> after[other] == known[other]
        },
    decreases found.len(),
{
    if found.len() > 0 && forall|i: int|
        0 <= i < found.len() ==> (#[trigger] found[i]).instance != other {
        let before = found.drop_last();
        assert forall|i: int| 0 <= i < before.len() implies (#[trigger] before[i]).instance
            != other by {
            assert(before[i] == found[i]);
        }
        lemma_silent_devices(known, before, other);
        assert(found[found.len() - 1] == found.last());
    }
}

} // verus!
