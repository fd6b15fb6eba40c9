//! Discovery: each interface is bound in turn, devices are asked to answer a few times on it, and
//! those that do are collected.

use vstd::prelude::*;

use crate::address::{address_text, Ipv4Addr};
use crate::bacnet::{bip_address, format_bip_mac};
use crate::config::{BacnetConfig, DiscoveryBindFailurePolicy};
use crate::model::{
    views, DiscoverOutcome, DiscoveredDevice, DiscoveredDeviceView, NetworkInterface,
    NetworkInterfaceView,
};
use crate::network::{address_numbers, interface_choices, interface_numbers};
use crate::numerals::{decimal, decimal_text};
use crate::order::ascending;
use crate::text::{opt_text, texts};

verus! {

/// How often devices are asked to answer on each interface.
pub const DISCOVERY_BROADCAST_PASSES: usize = 3;

/// The addresses to discover on: those of all interfaces in ascending order, or any where there
/// are none; or else the chosen address, or any where none is chosen.
pub open spec fn are_targets(
    config: BacnetConfig,
    interfaces: Seq<NetworkInterfaceView>,
    targets: Seq<Ipv4Addr>,
) -> bool {
    if config.discover_all_interfaces {
        if interfaces.len() == 0 {
            targets == seq![Ipv4Addr { a: 0, b: 0, c: 0, d: 0 }]
        } else {
            address_numbers(targets) == ascending(interface_numbers(interfaces).to_set())
        }
    } else {
        match config.selected_interface {
            Some(addr) => targets == seq![addr],
            None => targets == seq![Ipv4Addr { a: 0, b: 0, c: 0, d: 0 }],
        }
    }
}

pub fn target_interfaces(
    config: &BacnetConfig,
    interfaces: &[NetworkInterface],
) -> (targets: Vec<Ipv4Addr>)
    ensures
        are_targets(*config, views(interfaces@), targets@),
{
    if config.discover_all_interfaces {
        if interfaces.len() == 0 {
            let targets = vec![Ipv4Addr::unspecified()];
            assert(targets@ =~= seq![Ipv4Addr { a: 0, b: 0, c: 0, d: 0 }]);
            targets
        } else {
            interface_choices(interfaces)
        }
    } else {
        let address = match config.selected_interface {
            Some(addr) => addr,
            None => Ipv4Addr::unspecified(),
        };
        let targets = vec![address];
        assert(targets@ =~= seq![address]);
        targets
    }
}

/// A device as it answered: its instance, its network address and what it said of itself.
pub open spec fn answering_device(
    instance: u32,
    mac: Seq<u8>,
    vendor_id: u16,
    max_apdu_length: u32,
    last_seen_ms: u128,
) -> DiscoveredDeviceView {
    DiscoveredDeviceView {
        instance,
        address: bip_address(mac),
        vendor_id,
        max_apdu_length,
        last_seen_ms,
    }
}

pub fn discovered_device(
    instance: u32,
    mac: &[u8],
    vendor_id: u16,
    max_apdu_length: u32,
    last_seen_ms: u128,
) -> (device: DiscoveredDevice)
    ensures
        device@ == answering_device(instance, mac@, vendor_id, max_apdu_length, last_seen_ms),
{
    DiscoveredDevice {
        instance,
        address: format_bip_mac(mac),
        vendor_id,
        max_apdu_length,
        last_seen_ms,
    }
}

/// Devices by ascending instance, none of them twice.
pub open spec fn devices_ascending(list: Seq<DiscoveredDeviceView>) -> bool {
    forall|i: int, j: int|
        0 <= i < j < list.len() ==> (#[trigger] list[i]).instance < (#[trigger] list[j]).instance
}

/// The devices of a list by their instance; of several with the same instance, the last.
pub open spec fn devices_by_instance(
    list: Seq<DiscoveredDeviceView>,
) -> Map<u32, DiscoveredDeviceView>
    decreases list.len(),
{
    if list.len() == 0 {
        Map::empty()
    } else {
        devices_by_instance(list.drop_last()).insert(list.last().instance, list.last())
    }
}

/// The devices of a map with those of a list put in after it.
pub open spec fn with_devices(
    known: Map<u32, DiscoveredDeviceView>,
    list: Seq<DiscoveredDeviceView>,
) -> Map<u32, DiscoveredDeviceView>
    decreases list.len(),
{
    if list.len() == 0 {
        known
    } else {
        with_devices(known, list.drop_last()).insert(list.last().instance, list.last())
    }
}

proof fn lemma_devices_lookup(list: Seq<DiscoveredDeviceView>)
    requires
        devices_ascending(list),
    ensures
        forall|instance: u32|
            #![trigger devices_by_instance(list).contains_key(instance)]
            devices_by_instance(list).contains_key(instance) <==> exists|i: int|
                0 <= i < list.len() && (#[trigger] list[i]).instance == instance,
        forall|i: int|
            #![trigger list[i]]
            0 <= i < list.len() ==> devices_by_instance(list).contains_key(list[i].instance)
                && devices_by_instance(list)[list[i].instance] == list[i],
    decreases list.len(),
{
    if list.len() > 0 {
        let shorter = list.drop_last();
        assert(forall|i: int| 0 <= i < shorter.len() ==> shorter[i] == list[i]);
        lemma_devices_lookup(shorter);
        let known = devices_by_instance(list);
        assert forall|instance: u32| #[trigger] known.contains_key(instance) <==> exists|i: int|
            0 <= i < list.len() && (#[trigger] list[i]).instance == instance by {
            if known.contains_key(instance) {
                if instance == list.last().instance {
                    assert(list[list.len() - 1].instance == instance);
                } else {
                    assert(devices_by_instance(shorter).contains_key(instance));
                    let i = choose|i: int|
                        0 <= i < shorter.len() && (#[trigger] shorter[i]).instance == instance;
                    assert(list[i].instance == instance);
                }
            }
            if exists|i: int| 0 <= i < list.len() && (#[trigger] list[i]).instance == instance {
                let i = choose|i: int|
                    0 <= i < list.len() && (#[trigger] list[i]).instance == instance;
                if i < shorter.len() {
                    assert(shorter[i].instance == instance);
                    assert(devices_by_instance(shorter).contains_key(instance));
                }
            }
        }
        assert forall|i: int|
            #![trigger list[i]]
            0 <= i < list.len() implies known.contains_key(list[i].instance)
            && known[list[i].instance] == list[i] by {
            if i < shorter.len() {
                assert(shorter[i] == list[i]);
                assert(list[i].instance < list[list.len() - 1].instance);
            }
        }
    }
}

/// Puts a device in its place, in place of the one with the same instance.
fn insert_device(list: &mut Vec<DiscoveredDevice>, device: DiscoveredDevice)
    requires
        devices_ascending(views(old(list)@)),
    ensures
        devices_ascending(views(final(list)@)),
        devices_by_instance(views(final(list)@)) == devices_by_instance(views(old(list)@)).insert(
            device.instance,
            device@,
        ),
{
    let ghost before = views(list@);
    let ghost new = device@;
    let mut at: usize = 0;
    while at < list.len() && list[at].instance < device.instance
        invariant
            at <= list@.len(),
            views(list@) == before,
            forall|i: int| 0 <= i < at ==> (#[trigger] before[i]).instance < device.instance,
        decreases list.len() - at,
    {
        assert(before[at as int].instance == list@[at as int].instance);
        at += 1;
    }
    if at < list.len() && list[at].instance == device.instance {
        list.set(at, device);
        proof {
            let after = views(list@);
            assert(after =~= before.update(at as int, new));
            assert(before[at as int].instance == new.instance);
            lemma_same_devices(before, after, at as int, new, 0);
        }
    } else {
        list.insert(at, device);
        proof {
            let after = views(list@);
            assert(after =~= before.insert(at as int, new));
            if at < before.len() {
                assert(before[at as int].instance > new.instance);
            }
            lemma_same_devices(before, after, at as int, new, 1);
        }
    }
}

/// Putting a device into an ascending list, over another or between two, is putting it into the
/// map.
proof fn lemma_same_devices(
    before: Seq<DiscoveredDeviceView>,
    after: Seq<DiscoveredDeviceView>,
    at: int,
    device: DiscoveredDeviceView,
    shift: int,
)
    requires
        devices_ascending(before),
        shift == 0 || shift == 1,
        0 <= at <= before.len(),
        shift == 0 ==> at < before.len() && before[at].instance == device.instance && after
            == before.update(at, device),
        shift == 1 ==> after == before.insert(at, device) && (at < before.len() ==> before[at].instance
            > device.instance),
        forall|i: int| 0 <= i < at ==> (#[trigger] before[i]).instance < device.instance,
    ensures
        devices_ascending(after),
        devices_by_instance(after) == devices_by_instance(before).insert(device.instance, device),
{
    assert forall|i: int, j: int| 0 <= i < j < after.len() implies (
    #[trigger] after[i]).instance < (#[trigger] after[j]).instance by {
        let old_i = if i <= at { i } else { i - shift };
        let old_j = if j <= at { j } else { j - shift };
        if i < at && j > at {
            assert(before[i].instance < before[old_j].instance);
        } else if i < at && j < at {
            assert(before[i].instance < before[j].instance);
        } else if i > at {
            assert(before[old_i].instance < before[old_j].instance);
        } else if i == at {
            if shift == 1 && old_j > at {
                assert(before[at].instance < before[old_j].instance);
            } else if shift == 0 {
                assert(before[at].instance < before[old_j].instance);
            }
        }
    }
    lemma_devices_lookup(before);
    lemma_devices_lookup(after);
    let left = devices_by_instance(after);
    let right = devices_by_instance(before).insert(device.instance, device);
    assert(after[at] == device);
    assert forall|instance: u32| left.contains_key(instance) <==> right.contains_key(instance) by {
        if left.contains_key(instance) && instance != device.instance {
            let i = choose|i: int|
                0 <= i < after.len() && (#[trigger] after[i]).instance == instance;
            let old_i = if i <= at { i } else { i - shift };
            assert(before[old_i].instance == instance);
        }
        if devices_by_instance(before).contains_key(instance) && instance != device.instance {
            let i = choose|i: int|
                0 <= i < before.len() && (#[trigger] before[i]).instance == instance;
            let new_i = if i < at { i } else { i + shift };
            assert(after[new_i].instance == instance);
        }
    }
    assert forall|instance: u32| left.contains_key(instance) implies left[instance]
        == right[instance] by {
        let i = choose|i: int| 0 <= i < after.len() && (#[trigger] after[i]).instance == instance;
        assert(left[after[i].instance] == after[i]);
        if instance != device.instance {
            let old_i = if i <= at { i } else { i - shift };
            assert(before[old_i] == after[i]);
        }
    }
    assert(left =~= right);
}

/// A sorted list with one more device, behind all whose instance is not greater.
pub open spec fn placed(
    list: Seq<DiscoveredDeviceView>,
    device: DiscoveredDeviceView,
) -> Seq<DiscoveredDeviceView>
    decreases list.len(),
{
    if list.len() == 0 || list.last().instance <= device.instance {
        list.push(device)
    } else {
        placed(list.drop_last(), device).push(list.last())
    }
}

/// Devices by ascending instance, in the order of the list where instances are equal.
pub open spec fn devices_sorted(list: Seq<DiscoveredDeviceView>) -> Seq<DiscoveredDeviceView>
    decreases list.len(),
{
    if list.len() == 0 {
        list
    } else {
        placed(devices_sorted(list.drop_last()), list.last())
    }
}

/// Puts a device behind all whose instance is not greater.
fn place_device(list: &mut Vec<DiscoveredDevice>, device: DiscoveredDevice)
    ensures
        views(final(list)@) == placed(views(old(list)@), device@),
{
    let ghost before = views(list@);
    let ghost new = device@;
    let mut at: usize = list.len();
    assert(before.take(at as int) =~= before);
    assert(before.skip(at as int) =~= Seq::<DiscoveredDeviceView>::empty());
    assert(placed(before, new) =~= placed(before, new) + before.skip(at as int));
    while at > 0 && list[at - 1].instance > device.instance
        invariant
            at <= list@.len(),
            views(list@) == before,
            new == device@,
            placed(before, new) == placed(before.take(at as int), new) + before.skip(at as int),
        decreases at,
    {
        proof {
            let part = before.take(at as int);
            assert(part.last() == list@[at - 1]@);
            assert(part.drop_last() =~= before.take(at as int - 1));
            assert(placed(part, new) == placed(before.take(at as int - 1), new).push(part.last()));
            assert(placed(before, new) =~= placed(before.take(at as int - 1), new) + before.skip(
                at as int - 1,
            ));
        }
        at -= 1;
    }
    proof {
        let part = before.take(at as int);
        if at > 0 {
            assert(part.last() == list@[at - 1]@);
        }
        assert(placed(part, new) == part.push(new));
        assert(before.insert(at as int, new) =~= part.push(new) + before.skip(at as int));
    }
    list.insert(at, device);
    assert(views(list@) =~= before.insert(at as int, new));
}

/// The devices that are known, by ascending instance.
pub fn collect_discovered_devices(found: &Vec<DiscoveredDevice>) -> (devices: Vec<DiscoveredDevice>)
    ensures
        views(devices@) == devices_sorted(views(found@)),
{
    let mut devices: Vec<DiscoveredDevice> = Vec::new();
    let ghost all = views(found@);
    let mut i: usize = 0;
    assert(all.take(0) =~= Seq::<DiscoveredDeviceView>::empty());
    assert(views(devices@) =~= Seq::<DiscoveredDeviceView>::empty());
    while i < found.len()
        invariant
            i <= found@.len(),
            all == views(found@),
            views(devices@) == devices_sorted(all.take(i as int)),
        decreases found.len() - i,
    {
        proof {
            assert(all.take(i as int + 1).drop_last() =~= all.take(i as int));
            assert(all.take(i as int + 1).last() == found@[i as int]@);
        }
        place_device(&mut devices, found[i].clone());
        i += 1;
    }
    assert(all.take(all.len() as int) =~= all);
    devices
}

proof fn lemma_placed(list: Seq<DiscoveredDeviceView>, device: DiscoveredDeviceView)
    requires
        forall|i: int, j: int|
            0 <= i <= j < list.len() ==> (#[trigger] list[i]).instance <= (
            #[trigger] list[j]).instance,
    ensures
        forall|i: int, j: int|
            0 <= i <= j < placed(list, device).len() ==> (#[trigger] placed(
                list,
                device,
            )[i]).instance <= (#[trigger] placed(list, device)[j]).instance,
        placed(list, device).to_multiset() == list.to_multiset().insert(device),
        forall|i: int|
            0 <= i < placed(list, device).len() ==> (#[trigger] placed(list, device)[i]) == device
                || list.contains(placed(list, device)[i]),
    decreases list.len(),
{
    broadcast use vstd::seq_lib::group_to_multiset_ensures;
    let after = placed(list, device);
    if list.len() == 0 || list.last().instance <= device.instance {
        assert forall|i: int| 0 <= i < after.len() implies (#[trigger] after[i]) == device
            || list.contains(after[i]) by {
            if i < list.len() {
                assert(after[i] == list[i]);
            }
        }
    } else {
        let shorter = list.drop_last();
        assert forall|i: int, j: int| 0 <= i <= j < shorter.len() implies (
        #[trigger] shorter[i]).instance <= (#[trigger] shorter[j]).instance by {
            assert(list[i].instance <= list[j].instance);
        }
        lemma_placed(shorter, device);
        let before = placed(shorter, device);
        let last = list.last();
        assert(list =~= shorter.push(last));
        assert(after.to_multiset() =~= list.to_multiset().insert(device));
        assert forall|i: int| 0 <= i < before.len() implies (#[trigger] before[i]).instance
            <= last.instance by {
            if before[i] != device {
                let k = choose|k: int| 0 <= k < shorter.len() && shorter[k] == before[i];
                assert(list[k].instance <= list[list.len() - 1].instance);
            }
        }
        assert forall|i: int, j: int| 0 <= i <= j < after.len() implies (
        #[trigger] after[i]).instance <= (#[trigger] after[j]).instance by {
            if j < before.len() {
                assert(before[i].instance <= before[j].instance);
            } else if i < before.len() {
                assert(before[i].instance <= last.instance);
            }
        }
        assert forall|i: int| 0 <= i < after.len() implies (#[trigger] after[i]) == device
            || list.contains(after[i]) by {
            if i < before.len() {
                assert(after[i] == before[i]);
                if before[i] != device {
                    let k = choose|k: int| 0 <= k < shorter.len() && shorter[k] == before[i];
                    assert(list[k] == after[i]);
                }
            } else {
                assert(list[list.len() - 1] == after[i]);
            }
        }
    }
}

/// Sorting devices loses none and adds none, and leaves them by ascending instance.
pub proof fn law_devices_are_sorted(list: Seq<DiscoveredDeviceView>)
    ensures
        devices_sorted(list).to_multiset() == list.to_multiset(),
        forall|i: int, j: int|
            0 <= i <= j < devices_sorted(list).len() ==> (#[trigger] devices_sorted(
                list,
            )[i]).instance <= (#[trigger] devices_sorted(list)[j]).instance,
    decreases list.len(),
{
    broadcast use vstd::seq_lib::group_to_multiset_ensures;
    if list.len() > 0 {
        law_devices_are_sorted(list.drop_last());
        lemma_placed(devices_sorted(list.drop_last()), list.last());
        assert(list =~= list.drop_last().push(list.last()));
    }
}

fn insert_devices(list: &mut Vec<DiscoveredDevice>, found: &Vec<DiscoveredDevice>)
    requires
        devices_ascending(views(old(list)@)),
    ensures
        devices_ascending(views(final(list)@)),
        devices_by_instance(views(final(list)@)) == with_devices(
            devices_by_instance(views(old(list)@)),
            views(found@),
        ),
{
    let ghost all = views(found@);
    let ghost start = devices_by_instance(views(list@));
    let mut i: usize = 0;
    assert(all.take(0) =~= Seq::<DiscoveredDeviceView>::empty());
    while i < found.len()
        invariant
            i <= found@.len(),
            all == views(found@),
            devices_ascending(views(list@)),
            devices_by_instance(views(list@)) == with_devices(start, all.take(i as int)),
        decreases found.len() - i,
    {
        proof {
            assert(all.take(i as int + 1).drop_last() =~= all.take(i as int));
            assert(all.take(i as int + 1).last() == found@[i as int]@);
        }
        insert_device(list, found[i].clone());
        i += 1;
    }
    assert(all.take(all.len() as int) =~= all);
}

/// What to do next while devices are being discovered.
#[derive(Debug, PartialEq, Eq)]
pub enum DiscoveryAction {
    /// Start a client on this address.
    Bind(Ipv4Addr),
    /// Ask all devices to answer, wait for the discovery window, and collect those that did.
    Broadcast,
    /// Stop the client; whether that worked matters or not.
    Stop { checked: bool },
    /// Take the outcome.
    Finish,
    /// Discovery failed.
    Fail(String),
}

/// The contents of a [`DiscoveryAction`].
#[verifier::ext_equal]
pub enum DiscoveryActionView {
    Bind(Ipv4Addr),
    Broadcast,
    Stop { checked: bool },
    Finish,
    Fail(Seq<char>),
}

impl View for DiscoveryAction {
    type V = DiscoveryActionView;

    open spec fn view(&self) -> DiscoveryActionView {
        match *self {
            DiscoveryAction::Bind(address) => DiscoveryActionView::Bind(address),
            DiscoveryAction::Broadcast => DiscoveryActionView::Broadcast,
            DiscoveryAction::Stop { checked } => DiscoveryActionView::Stop { checked },
            DiscoveryAction::Finish => DiscoveryActionView::Finish,
            DiscoveryAction::Fail(message) => DiscoveryActionView::Fail(message@),
        }
    }
}

/// The state of a discovery.
#[derive(Debug)]
pub struct Discovery {
    pub strict: bool,
    pub targets: Vec<Ipv4Addr>,
    /// The place of the address that is being discovered on.
    pub at: usize,
    /// How often devices were asked to answer on it.
    pub pass: usize,
    /// Whether any of these requests was sent.
    pub any_pass_sent: bool,
    /// Whether a client was started on any address.
    pub bound_any: bool,
    /// Why the discovery has failed, while the client is still to be stopped.
    pub failing: Option<String>,
    pub devices: Vec<DiscoveredDevice>,
    pub warnings: Vec<String>,
}

/// The contents of a [`Discovery`].
#[verifier::ext_equal]
pub struct DiscoveryView {
    pub strict: bool,
    pub targets: Seq<Ipv4Addr>,
    pub at: usize,
    pub pass: usize,
    pub any_pass_sent: bool,
    pub bound_any: bool,
    pub failing: Option<Seq<char>>,
    pub devices: Map<u32, DiscoveredDeviceView>,
    pub warnings: Seq<Seq<char>>,
}

impl View for Discovery {
    type V = DiscoveryView;

    open spec fn view(&self) -> DiscoveryView {
        DiscoveryView {
            strict: self.strict,
            targets: self.targets@,
            at: self.at,
            pass: self.pass,
            any_pass_sent: self.any_pass_sent,
            bound_any: self.bound_any,
            failing: opt_text(self.failing),
            devices: devices_by_instance(views(self.devices@)),
            warnings: texts(self.warnings@),
        }
    }
}

/// What is said where no client could be started.
pub open spec fn nothing_bound() -> Seq<char> {
    "discovery did not bind on any interface; check BACnet port conflicts and interface selection"@
}

/// The next address to discover on, or the end.
pub open spec fn discovery_next(state: DiscoveryView) -> DiscoveryActionView {
    if state.at < state.targets.len() {
        DiscoveryActionView::Bind(state.targets[state.at as int])
    } else if state.bound_any {
        DiscoveryActionView::Finish
    } else {
        DiscoveryActionView::Fail(nothing_bound())
    }
}

/// What is said where a client could not be started.
pub open spec fn bind_warning(address: Ipv4Addr, error: Seq<char>) -> Seq<char> {
    "failed to start BACnet client on "@ + address_text(address) + ": "@ + error
}

/// After an attempt to start a client.
pub open spec fn discovery_bound(
    state: DiscoveryView,
    error: Option<Seq<char>>,
) -> (DiscoveryView, DiscoveryActionView) {
    match error {
        None => (
            DiscoveryView { bound_any: true, any_pass_sent: false, pass: 0, ..state },
            DiscoveryActionView::Broadcast,
        ),
        Some(text) => {
            let message = bind_warning(state.targets[state.at as int], text);
            if state.strict {
                (state, DiscoveryActionView::Fail(message))
            } else {
                let after = DiscoveryView {
                    warnings: state.warnings.push(message),
                    at: (state.at + 1) as usize,
                    ..state
                };
                (after, discovery_next(after))
            }
        },
    }
}

/// What follows a request to answer: another one, or the end of this address.
pub open spec fn discovery_next_pass(state: DiscoveryView) -> DiscoveryActionView {
    if state.pass < DISCOVERY_BROADCAST_PASSES {
        DiscoveryActionView::Broadcast
    } else {
        DiscoveryActionView::Stop { checked: state.any_pass_sent }
    }
}

/// After a request to answer was sent, and devices have answered.
pub open spec fn discovery_heard(
    state: DiscoveryView,
    found: Seq<DiscoveredDeviceView>,
) -> (DiscoveryView, DiscoveryActionView) {
    let after = DiscoveryView {
        any_pass_sent: true,
        pass: (state.pass + 1) as usize,
        devices: with_devices(state.devices, found),
        ..state
    };
    (after, discovery_next_pass(after))
}

/// What is said where a request to answer could not be sent.
pub open spec fn pass_warning(pass: usize, address: Ipv4Addr, error: Seq<char>) -> Seq<char> {
    "Who-Is pass "@ + decimal((pass + 1) as nat) + " failed on "@ + address_text(address) + ": "@
        + error
}

/// After a request to answer could not be sent.
pub open spec fn discovery_pass_failed(
    state: DiscoveryView,
    error: Seq<char>,
) -> (DiscoveryView, DiscoveryActionView) {
    let message = pass_warning(state.pass, state.targets[state.at as int], error);
    if state.strict {
        (
            DiscoveryView { failing: Some(message), ..state },
            DiscoveryActionView::Stop { checked: false },
        )
    } else {
        let after = DiscoveryView {
            warnings: state.warnings.push(message),
            pass: (state.pass + 1) as usize,
            ..state
        };
        (after, discovery_next_pass(after))
    }
}

/// After the client was stopped, or could not be where that matters.
pub open spec fn discovery_stopped(
    state: DiscoveryView,
    error: Option<Seq<char>>,
) -> (DiscoveryView, DiscoveryActionView) {
    match state.failing {
        Some(message) => (state, DiscoveryActionView::Fail(message)),
        None => if state.any_pass_sent && error is Some {
            (state, DiscoveryActionView::Fail(error->Some_0))
        } else {
            let after = DiscoveryView { at: (state.at + 1) as usize, ..state };
            (after, discovery_next(after))
        },
    }
}

impl Discovery {
    /// What holds of every discovery.
    pub open spec fn well_formed(&self) -> bool {
        devices_ascending(views(self.devices@))
    }

    pub fn start(config: &BacnetConfig, interfaces: &[NetworkInterface]) -> (state: Discovery)
        ensures
            state.well_formed(),
            are_targets(*config, views(interfaces@), state@.targets),
            state@ == (DiscoveryView {
                strict: config.discovery_bind_failure_policy == DiscoveryBindFailurePolicy::Strict,
                targets: state@.targets,
                at: 0,
                pass: 0,
                any_pass_sent: false,
                bound_any: false,
                failing: None,
                devices: Map::empty(),
                warnings: Seq::empty(),
            }),
    {
        let state = Discovery {
            strict: config.discovery_bind_failure_policy == DiscoveryBindFailurePolicy::Strict,
            targets: target_interfaces(config, interfaces),
            at: 0,
            pass: 0,
            any_pass_sent: false,
            bound_any: false,
            failing: None,
            devices: Vec::new(),
            warnings: Vec::new(),
        };
        assert(views(state.devices@) =~= Seq::<DiscoveredDeviceView>::empty());
        assert(texts(state.warnings@) =~= Seq::<Seq<char>>::empty());
        state
    }

    /// The next address to discover on, or the end.
    pub fn next(&self) -> (action: DiscoveryAction)
        ensures
            action@ == discovery_next(self@),
    {
        if self.at < self.targets.len() {
            DiscoveryAction::Bind(self.targets[self.at])
        } else if self.bound_any {
            DiscoveryAction::Finish
        } else {
            DiscoveryAction::Fail(
                "discovery did not bind on any interface; check BACnet port conflicts and interface selection".to_string(),
            )
        }
    }

    fn next_pass(&self) -> (action: DiscoveryAction)
        ensures
            action@ == discovery_next_pass(self@),
    {
        if self.pass < DISCOVERY_BROADCAST_PASSES {
            DiscoveryAction::Broadcast
        } else {
            DiscoveryAction::Stop { checked: self.any_pass_sent }
        }
    }

    fn warn(&mut self, message: String)
        requires
            old(self).well_formed(),
        ensures
            final(self).well_formed(),
            final(self)@ == (DiscoveryView {
                warnings: old(self)@.warnings.push(message@),
                ..old(self)@
            }),
    {
        let ghost before = self.warnings@;
        self.warnings.push(message);
        assert(texts(self.warnings@) =~= texts(before).push(message@));
    }

    /// To be called after an attempt to start a client, with the error where it failed.
    pub fn bound(&mut self, error: Option<String>) -> (action: DiscoveryAction)
        requires
            old(self).well_formed(),
            old(self).at < old(self).targets@.len(),
        ensures
            final(self).well_formed(),
            (final(self)@, action@) == discovery_bound(old(self)@, opt_text(error)),
    {
        match error {
            None => {
                self.bound_any = true;
                self.any_pass_sent = false;
                self.pass = 0;
                DiscoveryAction::Broadcast
            },
            Some(text) => {
                let count: usize = self.targets.len();
                let mut message = "failed to start BACnet client on ".to_string();
                message.append(self.targets[self.at].to_text().as_str());
                message.append(": ");
                message.append(text.as_str());
                if self.strict {
                    return DiscoveryAction::Fail(message);
                }
                self.warn(message);
                self.at = self.at + 1;
                self.next()
            },
        }
    }

    /// To be called with the devices that have answered a request.
    pub fn heard(&mut self, found: Vec<DiscoveredDevice>) -> (action: DiscoveryAction)
        requires
            old(self).well_formed(),
            old(self).pass < DISCOVERY_BROADCAST_PASSES,
        ensures
            final(self).well_formed(),
            (final(self)@, action@) == discovery_heard(old(self)@, views(found@)),
    {
        self.any_pass_sent = true;
        self.pass = self.pass + 1;
        insert_devices(&mut self.devices, &found);
        self.next_pass()
    }

    /// To be called where a request could not be sent.
    pub fn pass_failed(&mut self, error: &str) -> (action: DiscoveryAction)
        requires
            old(self).well_formed(),
            old(self).at < old(self).targets@.len(),
            old(self).pass < DISCOVERY_BROADCAST_PASSES,
        ensures
            final(self).well_formed(),
            (final(self)@, action@) == discovery_pass_failed(old(self)@, error@),
    {
        let mut message = "Who-Is pass ".to_string();
        message.append(decimal_text(self.pass as u64 + 1).as_str());
        message.append(" failed on ");
        message.append(self.targets[self.at].to_text().as_str());
        message.append(": ");
        message.append(error);
        if self.strict {
            self.failing = Some(message);
            return DiscoveryAction::Stop { checked: false };
        }
        self.warn(message);
        self.pass = self.pass + 1;
        self.next_pass()
    }

    /// To be called after the client was stopped, with the error where that failed.
    pub fn stopped(&mut self, error: Option<String>) -> (action: DiscoveryAction)
        requires
            old(self).well_formed(),
            old(self).at < old(self).targets@.len(),
        ensures
            final(self).well_formed(),
            (final(self)@, action@) == discovery_stopped(old(self)@, opt_text(error)),
    {
        let count: usize = self.targets.len();
        if let Some(message) = &self.failing {
            return DiscoveryAction::Fail(message.clone());
        }
        if self.any_pass_sent {
            if let Some(text) = error {
                return DiscoveryAction::Fail(text);
            }
        }
        self.at = self.at + 1;
        self.next()
    }

    /// The devices that were found, by ascending instance, and the warnings.
    pub fn outcome(self) -> (outcome: DiscoverOutcome)
        requires
            self.well_formed(),
        ensures
            devices_ascending(outcome@.devices),
            devices_by_instance(outcome@.devices) == self@.devices,
            outcome@.warnings == self@.warnings,
    {
        DiscoverOutcome { devices: self.devices, warnings: self.warnings }
    }
}

/// Where no interface may be left out, a client that cannot be started or a request that cannot
/// be sent makes the discovery fail, and nothing is only warned of; otherwise it is warned of and
/// the discovery goes on.
pub proof fn law_strictness(state: DiscoveryView, error: Seq<char>)
    requires
        state.at < state.targets.len() <= usize::MAX,
        state.pass < DISCOVERY_BROADCAST_PASSES,
    ensures
        state.strict ==> {
            &&& discovery_bound(state, Some(error)).1 is Fail
            &&& discovery_bound(state, Some(error)).0.warnings == state.warnings
            &&& discovery_pass_failed(state, error).0.warnings == state.warnings
            &&& discovery_stopped(discovery_pass_failed(state, error).0, None).1 is Fail
        },
        !state.strict ==> {
            &&& discovery_bound(state, Some(error)).0.warnings.len() == state.warnings.len() + 1
            &&& discovery_pass_failed(state, error).0.warnings.len() == state.warnings.len() + 1
            &&& discovery_pass_failed(state, error).1 !is Fail
        },
{
}

/// A discovery that was never able to start a client fails, and one that was finishes, once all
/// addresses are done.
pub proof fn law_discovery_needs_a_client(state: DiscoveryView)
    requires
        state.at >= state.targets.len(),
    ensures
        discovery_next(state) is Finish <==> state.bound_any,
        discovery_next(state) == DiscoveryActionView::Fail(nothing_bound()) <==> !state.bound_any,
{
}

/// Devices that were found once stay found; a later answer replaces an earlier one.
pub proof fn law_found_devices_stay(
    known: Map<u32, DiscoveredDeviceView>,
    found: Seq<DiscoveredDeviceView>,
    instance: u32,
)
    ensures
        known.contains_key(instance) ==> with_devices(known, found).contains_key(instance),
        found.len() > 0 ==> with_devices(known, found).contains_key(found.last().instance)
            && with_devices(known, found)[found.last().instance] == found.last(),
    decreases found.len(),
{
    if found.len() > 0 {
        law_found_devices_stay(known, found.drop_last(), instance);
    }
}

} // verus!
