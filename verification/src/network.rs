//! Local network interfaces: which of them serve for BACnet, and which address to bind to.

use vstd::prelude::*;

use crate::address::Ipv4Addr;
use crate::config::BacnetConfig;
use crate::model::{views, NetworkInterface, NetworkInterfaceView};
use crate::order::{ascending, sorted_unique, strictly_ascending};
use crate::text::chars_of;
use crate::value::{ascii_lower_string, ascii_lower_text};

verus! {

/// Text that begins with another text.
pub open spec fn begins_with(text: Seq<char>, prefix: Seq<char>) -> bool {
    prefix.len() <= text.len() && text.take(prefix.len() as int) == prefix
}

/// The beginnings of the names of interfaces that no BACnet network is on: tunnels, loopbacks
/// and wireless side channels.
pub open spec fn is_excluded_name(lower: Seq<char>) -> bool {
    ||| begins_with(lower, "utun"@)
    ||| begins_with(lower, "ppp"@)
    ||| begins_with(lower, "ipsec"@)
    ||| begins_with(lower, "gif"@)
    ||| begins_with(lower, "stf"@)
    ||| begins_with(lower, "awdl"@)
    ||| begins_with(lower, "llw"@)
    ||| begins_with(lower, "lo"@)
    ||| begins_with(lower, "ap"@)
}

/// Whether an interface is suitable for BACnet/IP discovery: its address is no loopback, no
/// unspecified and no link-local address, and its name is not excluded.
pub open spec fn is_suitable(name: Seq<char>, addr: Ipv4Addr) -> bool {
    &&& addr.a != 127
    &&& !addr.is_any()
    &&& !(addr.a == 169 && addr.b == 254)
    &&& !is_excluded_name(ascii_lower_text(name))
}

pub fn starts_with(chars: &[char], prefix: &str) -> (result: bool)
    ensures
        result == begins_with(chars@, prefix@),
{
    let wanted = chars_of(prefix);
    if wanted.len() > chars.len() {
        return false;
    }
    let mut i: usize = 0;
    while i < wanted.len()
        invariant
            i <= wanted@.len() <= chars@.len(),
            wanted@ == prefix@,
            chars@.take(i as int) == prefix@.take(i as int),
        decreases wanted.len() - i,
    {
        if chars[i] != wanted[i] {
            assert(chars@.take(prefix@.len() as int)[i as int] != prefix@[i as int]);
            return false;
        }
        proof {
            assert(chars@.take(i as int + 1) =~= chars@.take(i as int).push(chars@[i as int]));
            assert(prefix@.take(i as int + 1) =~= prefix@.take(i as int).push(prefix@[i as int]));
        }
        i += 1;
    }
    assert(prefix@.take(prefix@.len() as int) =~= prefix@);
    true
}

/// Returns whether an interface is suitable for BACnet/IP discovery binding.
pub fn is_bacnet_discovery_interface(name: &str, addr: Ipv4Addr) -> (result: bool)
    ensures
        result == is_suitable(name@, addr),
{
    if addr.is_loopback() || addr.is_unspecified() || addr.is_link_local() {
        return false;
    }
    let lower = chars_of(ascii_lower_string(name).as_str());
    let chars = lower.as_slice();
    !(starts_with(chars, "utun") || starts_with(chars, "ppp") || starts_with(chars, "ipsec")
        || starts_with(chars, "gif") || starts_with(chars, "stf") || starts_with(chars, "awdl")
        || starts_with(chars, "llw") || starts_with(chars, "lo") || starts_with(chars, "ap"))
}

/// Whether a text comes before another in the order of code points.
pub open spec fn text_before(left: Seq<char>, right: Seq<char>) -> bool
    decreases left.len(),
{
    if right.len() == 0 {
        false
    } else if left.len() == 0 {
        true
    } else if left[0] != right[0] {
        (left[0] as int) < (right[0] as int)
    } else {
        text_before(left.skip(1), right.skip(1))
    }
}

/// Whether an interface comes before another: by name, then by address.
pub open spec fn interface_before(
    left: NetworkInterfaceView,
    right: NetworkInterfaceView,
) -> bool {
    text_before(left.name, right.name) || (left.name == right.name && left.addr.number()
        < right.addr.number())
}

/// Interfaces in order, none of them twice.
pub open spec fn interfaces_ascending(list: Seq<NetworkInterfaceView>) -> bool {
    forall|i: int, j: int|
        0 <= i < j < list.len() ==> #[trigger] interface_before(list[i], list[j])
}

fn is_lower_code(left: char, right: char) -> (result: bool)
    ensures
        result == ((left as int) < (right as int)),
{
    (left as u32) < (right as u32)
}

fn is_text_before(left: &[char], right: &[char]) -> (result: bool)
    ensures
        result == text_before(left@, right@),
{
    let mut i: usize = 0;
    assert(left@.skip(0) =~= left@ && right@.skip(0) =~= right@);
    while i < left.len() && i < right.len()
        invariant
            i <= left@.len(),
            i <= right@.len(),
            text_before(left@, right@) == text_before(left@.skip(i as int), right@.skip(i as int)),
        decreases left.len() - i,
    {
        if left[i] != right[i] {
            return is_lower_code(left[i], right[i]);
        }
        proof {
            assert(left@.skip(i as int).skip(1) =~= left@.skip(i as int + 1));
            assert(right@.skip(i as int).skip(1) =~= right@.skip(i as int + 1));
        }
        i += 1;
    }
    i < right.len()
}

fn is_interface_before(left: &NetworkInterface, right: &NetworkInterface) -> (result: bool)
    ensures
        result == interface_before(left@, right@),
{
    let left_name = chars_of(left.name.as_str());
    let right_name = chars_of(right.name.as_str());
    is_text_before(left_name.as_slice(), right_name.as_slice()) || (left.name == right.name
        && left.addr.to_bits() < right.addr.to_bits())
}

proof fn lemma_text_before_trichotomy(left: Seq<char>, right: Seq<char>)
    ensures
        text_before(left, right) || text_before(right, left) || left == right,
        !(text_before(left, right) && text_before(right, left)),
        !text_before(left, left),
    decreases left.len(),
{
    if left.len() > 0 && right.len() > 0 && left[0] == right[0] {
        lemma_text_before_trichotomy(left.skip(1), right.skip(1));
        if left.skip(1) == right.skip(1) {
            assert(left =~= seq![left[0]] + left.skip(1));
            assert(right =~= seq![right[0]] + right.skip(1));
        }
    }
    if left.len() == 0 && right.len() == 0 {
        assert(left =~= right);
    }
    if left.len() > 0 {
        lemma_text_not_before_itself(left);
    }
}

proof fn lemma_text_not_before_itself(text: Seq<char>)
    ensures
        !text_before(text, text),
    decreases text.len(),
{
    if text.len() > 0 {
        lemma_text_not_before_itself(text.skip(1));
    }
}

proof fn lemma_text_before_transitive(first: Seq<char>, second: Seq<char>, third: Seq<char>)
    requires
        text_before(first, second),
        text_before(second, third),
    ensures
        text_before(first, third),
    decreases first.len(),
{
    if first.len() > 0 && first[0] == second[0] && second[0] == third[0] {
        lemma_text_before_transitive(first.skip(1), second.skip(1), third.skip(1));
    }
}

proof fn lemma_interface_before_transitive(
    first: NetworkInterfaceView,
    second: NetworkInterfaceView,
    third: NetworkInterfaceView,
)
    requires
        interface_before(first, second),
        interface_before(second, third),
    ensures
        interface_before(first, third),
{
    if text_before(first.name, second.name) && text_before(second.name, third.name) {
        lemma_text_before_transitive(first.name, second.name, third.name);
    }
}

/// Of two different interfaces one comes before the other.
proof fn lemma_interface_trichotomy(left: NetworkInterfaceView, right: NetworkInterfaceView)
    ensures
        interface_before(left, right) || interface_before(right, left) || left == right,
        !interface_before(left, left),
{
    lemma_text_before_trichotomy(left.name, right.name);
    lemma_text_not_before_itself(left.name);
    if left.name == right.name && left.addr.number() == right.addr.number() {
        crate::address::lemma_number_is_unique(left.addr, right.addr);
    }
}

/// Puts an interface in its place, unless it is there already.
fn insert_interface(list: &mut Vec<NetworkInterface>, interface: NetworkInterface)
    requires
        interfaces_ascending(views(old(list)@)),
    ensures
        interfaces_ascending(views(final(list)@)),
        forall|item: NetworkInterfaceView|
            #![trigger views(final(list)@).contains(item)]
            views(final(list)@).contains(item) <==> views(old(list)@).contains(item) || item
                == interface@,
{
    let ghost before = views(list@);
    let ghost new = interface@;
    let mut at: usize = 0;
    while at < list.len() && is_interface_before(&list[at], &interface)
        invariant
            at <= list@.len(),
            views(list@) == before,
            new == interface@,
            forall|i: int| 0 <= i < at ==> interface_before(#[trigger] before[i], new),
        decreases list.len() - at,
    {
        at += 1;
    }
    if at < list.len() && list[at].addr == interface.addr && list[at].name == interface.name {
        proof {
            assert(before[at as int] == new);
            assert(before.contains(new));
        }
    } else {
        list.insert(at, interface);
        proof {
            let after = views(list@);
            assert(after =~= before.insert(at as int, new));
            if at < before.len() {
                lemma_interface_trichotomy(before[at as int], new);
                assert(before[at as int] != new);
            }
            assert forall|i: int, j: int| 0 <= i < j < after.len() implies
                #[trigger] interface_before(after[i], after[j]) by {
                if j < at {
                    assert(interface_before(before[i], before[j]));
                } else if j == at {
                    assert(interface_before(before[i], new));
                } else if i < at {
                    assert(interface_before(before[i], before[j - 1]));
                } else if i == at {
                    assert(interface_before(new, before[at as int]));
                    if j - 1 > at {
                        assert(interface_before(before[at as int], before[j - 1]));
                        lemma_interface_before_transitive(new, before[at as int], before[j - 1]);
                    }
                } else {
                    assert(interface_before(before[i - 1], before[j - 1]));
                }
            }
            assert forall|item: NetworkInterfaceView| #[trigger] after.contains(item) implies
                before.contains(item) || item == new by {
                let i = choose|i: int| 0 <= i < after.len() && after[i] == item;
                if i < at {
                    assert(before[i] == item);
                } else if i > at {
                    assert(before[i - 1] == item);
                }
            }
            assert forall|item: NetworkInterfaceView|
                before.contains(item) || item == new implies #[trigger] after.contains(item) by {
                if before.contains(item) {
                    let i = choose|i: int| 0 <= i < before.len() && before[i] == item;
                    if i < at {
                        assert(after[i] == item);
                    } else {
                        assert(after[i + 1] == item);
                    }
                } else {
                    assert(after[at as int] == item);
                }
            }
        }
    }
}

/// The suitable ones among the interfaces that were found, in order and each once.
pub fn ipv4_interfaces(found: Vec<NetworkInterface>) -> (interfaces: Vec<NetworkInterface>)
    ensures
        interfaces_ascending(views(interfaces@)),
        forall|item: NetworkInterfaceView|
            #![trigger views(interfaces@).contains(item)]
            views(interfaces@).contains(item) <==> views(found@).contains(item) && is_suitable(
                item.name,
                item.addr,
            ),
{
    let mut interfaces: Vec<NetworkInterface> = Vec::new();
    let mut i: usize = 0;
    let ghost all = views(found@);
    while i < found.len()
        invariant
            i <= found@.len(),
            all == views(found@),
            interfaces_ascending(views(interfaces@)),
            forall|item: NetworkInterfaceView|
                #![trigger views(interfaces@).contains(item)]
                views(interfaces@).contains(item) <==> all.take(i as int).contains(item)
                    && is_suitable(item.name, item.addr),
        decreases found.len() - i,
    {
        let ghost before = views(interfaces@);
        if is_bacnet_discovery_interface(found[i].name.as_str(), found[i].addr) {
            insert_interface(&mut interfaces, found[i].clone());
        }
        proof {
            let next = all.take(i as int + 1);
            assert(next[i as int] == found@[i as int]@);
            assert forall|item: NetworkInterfaceView| #[trigger] next.contains(item) <==> (
            all.take(i as int).contains(item) || item == found@[i as int]@) by {
                if next.contains(item) {
                    let k = choose|k: int| 0 <= k < next.len() && next[k] == item;
                    if k < i {
                        assert(all.take(i as int)[k] == item);
                    }
                }
                if all.take(i as int).contains(item) {
                    let k = choose|k: int| 0 <= k < i && all.take(i as int)[k] == item;
                    assert(next[k] == item);
                }
            }
        }
        i += 1;
    }
    assert(all.take(all.len() as int) =~= all);
    interfaces
}

/// The local address for polls and scans: the chosen one, or else that of the first interface,
/// or else any.
pub open spec fn bind_address(
    selected: Option<Ipv4Addr>,
    interfaces: Seq<NetworkInterfaceView>,
) -> Ipv4Addr {
    match selected {
        Some(addr) => addr,
        None => if interfaces.len() > 0 {
            interfaces[0].addr
        } else {
            Ipv4Addr { a: 0, b: 0, c: 0, d: 0 }
        },
    }
}

/// Preferred local IPv4 for poll/scan when the operator has not chosen a bind address.
pub fn resolve_bacnet_bind_address(
    config: &BacnetConfig,
    interfaces: &[NetworkInterface],
) -> (address: Ipv4Addr)
    ensures
        address == bind_address(config.selected_interface, views(interfaces@)),
{
    if let Some(addr) = config.selected_interface {
        return addr;
    }
    if interfaces.len() > 0 {
        return interfaces[0].addr;
    }
    Ipv4Addr::unspecified()
}

/// The numbers of the addresses of interfaces.
pub open spec fn interface_numbers(interfaces: Seq<NetworkInterfaceView>) -> Seq<u32> {
    Seq::new(interfaces.len(), |i: int| interfaces[i].addr.number() as u32)
}

/// The numbers of addresses.
pub open spec fn address_numbers(addresses: Seq<Ipv4Addr>) -> Seq<u32> {
    Seq::new(addresses.len(), |i: int| addresses[i].number() as u32)
}

/// The addresses with these numbers, in the same order.
pub fn addresses_of(numbers: &[u32]) -> (addresses: Vec<Ipv4Addr>)
    ensures
        address_numbers(addresses@) == numbers@,
{
    let mut addresses: Vec<Ipv4Addr> = Vec::new();
    let mut i: usize = 0;
    while i < numbers.len()
        invariant
            i <= numbers@.len(),
            address_numbers(addresses@) == numbers@.take(i as int),
        decreases numbers.len() - i,
    {
        let ghost before = addresses@;
        addresses.push(Ipv4Addr::from_bits(numbers[i]));
        proof {
            assert(address_numbers(addresses@) =~= address_numbers(before).push(
                numbers@[i as int],
            ));
            assert(numbers@.take(i as int + 1) =~= numbers@.take(i as int).push(
                numbers@[i as int],
            ));
        }
        i += 1;
    }
    assert(numbers@.take(numbers@.len() as int) =~= numbers@);
    addresses
}

/// The addresses of interfaces, in ascending order and each once.
pub fn interface_choices(interfaces: &[NetworkInterface]) -> (choices: Vec<Ipv4Addr>)
    ensures
        address_numbers(choices@) == ascending(interface_numbers(views(interfaces@)).to_set()),
        strictly_ascending(address_numbers(choices@)),
        address_numbers(choices@).to_set() == interface_numbers(views(interfaces@)).to_set(),
{
    let mut numbers: Vec<u32> = Vec::new();
    let mut i: usize = 0;
    let ghost all = interface_numbers(views(interfaces@));
    while i < interfaces.len()
        invariant
            i <= interfaces@.len(),
            all == interface_numbers(views(interfaces@)),
            numbers@ == all.take(i as int),
        decreases interfaces.len() - i,
    {
        numbers.push(interfaces[i].addr.to_bits());
        proof {
            assert(all.take(i as int + 1) =~= all.take(i as int).push(all[i as int]));
        }
        i += 1;
    }
    assert(all.take(all.len() as int) =~= all);
    let sorted = sorted_unique(numbers.as_slice());
    addresses_of(sorted.as_slice())
}

} // verus!
