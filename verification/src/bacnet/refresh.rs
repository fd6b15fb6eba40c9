//! Finding the addresses of devices: a broadcast to all, then requests for those that are still
//! missing.

use std::collections::HashSet;
use vstd::prelude::*;

use crate::numerals::{decimal, decimal_text, number_list, number_list_text};
use crate::order::{ascending, sorted_unique, strictly_ascending};

verus! {

/// How often the devices that are missing are asked for.
pub const REFRESH_TARGETED_PASSES: usize = 2;

/// How many devices one request asks for at most.
pub const REFRESH_TARGETED_CHUNK_SIZE: usize = 25;

/// How long devices have to answer a request.
pub const REFRESH_TARGETED_WAIT_MS: u64 = 1000;

/// How many devices a warning lists at most.
pub const WARNING_MAX_LIST: usize = 10;

/// Which of the requested devices were found.
#[derive(Debug, Default, PartialEq, Eq)]
pub struct RefreshOutcome {
    pub resolved: Vec<u32>,
    pub unresolved: Vec<u32>,
}

/// The contents of a [`RefreshOutcome`].
#[verifier::ext_equal]
pub struct RefreshOutcomeView {
    pub resolved: Seq<u32>,
    pub unresolved: Seq<u32>,
}

impl View for RefreshOutcome {
    type V = RefreshOutcomeView;

    open spec fn view(&self) -> RefreshOutcomeView {
        RefreshOutcomeView { resolved: self.resolved@, unresolved: self.unresolved@ }
    }
}

impl Clone for RefreshOutcome {
    fn clone(&self) -> (result: Self)
        ensures
            result@ == self@,
    {
        let resolved = self.resolved.clone();
        let unresolved = self.unresolved.clone();
        assert(resolved@ =~= self.resolved@);
        assert(unresolved@ =~= self.unresolved@);
        RefreshOutcome { resolved, unresolved }
    }
}

/// The device instances in ascending order, each once.
pub fn normalize_device_instances(device_instances: &[u32]) -> (instances: Vec<u32>)
    ensures
        instances@ == ascending(device_instances@.to_set()),
        strictly_ascending(instances@),
        instances@.to_set() == device_instances@.to_set(),
{
    sorted_unique(device_instances)
}

/// The number of chunks that a list of some length makes.
pub open spec fn chunk_count(length: nat) -> nat {
    ((length + REFRESH_TARGETED_CHUNK_SIZE - 1) / REFRESH_TARGETED_CHUNK_SIZE as int) as nat
}

/// The last place of a chunk.
pub open spec fn chunk_end(length: nat, chunk: int) -> int {
    let full = (chunk + 1) * REFRESH_TARGETED_CHUNK_SIZE - 1;
    if full < length {
        full
    } else {
        length - 1
    }
}

/// The first and the last number of each chunk of an ascending list.
pub open spec fn chunk_ranges(sorted: Seq<u32>) -> Seq<(u32, u32)> {
    Seq::new(
        chunk_count(sorted.len()),
        |chunk: int|
            (sorted[chunk * REFRESH_TARGETED_CHUNK_SIZE], sorted[chunk_end(sorted.len(), chunk)]),
    )
}

pub fn device_instance_ranges(device_instances: &[u32]) -> (ranges: Vec<(u32, u32)>)
    ensures
        ranges@ == chunk_ranges(ascending(device_instances@.to_set())),
{
    let sorted = normalize_device_instances(device_instances);
    let mut ranges: Vec<(u32, u32)> = Vec::new();
    let mut from: usize = 0;
    while from < sorted.len()
        invariant
            from == ranges@.len() * REFRESH_TARGETED_CHUNK_SIZE || from == sorted@.len(),
            from <= sorted@.len(),
            from == sorted@.len() ==> ranges@.len() == chunk_count(sorted@.len()),
            ranges@.len() <= chunk_count(sorted@.len()),
            forall|i: int|
                0 <= i < ranges@.len() ==> #[trigger] ranges@[i] == chunk_ranges(sorted@)[i],
        decreases sorted.len() - from,
    {
        let left: usize = sorted.len() - from;
        let size: usize = if left < REFRESH_TARGETED_CHUNK_SIZE {
            left
        } else {
            REFRESH_TARGETED_CHUNK_SIZE
        };
        let last: usize = from + size - 1;
        proof {
            assert(chunk_end(sorted@.len(), ranges@.len() as int) == last);
        }
        ranges.push((sorted[from], sorted[last]));
        from = from + size;
    }
    assert(ranges@ =~= chunk_ranges(sorted@));
    ranges
}

/// The requested devices that are not among the missing ones, and those that are.
pub open spec fn partition(requested: Seq<u32>, missing: Set<u32>) -> RefreshOutcomeView
    decreases requested.len(),
{
    if requested.len() == 0 {
        RefreshOutcomeView { resolved: Seq::empty(), unresolved: Seq::empty() }
    } else {
        let before = partition(requested.drop_last(), missing);
        if missing.contains(requested.last()) {
            RefreshOutcomeView { unresolved: before.unresolved.push(requested.last()), ..before }
        } else {
            RefreshOutcomeView { resolved: before.resolved.push(requested.last()), ..before }
        }
    }
}

/// The numbers of a list as a set.
pub fn set_of(list: &[u32]) -> (set: HashSet<u32>)
    ensures
        set@ == list@.to_set(),
{
    broadcast use vstd::std_specs::hash::group_hash_axioms;
    let mut set: HashSet<u32> = HashSet::new();
    let mut i: usize = 0;
    assert(set@ =~= list@.take(0).to_set());
    while i < list.len()
        invariant
            i <= list@.len(),
            set@ == list@.take(i as int).to_set(),
        decreases list.len() - i,
    {
        let _ = set.insert(list[i]);
        proof {
            crate::order::lemma_take_set(list@, i as int);
        }
        i += 1;
    }
    assert(list@.take(list@.len() as int) =~= list@);
    set
}

pub fn partition_refresh_outcome(requested: &[u32], unresolved: &[u32]) -> (outcome: RefreshOutcome)
    ensures
        outcome@ == partition(requested@, unresolved@.to_set()),
{
    broadcast use vstd::std_specs::hash::group_hash_axioms;
    let missing = set_of(unresolved);
    let mut outcome = RefreshOutcome { resolved: Vec::new(), unresolved: Vec::new() };
    let mut i: usize = 0;
    assert(requested@.take(0) =~= Seq::<u32>::empty());
    while i < requested.len()
        invariant
            i <= requested@.len(),
            missing@ == unresolved@.to_set(),
            outcome@ == partition(requested@.take(i as int), unresolved@.to_set()),
        decreases requested.len() - i,
    {
        proof {
            assert(requested@.take(i as int + 1).drop_last() =~= requested@.take(i as int));
        }
        if missing.contains(&requested[i]) {
            outcome.unresolved.push(requested[i]);
        } else {
            outcome.resolved.push(requested[i]);
        }
        i += 1;
    }
    assert(requested@.take(requested@.len() as int) =~= requested@);
    outcome
}

/// What is said of devices that were not found.
pub open spec fn unresolved_warning(unresolved: Seq<u32>) -> Seq<char> {
    if unresolved.len() <= WARNING_MAX_LIST {
        decimal(unresolved.len()) + " device(s) unresolved (not in I-Am cache): "@ + number_list(
            unresolved,
        )
    } else {
        decimal(unresolved.len()) + " device(s) unresolved (not in I-Am cache); first 10: "@
            + number_list(unresolved.take(WARNING_MAX_LIST as int))
    }
}

pub fn format_unresolved_warning(unresolved: &[u32]) -> (text: String)
    ensures
        text@ == unresolved_warning(unresolved@),
{
    let mut text = decimal_text(unresolved.len() as u64);
    if unresolved.len() <= WARNING_MAX_LIST {
        text.append(" device(s) unresolved (not in I-Am cache): ");
        text.append(number_list_text(unresolved).as_str());
    } else {
        let head = vstd::slice::slice_subrange(unresolved, 0, WARNING_MAX_LIST);
        assert(head@ =~= unresolved@.take(WARNING_MAX_LIST as int));
        text.append(" device(s) unresolved (not in I-Am cache); first 10: ");
        text.append(number_list_text(head).as_str());
    }
    text
}

/// What to do next while devices are being found.
#[derive(Debug, Clone, Copy, PartialEq, Eq, Structural)]
pub enum RefreshAction {
    /// Ask all devices to answer, then wait.
    Broadcast { wait_ms: u64 },
    /// Ask the devices of a range to answer, then wait.
    Targeted { low: u32, high: u32, wait_ms: u64 },
    /// Look up which of the requested devices have answered.
    Lookup,
    /// Take the outcome.
    Finish,
}

/// The state of finding devices.
#[derive(Debug)]
pub struct DeviceRefresh {
    pub requested: Vec<u32>,
    pub unresolved: Vec<u32>,
    pub window_ms: u64,
    pub passes: usize,
    pub ranges: Vec<(u32, u32)>,
    pub next_range: usize,
}

/// The contents of a [`DeviceRefresh`].
#[verifier::ext_equal]
pub struct DeviceRefreshView {
    pub requested: Seq<u32>,
    pub unresolved: Seq<u32>,
    pub window_ms: u64,
    pub passes: usize,
    pub ranges: Seq<(u32, u32)>,
    pub next_range: usize,
}

impl View for DeviceRefresh {
    type V = DeviceRefreshView;

    open spec fn view(&self) -> DeviceRefreshView {
        DeviceRefreshView {
            requested: self.requested@,
            unresolved: self.unresolved@,
            window_ms: self.window_ms,
            passes: self.passes,
            ranges: self.ranges@,
            next_range: self.next_range,
        }
    }
}

/// The state before anything was sent.
pub open spec fn refresh_start(window_ms: u64, instances: Seq<u32>) -> DeviceRefreshView {
    DeviceRefreshView {
        requested: ascending(instances.to_set()),
        unresolved: Seq::empty(),
        window_ms,
        passes: 0,
        ranges: Seq::empty(),
        next_range: 0,
    }
}

/// The first thing to do: a broadcast, unless no device is requested.
pub open spec fn refresh_first(state: DeviceRefreshView) -> RefreshAction {
    if state.requested.len() == 0 {
        RefreshAction::Finish
    } else {
        RefreshAction::Broadcast { wait_ms: state.window_ms }
    }
}

/// What follows a request: the request for the next range, or a look at who has answered.
pub open spec fn refresh_sent(state: DeviceRefreshView) -> (DeviceRefreshView, RefreshAction) {
    if state.next_range < state.ranges.len() {
        (
            DeviceRefreshView { next_range: (state.next_range + 1) as usize, ..state },
            RefreshAction::Targeted {
                low: state.ranges[state.next_range as int].0,
                high: state.ranges[state.next_range as int].1,
                wait_ms: REFRESH_TARGETED_WAIT_MS,
            },
        )
    } else {
        (state, RefreshAction::Lookup)
    }
}

/// The requested devices that are not known.
pub open spec fn unknown_of(requested: Seq<u32>, known: Seq<bool>) -> Seq<u32>
    decreases requested.len(),
{
    if requested.len() == 0 {
        Seq::empty()
    } else {
        let before = unknown_of(requested.drop_last(), known.drop_last());
        if known.last() {
            before
        } else {
            before.push(requested.last())
        }
    }
}

/// What follows a look at who has answered: the end where all have or all passes are done, and
/// otherwise requests for those that are missing.
pub open spec fn refresh_looked_up(
    state: DeviceRefreshView,
    known: Seq<bool>,
) -> (DeviceRefreshView, RefreshAction) {
    let unresolved = unknown_of(state.requested, known);
    if unresolved.len() == 0 || state.passes >= REFRESH_TARGETED_PASSES {
        (DeviceRefreshView { unresolved, ..state }, RefreshAction::Finish)
    } else {
        refresh_sent(
            DeviceRefreshView {
                unresolved,
                passes: (state.passes + 1) as usize,
                ranges: chunk_ranges(ascending(unresolved.to_set())),
                next_range: 0,
                ..state
            },
        )
    }
}

fn unresolved_device_instances(requested: &Vec<u32>, known: &Vec<bool>) -> (unresolved: Vec<u32>)
    requires
        known@.len() == requested@.len(),
    ensures
        unresolved@ == unknown_of(requested@, known@),
{
    let mut unresolved: Vec<u32> = Vec::new();
    let mut i: usize = 0;
    assert(requested@.take(0) =~= Seq::<u32>::empty());
    while i < requested.len()
        invariant
            i <= requested@.len(),
            known@.len() == requested@.len(),
            unresolved@ == unknown_of(requested@.take(i as int), known@.take(i as int)),
        decreases requested.len() - i,
    {
        proof {
            assert(requested@.take(i as int + 1).drop_last() =~= requested@.take(i as int));
            assert(known@.take(i as int + 1).drop_last() =~= known@.take(i as int));
        }
        if !known[i] {
            unresolved.push(requested[i]);
        }
        i += 1;
    }
    assert(requested@.take(requested@.len() as int) =~= requested@);
    assert(known@.take(known@.len() as int) =~= known@);
    unresolved
}

impl DeviceRefresh {
    pub fn start(discovery_window_ms: u64, device_instances: &[u32]) -> (state: DeviceRefresh)
        ensures
            state@ == refresh_start(discovery_window_ms, device_instances@),
    {
        DeviceRefresh {
            requested: normalize_device_instances(device_instances),
            unresolved: Vec::new(),
            window_ms: discovery_window_ms,
            passes: 0,
            ranges: Vec::new(),
            next_range: 0,
        }
    }

    pub fn first(&self) -> (action: RefreshAction)
        ensures
            action == refresh_first(self@),
    {
        if self.requested.len() == 0 {
            RefreshAction::Finish
        } else {
            RefreshAction::Broadcast { wait_ms: self.window_ms }
        }
    }

    /// To be called when a request was sent and its time to answer has passed.
    pub fn sent(&mut self) -> (action: RefreshAction)
        ensures
            (final(self)@, action) == refresh_sent(old(self)@),
    {
        if self.next_range < self.ranges.len() {
            let range = self.ranges[self.next_range];
            self.next_range = self.next_range + 1;
            RefreshAction::Targeted {
                low: range.0,
                high: range.1,
                wait_ms: REFRESH_TARGETED_WAIT_MS,
            }
        } else {
            RefreshAction::Lookup
        }
    }

    /// To be called with whether each of the requested devices is known by now.
    pub fn looked_up(&mut self, known: &Vec<bool>) -> (action: RefreshAction)
        requires
            known@.len() == old(self).requested@.len(),
        ensures
            (final(self)@, action) == refresh_looked_up(old(self)@, known@),
    {
        self.unresolved = unresolved_device_instances(&self.requested, known);
        if self.unresolved.len() == 0 || self.passes >= REFRESH_TARGETED_PASSES {
            RefreshAction::Finish
        } else {
            self.passes = self.passes + 1;
            self.ranges = device_instance_ranges(self.unresolved.as_slice());
            self.next_range = 0;
            self.sent()
        }
    }

    pub fn outcome(&self) -> (outcome: RefreshOutcome)
        ensures
            outcome@ == partition(self.requested@, self.unresolved@.to_set()),
    {
        partition_refresh_outcome(self.requested.as_slice(), self.unresolved.as_slice())
    }
}

/// The ranges cover every device that is asked for, no range asks for more than the chunk size,
/// and each begins and ends at a device that is asked for.
pub proof fn law_ranges_cover_devices(sorted: Seq<u32>, at: int)
    requires
        strictly_ascending(sorted),
        0 <= at < sorted.len(),
    ensures
        ({
            let chunk = at / REFRESH_TARGETED_CHUNK_SIZE as int;
            &&& 0 <= chunk < chunk_ranges(sorted).len()
            &&& chunk_ranges(sorted)[chunk].0 <= sorted[at] <= chunk_ranges(sorted)[chunk].1
            &&& chunk_end(sorted.len(), chunk) - chunk * REFRESH_TARGETED_CHUNK_SIZE
                < REFRESH_TARGETED_CHUNK_SIZE
        }),
{
    let chunk = at / REFRESH_TARGETED_CHUNK_SIZE as int;
    assert(chunk * 25 <= at < (chunk + 1) * 25);
    assert(chunk < chunk_count(sorted.len()));
    assert(chunk_ranges(sorted)[chunk].0 == sorted[chunk * 25]);
    assert(chunk_ranges(sorted)[chunk].1 == sorted[chunk_end(sorted.len(), chunk)]);
}

/// Each requested device is either resolved or unresolved, and nothing else is.
pub proof fn law_partition_is_complete(requested: Seq<u32>, missing: Set<u32>, device: u32)
    ensures
        partition(requested, missing).resolved.contains(device) <==> requested.contains(device)
            && !missing.contains(device),
        partition(requested, missing).unresolved.contains(device) <==> requested.contains(device)
            && missing.contains(device),
        partition(requested, missing).resolved.len() + partition(requested, missing).unresolved.len()
            == requested.len(),
    decreases requested.len(),
{
    if requested.len() > 0 {
        let shorter = requested.drop_last();
        let last = requested.last();
        law_partition_is_complete(shorter, missing, device);
        let before = partition(shorter, missing);
        let after = partition(requested, missing);
        crate::order::lemma_push_contains(shorter, last, device);
        crate::order::lemma_push_contains(before.resolved, last, device);
        crate::order::lemma_push_contains(before.unresolved, last, device);
        assert(requested =~= shorter.push(last));
    }
}

/// How far a refresh still has to go: each action but the last brings it nearer to its end.
pub open spec fn refresh_left(state: DeviceRefreshView) -> (int, int) {
    (
        REFRESH_TARGETED_PASSES - state.passes,
        state.ranges.len() - state.next_range,
    )
}

/// A refresh ends: a look at who has answered ends it or starts one of a bounded number of
/// passes, and within a pass each request leaves one range less.
pub proof fn law_refresh_ends(state: DeviceRefreshView, known: Seq<bool>)
    requires
        state.passes <= REFRESH_TARGETED_PASSES,
        state.next_range <= state.ranges.len() <= usize::MAX,
    ensures
        ({
            let (after, action) = refresh_sent(state);
            action is Targeted ==> refresh_left(after).0 == refresh_left(state).0
                && 0 <= refresh_left(after).1 < refresh_left(state).1
        }),
        ({
            let (after, action) = refresh_looked_up(state, known);
            action !is Finish ==> 0 <= refresh_left(after).0 < refresh_left(state).0
        }),
{
}

/// A device is asked for only as long as it is missing, and every missing device is asked for in
/// the pass that follows.
pub proof fn law_missing_devices_are_asked_for(state: DeviceRefreshView, known: Seq<bool>)
    requires
        known.len() == state.requested.len(),
        state.passes < REFRESH_TARGETED_PASSES,
        unknown_of(state.requested, known).len() > 0,
        strictly_ascending(state.requested),
    ensures
        refresh_looked_up(state, known).0.ranges == chunk_ranges(
            unknown_of(state.requested, known),
        ),
        refresh_looked_up(state, known).1 is Targeted,
{
    let unresolved = unknown_of(state.requested, known);
    lemma_unknown_ascending(state.requested, known);
    crate::order::lemma_ascending_is(unresolved, unresolved.to_set());
}

proof fn lemma_unknown_ascending(requested: Seq<u32>, known: Seq<bool>)
    requires
        strictly_ascending(requested),
        known.len() == requested.len(),
    ensures
        strictly_ascending(unknown_of(requested, known)),
        forall|i: int|
            0 <= i < unknown_of(requested, known).len() ==> requested.contains(
                #[trigger] unknown_of(requested, known)[i],
            ),
    decreases requested.len(),
{
    if requested.len() > 0 {
        let shorter = requested.drop_last();
        lemma_unknown_ascending(shorter, known.drop_last());
        let before = unknown_of(shorter, known.drop_last());
        let after = unknown_of(requested, known);
        assert forall|i: int| 0 <= i < before.len() implies #[trigger] before[i]
            < requested.last() && requested.contains(before[i]) by {
            let k = choose|k: int| 0 <= k < shorter.len() && shorter[k] == before[i];
            assert(requested[k] == before[i]);
        }
        assert(requested.contains(requested.last()));
    }
}

} // verus!
