//! Reading points: which requests they make, how these are grouped by device, and what comes of
//! the replies.

use std::collections::HashSet;
use vstd::prelude::*;

use crate::bacnet::refresh::{format_unresolved_warning, set_of, unresolved_warning};
use crate::bacnet::{ObjectIdentifier, MAX_INSTANCE};
use crate::config::MqttConfig;
use crate::model::{
    lemma_views_push, now_millis, point_display_name, views, PointConfig, PointConfigView,
    PointFailure, PointFailureView, PointSample, PointSampleView, PollOutcome, PollOutcomeView,
    TelemetryValue, TelemetryValueView,
};
use crate::numerals::{decimal, decimal_text};
use crate::text::{opt_text, texts};
use crate::topic::{point_topic, telemetry_topic};
use crate::value::{
    decode_scalar_value, object_type_from_text, property_identifier_from_text, property_of_text,
    scalar_of, type_of_text, PropertyIdentifier,
};

verus! {

/// The property that is read for a point.
#[derive(Debug, PartialEq, Eq)]
pub struct PollRequest {
    pub point: PointConfig,
    pub object_identifier: ObjectIdentifier,
    pub property_identifier: PropertyIdentifier,
}

/// The contents of a [`PollRequest`].
#[verifier::ext_equal]
pub struct PollRequestView {
    pub point: PointConfigView,
    pub object_identifier: ObjectIdentifier,
    pub property_identifier: PropertyIdentifier,
}

impl View for PollRequest {
    type V = PollRequestView;

    open spec fn view(&self) -> PollRequestView {
        PollRequestView {
            point: self.point@,
            object_identifier: self.object_identifier,
            property_identifier: self.property_identifier,
        }
    }
}

impl Clone for PollRequest {
    fn clone(&self) -> (result: Self)
        ensures
            result == *self,
    {
        PollRequest {
            point: self.point.clone(),
            object_identifier: self.object_identifier,
            property_identifier: self.property_identifier,
        }
    }
}

/// The request that a point makes, or why it makes none.
pub open spec fn request_of(point: PointConfigView) -> Result<PollRequestView, Seq<char>> {
    match type_of_text(point.object_type) {
        None => Err("unknown BACnet object type '"@ + point.object_type + "'"@),
        Some(object_type) => match property_of_text(point.property) {
            None => Err("unknown BACnet property '"@ + point.property + "'"@),
            Some(property_identifier) => if point.object_instance > MAX_INSTANCE {
                Err("invalid object identifier"@)
            } else {
                Ok(
                    PollRequestView {
                        point,
                        object_identifier: ObjectIdentifier {
                            object_type,
                            instance: point.object_instance,
                        },
                        property_identifier,
                    },
                )
            },
        },
    }
}

impl PollRequest {
    pub fn from_point(point: PointConfig) -> (result: Result<Self, String>)
        ensures
            match result {
                Ok(request) => request_of(point@) == Ok::<PollRequestView, Seq<char>>(request@),
                Err(message) => request_of(point@) == Err::<PollRequestView, Seq<char>>(message@),
            },
    {
        let object_type = match object_type_from_text(point.object_type.as_str()) {
            Some(object_type) => object_type,
            None => {
                let mut message = "unknown BACnet object type '".to_string();
                message.append(point.object_type.as_str());
                message.append("'");
                return Err(message);
            },
        };
        let property_identifier = match property_identifier_from_text(point.property.as_str()) {
            Some(property_identifier) => property_identifier,
            None => {
                let mut message = "unknown BACnet property '".to_string();
                message.append(point.property.as_str());
                message.append("'");
                return Err(message);
            },
        };
        match ObjectIdentifier::new(object_type, point.object_instance) {
            Ok(object_identifier) => Ok(
                PollRequest { point, object_identifier, property_identifier },
            ),
            Err(_) => Err("invalid object identifier".to_string()),
        }
    }
}

/// The requests to one device.
#[derive(Debug, PartialEq, Eq)]
pub struct DeviceGroup {
    pub device_instance: u32,
    pub requests: Vec<PollRequest>,
}

/// The contents of a [`DeviceGroup`].
#[verifier::ext_equal]
pub struct DeviceGroupView {
    pub device_instance: u32,
    pub requests: Seq<PollRequestView>,
}

impl View for DeviceGroup {
    type V = DeviceGroupView;

    open spec fn view(&self) -> DeviceGroupView {
        DeviceGroupView {
            device_instance: self.device_instance,
            requests: views(self.requests@),
        }
    }
}

/// What to read for a set of points, and the points that cannot be read.
#[derive(Debug, PartialEq, Eq)]
pub struct PollPlan {
    pub groups: Vec<DeviceGroup>,
    pub failures: Vec<PointFailure>,
}

/// The contents of a [`PollPlan`].
#[verifier::ext_equal]
pub struct PollPlanView {
    pub groups: Seq<DeviceGroupView>,
    pub failures: Seq<PointFailureView>,
}

impl View for PollPlan {
    type V = PollPlanView;

    open spec fn view(&self) -> PollPlanView {
        PollPlanView {
            groups: views(self.groups@),
            failures: views(self.failures@),
        }
    }
}

/// The place of the group of a device.
pub open spec fn group_at(groups: Seq<DeviceGroupView>, device: u32) -> Option<int>
    decreases groups.len(),
{
    if groups.len() == 0 {
        None
    } else {
        match group_at(groups.drop_last(), device) {
            Some(at) => Some(at),
            None => if groups.last().device_instance == device {
                Some(groups.len() - 1)
            } else {
                None
            },
        }
    }
}

/// Groups with one more request: in the group of its device, or else in a new group.
pub open spec fn grouped(
    groups: Seq<DeviceGroupView>,
    device: u32,
    request: PollRequestView,
) -> Seq<DeviceGroupView> {
    match group_at(groups, device) {
        Some(at) => groups.update(
            at,
            DeviceGroupView { requests: groups[at].requests.push(request), ..groups[at] },
        ),
        None => groups.push(
            DeviceGroupView { device_instance: device, requests: seq![request] },
        ),
    }
}

/// What to read for points: the enabled ones that make a request, by device, and the failures of
/// those that make none.
pub open spec fn poll_plan(points: Seq<PointConfigView>) -> PollPlanView
    decreases points.len(),
{
    if points.len() == 0 {
        PollPlanView { groups: Seq::empty(), failures: Seq::empty() }
    } else {
        let before = poll_plan(points.drop_last());
        let point = points.last();
        if !point.enabled {
            before
        } else {
            match request_of(point) {
                Ok(request) => PollPlanView {
                    groups: grouped(before.groups, point.device_instance, request),
                    ..before
                },
                Err(error) => PollPlanView {
                    failures: before.failures.push(PointFailureView { point, error }),
                    ..before
                },
            }
        }
    }
}

pub proof fn lemma_group_at(groups: Seq<DeviceGroupView>, device: u32)
    ensures
        match group_at(groups, device) {
            Some(at) => 0 <= at < groups.len() && groups[at].device_instance == device,
            None => forall|i: int|
                0 <= i < groups.len() ==> (#[trigger] groups[i]).device_instance != device,
        },
    decreases groups.len(),
{
    if groups.len() > 0 {
        lemma_group_at(groups.drop_last(), device);
        if group_at(groups, device) is None {
            assert forall|i: int| 0 <= i < groups.len() implies (
            #[trigger] groups[i]).device_instance != device by {
                if i < groups.len() - 1 {
                    assert(groups.drop_last()[i] == groups[i]);
                }
            }
        }
    }
}

proof fn lemma_group_at_first(groups: Seq<DeviceGroupView>, device: u32, count: int)
    requires
        0 <= count <= groups.len(),
        group_at(groups.take(count), device) is Some,
    ensures
        group_at(groups, device) == group_at(groups.take(count), device),
    decreases groups.len(),
{
    if count == groups.len() {
        assert(groups.take(count) =~= groups);
    } else {
        assert(groups.drop_last().take(count) =~= groups.take(count));
        lemma_group_at_first(groups.drop_last(), device, count);
    }
}

fn find_group(groups: &Vec<DeviceGroup>, device: u32) -> (found: Option<usize>)
    ensures
        match found {
            Some(at) => group_at(views(groups@), device) == Some(at as int),
            None => group_at(views(groups@), device) is None,
        },
{
    let ghost all = views(groups@);
    let mut i: usize = 0;
    while i < groups.len()
        invariant
            i <= groups@.len(),
            all == views(groups@),
            group_at(all.take(i as int), device) is None,
        decreases groups.len() - i,
    {
        proof {
            assert(all.take(i as int + 1).drop_last() =~= all.take(i as int));
        }
        if groups[i].device_instance == device {
            proof {
                lemma_group_at_first(all, device, i as int + 1);
            }
            return Some(i);
        }
        i += 1;
    }
    assert(all.take(all.len() as int) =~= all);
    None
}

/// Adds a request to the group of its device.
fn add_request(groups: &mut Vec<DeviceGroup>, device: u32, request: PollRequest)
    ensures
        views(final(groups)@) == grouped(views(old(groups)@), device, request@),
{
    broadcast use lemma_views_push;
    let ghost before = views(groups@);
    match find_group(groups, device) {
        Some(at) => {
            proof {
                lemma_group_at(before, device);
            }
            let mut group = groups.remove(at);
            let ghost requests_before = views(group.requests@);
            group.requests.push(request);
            groups.insert(at, group);
            assert(views(groups@) =~= grouped(before, device, request@));
        },
        None => {
            let mut requests: Vec<PollRequest> = Vec::new();
            requests.push(request);
            assert(views(requests@) =~= seq![request@]);
            groups.push(DeviceGroup { device_instance: device, requests });
        },
    }
}

/// What to read for points.
pub fn plan_poll(points: &[PointConfig]) -> (plan: PollPlan)
    ensures
        plan@ == poll_plan(views(points@)),
{
    broadcast use lemma_views_push;
    let mut groups: Vec<DeviceGroup> = Vec::new();
    let mut failures: Vec<PointFailure> = Vec::new();
    let ghost all = views(points@);
    let mut i: usize = 0;
    assert(all.take(0) =~= Seq::<PointConfigView>::empty());
    assert(views(groups@) =~= Seq::<DeviceGroupView>::empty());
    assert(views(failures@) =~= Seq::<PointFailureView>::empty());
    while i < points.len()
        invariant
            i <= points@.len(),
            all == views(points@),
            (PollPlanView { groups: views(groups@), failures: views(failures@) }) == poll_plan(
                all.take(i as int),
            ),
        decreases points.len() - i,
    {
        proof {
            assert(all.take(i as int + 1).drop_last() =~= all.take(i as int));
            assert(all.take(i as int + 1).last() == points@[i as int]@);
        }
        if points[i].enabled {
            match PollRequest::from_point(points[i].clone()) {
                Ok(request) => add_request(&mut groups, points[i].device_instance, request),
                Err(error) => failures.push(PointFailure { point: points[i].clone(), error }),
            }
        }
        i += 1;
    }
    assert(all.take(all.len() as int) =~= all);
    PollPlan { groups, failures }
}

/// One property of a reply to a request for several; it has no value where the device refused it.
#[derive(Debug, PartialEq, Eq)]
pub struct ReadResult {
    pub object_identifier: ObjectIdentifier,
    pub property_identifier: PropertyIdentifier,
    pub value: Option<Vec<u8>>,
}

/// The contents of a [`ReadResult`].
#[verifier::ext_equal]
pub struct ReadResultView {
    pub object_identifier: ObjectIdentifier,
    pub property_identifier: PropertyIdentifier,
    pub value: Option<Seq<u8>>,
}

impl View for ReadResult {
    type V = ReadResultView;

    open spec fn view(&self) -> ReadResultView {
        ReadResultView {
            object_identifier: self.object_identifier,
            property_identifier: self.property_identifier,
            value: match self.value {
                Some(bytes) => Some(bytes@),
                None => None,
            },
        }
    }
}

/// A sample of a point.
pub open spec fn sample_of(
    prefix: Seq<char>,
    point: PointConfigView,
    value: TelemetryValueView,
    timestamp_ms: i64,
) -> PointSampleView {
    PointSampleView { point, value, topic: point_topic(prefix, point), timestamp_ms }
}

/// A sample of a point.
pub fn sample_at(
    mqtt: &MqttConfig,
    point: &PointConfig,
    value: TelemetryValue,
    timestamp_ms: i64,
) -> (sample: PointSample)
    ensures
        sample@ == sample_of(mqtt@.topic_prefix, point@, value@, timestamp_ms),
{
    PointSample { point: point.clone(), topic: telemetry_topic(mqtt, point), value, timestamp_ms }
}

/// The first request that a result answers, by its place.
pub open spec fn answered(requests: Seq<PollRequestView>, result: ReadResultView) -> Option<int>
    decreases requests.len(),
{
    if requests.len() == 0 {
        None
    } else {
        match answered(requests.drop_last(), result) {
            Some(at) => Some(at),
            None => {
                let request = requests.last();
                if request.object_identifier == result.object_identifier
                    && request.property_identifier == result.property_identifier {
                    Some(requests.len() - 1)
                } else {
                    None
                }
            },
        }
    }
}

/// The values that a reply holds, each with the place of the request that it answers, or why the
/// reply cannot be used.
pub open spec fn reply_values(
    requests: Seq<PollRequestView>,
    results: Seq<ReadResultView>,
) -> Result<Seq<(int, TelemetryValueView)>, Seq<char>>
    decreases results.len(),
{
    if results.len() == 0 {
        Ok(Seq::empty())
    } else {
        match reply_values(requests, results.drop_last()) {
            Err(message) => Err(message),
            Ok(before) => {
                let result = results.last();
                match (answered(requests, result), result.value) {
                    (Some(at), Some(bytes)) => match scalar_of(bytes) {
                        Ok(value) => Ok(before.push((at, value))),
                        Err(error) => Err(
                            "failed to decode "@ + point_display_name(requests[at].point) + ": "@
                                + error.message(),
                        ),
                    },
                    _ => Ok(before),
                }
            },
        }
    }
}

/// The places of the requests that were answered.
pub open spec fn answered_places(values: Seq<(int, TelemetryValueView)>) -> Set<int>
    decreases values.len(),
{
    if values.len() == 0 {
        Set::empty()
    } else {
        answered_places(values.drop_last()).insert(values.last().0)
    }
}

/// Why a reply to a request for several properties cannot be used, if so: a value cannot be
/// decoded, or a request was not answered.
pub open spec fn reply_error(
    requests: Seq<PollRequestView>,
    results: Seq<ReadResultView>,
) -> Option<Seq<char>> {
    match reply_values(requests, results) {
        Err(message) => Some(message),
        Ok(values) => {
            let count = answered_places(values).len();
            if count == requests.len() {
                None
            } else {
                Some(
                    "RPM returned "@ + decimal(count) + " of "@ + decimal(requests.len())
                        + " requested properties"@,
                )
            }
        },
    }
}

/// Samples of values, each at its own time.
pub open spec fn samples_of(
    prefix: Seq<char>,
    requests: Seq<PollRequestView>,
    values: Seq<(int, TelemetryValueView)>,
    times: Seq<i64>,
) -> Seq<PointSampleView> {
    Seq::new(
        values.len(),
        |i: int| sample_of(prefix, requests[values[i].0].point, values[i].1, times[i]),
    )
}

/// The times of samples.
pub open spec fn sample_times(samples: Seq<PointSampleView>) -> Seq<i64> {
    Seq::new(samples.len(), |i: int| samples[i].timestamp_ms)
}

/// Whether these can be readings of the clock, which are not before the Unix epoch.
pub open spec fn are_times(times: Seq<i64>) -> bool {
    forall|i: int| 0 <= i < times.len() ==> #[trigger] times[i] >= 0
}

proof fn lemma_answered(requests: Seq<PollRequestView>, result: ReadResultView)
    ensures
        match answered(requests, result) {
            Some(at) => 0 <= at < requests.len(),
            None => true,
        },
    decreases requests.len(),
{
    if requests.len() > 0 {
        lemma_answered(requests.drop_last(), result);
    }
}

proof fn lemma_answered_first(
    requests: Seq<PollRequestView>,
    result: ReadResultView,
    count: int,
)
    requires
        0 <= count <= requests.len(),
        answered(requests.take(count), result) is Some,
    ensures
        answered(requests, result) == answered(requests.take(count), result),
    decreases requests.len(),
{
    if count == requests.len() {
        assert(requests.take(count) =~= requests);
    } else {
        assert(requests.drop_last().take(count) =~= requests.take(count));
        lemma_answered_first(requests.drop_last(), result, count);
    }
}

fn find_answered(requests: &Vec<PollRequest>, result: &ReadResult) -> (found: Option<usize>)
    ensures
        match found {
            Some(at) => answered(views(requests@), result@) == Some(at as int) && at
                < requests@.len(),
            None => answered(views(requests@), result@) is None,
        },
{
    let ghost all = views(requests@);
    let mut i: usize = 0;
    while i < requests.len()
        invariant
            i <= requests@.len(),
            all == views(requests@),
            answered(all.take(i as int), result@) is None,
        decreases requests.len() - i,
    {
        proof {
            assert(all.take(i as int + 1).drop_last() =~= all.take(i as int));
        }
        if requests[i].object_identifier == result.object_identifier
            && requests[i].property_identifier == result.property_identifier {
            proof {
                lemma_answered_first(all, result@, i as int + 1);
            }
            return Some(i);
        }
        i += 1;
    }
    assert(all.take(all.len() as int) =~= all);
    None
}

proof fn lemma_reply_error_stays(
    requests: Seq<PollRequestView>,
    results: Seq<ReadResultView>,
    count: int,
)
    requires
        0 <= count <= results.len(),
        reply_values(requests, results.take(count)) is Err,
    ensures
        reply_values(requests, results) == reply_values(requests, results.take(count)),
    decreases results.len(),
{
    if count == results.len() {
        assert(results.take(count) =~= results);
    } else {
        assert(results.drop_last().take(count) =~= results.take(count));
        lemma_reply_error_stays(requests, results.drop_last(), count);
    }
}

/// The places as the set holds them, and as the proof counts them.
pub open spec fn places(set: Set<usize>) -> Set<int> {
    set.map(|place: usize| place as int)
}

proof fn lemma_places_insert(set: Set<usize>, place: usize)
    ensures
        places(set.insert(place)) == places(set).insert(place as int),
{
    let to_int = |place: usize| place as int;
    assert forall|other: int| places(set.insert(place)).contains(other) <==> #[trigger] places(
        set,
    ).insert(place as int).contains(other) by {
        if places(set.insert(place)).contains(other) {
            let item = choose|item: usize|
                set.insert(place).contains(item) && other == to_int(item);
            if item != place {
                assert(set.contains(item) && other == to_int(item));
            }
        }
        if places(set).contains(other) {
            let item = choose|item: usize| set.contains(item) && other == to_int(item);
            assert(set.insert(place).contains(item) && other == to_int(item));
        }
        if other == place as int {
            assert(set.insert(place).contains(place) && other == to_int(place));
        }
    }
    assert(places(set.insert(place)) =~= places(set).insert(place as int));
}

proof fn lemma_places_len(set: Set<usize>)
    requires
        set.finite(),
    ensures
        places(set).finite(),
        places(set).len() == set.len(),
{
    let to_int = |place: usize| place as int;
    set.lemma_map_finite(to_int);
    assert(vstd::relations::injective(to_int));
    vstd::set_lib::lemma_map_size(set, places(set), to_int);
}

/// The samples that a reply to a request for several properties gives, or why it gives none.
pub fn rpm_samples(
    mqtt: &MqttConfig,
    requests: &Vec<PollRequest>,
    results: &Vec<ReadResult>,
) -> (outcome: Result<Vec<PointSample>, String>)
    ensures
        match outcome {
            Ok(samples) => {
                &&& reply_error(views(requests@), views(results@)) is None
                &&& views(samples@) == samples_of(
                    mqtt@.topic_prefix,
                    views(requests@),
                    reply_values(views(requests@), views(results@))->Ok_0,
                    sample_times(views(samples@)),
                )
                &&& are_times(sample_times(views(samples@)))
            },
            Err(message) => reply_error(views(requests@), views(results@)) == Some(message@),
        },
{
    broadcast use lemma_views_push;
    broadcast use vstd::std_specs::hash::group_hash_axioms;
    let ghost asked = views(requests@);
    let ghost all = views(results@);
    let ghost prefix = mqtt@.topic_prefix;
    let ghost mut values: Seq<(int, TelemetryValueView)> = Seq::empty();
    let mut samples: Vec<PointSample> = Vec::new();
    let mut seen: HashSet<usize> = HashSet::new();
    let mut i: usize = 0;
    proof {
        assert(all.take(0) =~= Seq::<ReadResultView>::empty());
        assert(places(seen@) =~= Set::<int>::empty());
        assert(views(samples@) =~= samples_of(
            prefix,
            asked,
            values,
            sample_times(views(samples@)),
        ));
    }
    while i < results.len()
        invariant
            i <= results@.len(),
            asked == views(requests@),
            all == views(results@),
            prefix == mqtt@.topic_prefix,
            reply_values(asked, all.take(i as int)) == Ok::<
                Seq<(int, TelemetryValueView)>,
                Seq<char>,
            >(values),
            places(seen@) == answered_places(values),
            seen@.finite(),
            views(samples@) == samples_of(prefix, asked, values, sample_times(views(samples@))),
            are_times(sample_times(views(samples@))),
        decreases results.len() - i,
    {
        proof {
            assert(all.take(i as int + 1).drop_last() =~= all.take(i as int));
            assert(all.take(i as int + 1).last() == results@[i as int]@);
            lemma_answered(asked, results@[i as int]@);
        }
        if let Some(at) = find_answered(requests, &results[i]) {
            if let Some(bytes) = &results[i].value {
                match decode_scalar_value(bytes.as_slice()) {
                    Ok(value) => {
                        let ghost seen_before = seen@;
                        let ghost samples_before = views(samples@);
                        let ghost values_before = values;
                        let _ = seen.insert(at);
                        let sample = sample_at(mqtt, &requests[at].point, value, now_millis());
                        let ghost sampled = sample@;
                        samples.push(sample);
                        proof {
                            lemma_places_insert(seen_before, at);
                            values = values.push((at as int, value@));
                            assert(values.drop_last() =~= values_before);
                            assert(views(samples@) =~= samples_before.push(sampled));
                            assert(sample_times(views(samples@)) =~= sample_times(
                                samples_before,
                            ).push(sampled.timestamp_ms));
                            assert forall|k: int| 0 <= k < values.len() implies #[trigger] views(
                                samples@,
                            )[k] == samples_of(
                                prefix,
                                asked,
                                values,
                                sample_times(views(samples@)),
                            )[k] by {
                                if k < values_before.len() {
                                    assert(samples_before[k] == samples_of(
                                        prefix,
                                        asked,
                                        values_before,
                                        sample_times(samples_before),
                                    )[k]);
                                }
                            }
                            assert(views(samples@) =~= samples_of(
                                prefix,
                                asked,
                                values,
                                sample_times(views(samples@)),
                            ));
                        }
                    },
                    Err(error) => {
                        let mut message = "failed to decode ".to_string();
                        message.append(requests[at].point.display_name().as_str());
                        message.append(": ");
                        message.append(error.to_text().as_str());
                        proof {
                            lemma_reply_error_stays(asked, all, i as int + 1);
                        }
                        return Err(message);
                    },
                }
            }
        }
        i += 1;
    }
    proof {
        assert(all.take(all.len() as int) =~= all);
        lemma_places_len(seen@);
    }
    if seen.len() != requests.len() {
        let mut message = "RPM returned ".to_string();
        message.append(decimal_text(seen.len() as u64).as_str());
        message.append(" of ");
        message.append(decimal_text(requests.len() as u64).as_str());
        message.append(" requested properties");
        return Err(message);
    }
    Ok(samples)
}

/// What to do next while a device is being read.
#[derive(Debug, Clone, Copy, PartialEq, Eq, Structural)]
pub enum GroupAction {
    /// Ask for all properties in one request.
    ReadMultiple,
    /// Ask for the property of the request at this place.
    ReadOne(usize),
    /// Take the result.
    Finish,
}

/// What came of reading one device.
#[derive(Debug, PartialEq, Eq)]
pub struct GroupResult {
    pub warning: Option<String>,
    pub samples: Vec<PointSample>,
    pub failures: Vec<PointFailure>,
}

/// The contents of a [`GroupResult`].
#[verifier::ext_equal]
pub struct GroupResultView {
    pub warning: Option<Seq<char>>,
    pub samples: Seq<PointSampleView>,
    pub failures: Seq<PointFailureView>,
}

impl View for GroupResult {
    type V = GroupResultView;

    open spec fn view(&self) -> GroupResultView {
        GroupResultView {
            warning: opt_text(self.warning),
            samples: views(self.samples@),
            failures: views(self.failures@),
        }
    }
}

/// The state of reading one device: all properties are asked for in one request, and one by one
/// where that fails.
#[derive(Debug)]
pub struct GroupPoll {
    pub device_instance: u32,
    pub requests: Vec<PollRequest>,
    pub result: GroupResult,
    pub next: usize,
}

/// The contents of a [`GroupPoll`].
#[verifier::ext_equal]
pub struct GroupPollView {
    pub device_instance: u32,
    pub requests: Seq<PollRequestView>,
    pub result: GroupResultView,
    pub next: usize,
}

impl View for GroupPoll {
    type V = GroupPollView;

    open spec fn view(&self) -> GroupPollView {
        GroupPollView {
            device_instance: self.device_instance,
            requests: views(self.requests@),
            result: self.result@,
            next: self.next,
        }
    }
}

/// Before anything was read.
pub open spec fn group_start(group: DeviceGroupView) -> GroupPollView {
    GroupPollView {
        device_instance: group.device_instance,
        requests: group.requests,
        result: GroupResultView {
            warning: None,
            samples: Seq::empty(),
            failures: Seq::empty(),
        },
        next: 0,
    }
}

/// The next single request, unless all are done or the poll was cancelled.
pub open spec fn group_next(state: GroupPollView, cancelled: bool) -> GroupAction {
    if state.next < state.requests.len() && !cancelled {
        GroupAction::ReadOne(state.next)
    } else {
        GroupAction::Finish
    }
}

/// What is said where the request for several properties failed.
pub open spec fn fallback_warning(device: u32, error: Seq<char>) -> Seq<char> {
    "RPM failed for device "@ + decimal(device as nat) + "; used fallback: "@ + error
}

/// What a reply to the request for all properties came to: why it cannot be used, if so.
pub open spec fn group_reply_error(
    requests: Seq<PollRequestView>,
    reply: Result<Seq<ReadResultView>, Seq<char>>,
) -> Option<Seq<char>> {
    match reply {
        Ok(results) => reply_error(requests, results),
        Err(message) => Some(message),
    }
}

/// After the request for all properties: its samples, taken at the given times, or a warning.
pub open spec fn group_after_multiple(
    state: GroupPollView,
    prefix: Seq<char>,
    reply: Result<Seq<ReadResultView>, Seq<char>>,
    times: Seq<i64>,
) -> GroupPollView {
    match group_reply_error(state.requests, reply) {
        None => GroupPollView {
            result: GroupResultView {
                samples: samples_of(
                    prefix,
                    state.requests,
                    reply_values(state.requests, reply->Ok_0)->Ok_0,
                    times,
                ),
                ..state.result
            },
            ..state
        },
        Some(message) => GroupPollView {
            result: GroupResultView {
                warning: Some(fallback_warning(state.device_instance, message)),
                ..state.result
            },
            next: 0,
            ..state
        },
    }
}

/// The value that a reply to a single request holds, or why it holds none.
pub open spec fn single_value(
    reply: Result<Seq<u8>, Seq<char>>,
) -> Result<TelemetryValueView, Seq<char>> {
    match reply {
        Ok(bytes) => match scalar_of(bytes) {
            Ok(value) => Ok(value),
            Err(error) => Err(error.message()),
        },
        Err(message) => Err(message),
    }
}

/// After a single request: one more sample, taken at the given time, or one more failure.
pub open spec fn group_after_single(
    state: GroupPollView,
    prefix: Seq<char>,
    reply: Result<Seq<u8>, Seq<char>>,
    time: i64,
) -> GroupPollView {
    let point = state.requests[state.next as int].point;
    GroupPollView {
        result: match single_value(reply) {
            Ok(value) => GroupResultView {
                samples: state.result.samples.push(sample_of(prefix, point, value, time)),
                ..state.result
            },
            Err(error) => GroupResultView {
                failures: state.result.failures.push(PointFailureView { point, error }),
                ..state.result
            },
        },
        next: (state.next + 1) as usize,
        ..state
    }
}

/// The contents of a reply to the request for all properties.
pub open spec fn multiple_reply(
    reply: Result<Vec<ReadResult>, String>,
) -> Result<Seq<ReadResultView>, Seq<char>> {
    match reply {
        Ok(results) => Ok(views(results@)),
        Err(message) => Err(message@),
    }
}

/// The contents of a reply to a single request.
pub open spec fn single_reply(
    reply: Result<Vec<u8>, String>,
) -> Result<Seq<u8>, Seq<char>> {
    match reply {
        Ok(bytes) => Ok(bytes@),
        Err(message) => Err(message@),
    }
}

impl GroupPoll {
    pub fn start(group: DeviceGroup) -> (state: GroupPoll)
        ensures
            state@ == group_start(group@),
    {
        let state = GroupPoll {
            device_instance: group.device_instance,
            requests: group.requests,
            result: GroupResult { warning: None, samples: Vec::new(), failures: Vec::new() },
            next: 0,
        };
        assert(state@ =~= group_start(group@));
        state
    }

    /// The first thing to do: nothing where the poll was cancelled already.
    pub fn first(&self, cancelled: bool) -> (action: GroupAction)
        ensures
            action == if cancelled {
                GroupAction::Finish
            } else {
                GroupAction::ReadMultiple
            },
    {
        if cancelled {
            GroupAction::Finish
        } else {
            GroupAction::ReadMultiple
        }
    }

    fn next_single(&self, cancelled: bool) -> (action: GroupAction)
        ensures
            action == group_next(self@, cancelled),
    {
        if self.next < self.requests.len() && !cancelled {
            GroupAction::ReadOne(self.next)
        } else {
            GroupAction::Finish
        }
    }

    /// To be called with the reply to the request for all properties.
    pub fn multiple_read(
        &mut self,
        mqtt: &MqttConfig,
        reply: Result<Vec<ReadResult>, String>,
        cancelled: bool,
    ) -> (action: GroupAction)
        ensures
            final(self)@ == group_after_multiple(
                old(self)@,
                mqtt@.topic_prefix,
                multiple_reply(reply),
                sample_times(final(self)@.result.samples),
            ),
            group_reply_error(old(self)@.requests, multiple_reply(reply)) is None ==> are_times(
                sample_times(final(self)@.result.samples),
            ),
            action == match group_reply_error(old(self)@.requests, multiple_reply(reply)) {
                None => GroupAction::Finish,
                Some(_) => group_next(final(self)@, cancelled),
            },
    {
        let outcome = match &reply {
            Ok(results) => rpm_samples(mqtt, &self.requests, results),
            Err(message) => Err(message.clone()),
        };
        match outcome {
            Ok(samples) => {
                self.result.samples = samples;
                GroupAction::Finish
            },
            Err(message) => {
                let mut warning = "RPM failed for device ".to_string();
                warning.append(decimal_text(self.device_instance as u64).as_str());
                warning.append("; used fallback: ");
                warning.append(message.as_str());
                self.result.warning = Some(warning);
                self.next = 0;
                self.next_single(cancelled)
            },
        }
    }

    /// To be called with the reply to the single request that was next.
    pub fn single_read(
        &mut self,
        mqtt: &MqttConfig,
        reply: Result<Vec<u8>, String>,
        cancelled: bool,
    ) -> (action: GroupAction)
        requires
            old(self).next < old(self).requests@.len(),
        ensures
            ({
                let samples = final(self)@.result.samples;
                &&& final(self)@ == group_after_single(
                    old(self)@,
                    mqtt@.topic_prefix,
                    single_reply(reply),
                    samples.last().timestamp_ms,
                )
                &&& single_value(single_reply(reply)) is Ok ==> samples.last().timestamp_ms >= 0
            }),
            action == group_next(final(self)@, cancelled),
    {
        broadcast use lemma_views_push;
        let count: usize = self.requests.len();
        assert(self.next < count);
        let outcome = match &reply {
            Ok(bytes) => match decode_scalar_value(bytes.as_slice()) {
                Ok(value) => Ok(value),
                Err(error) => Err(error.to_text()),
            },
            Err(message) => Err(message.clone()),
        };
        match outcome {
            Ok(value) => {
                let sample = sample_at(
                    mqtt,
                    &self.requests[self.next].point,
                    value,
                    now_millis(),
                );
                self.result.samples.push(sample);
            },
            Err(error) => {
                let failure = PointFailure { point: self.requests[self.next].point.clone(), error };
                self.result.failures.push(failure);
            },
        }
        self.next = self.next + 1;
        self.next_single(cancelled)
    }
}

/// The outcome of a poll after one more device was read.
pub open spec fn with_group(outcome: PollOutcomeView, group: GroupResultView) -> PollOutcomeView {
    PollOutcomeView {
        samples: outcome.samples + group.samples,
        failures: outcome.failures + group.failures,
        warnings: match group.warning {
            Some(warning) => outcome.warnings.push(warning),
            None => outcome.warnings,
        },
    }
}

/// The outcome of a poll: the failures of the plan, and what came of each device.
pub open spec fn collated(
    failures: Seq<PointFailureView>,
    groups: Seq<GroupResultView>,
) -> PollOutcomeView
    decreases groups.len(),
{
    if groups.len() == 0 {
        PollOutcomeView { samples: Seq::empty(), failures, warnings: Seq::empty() }
    } else {
        with_group(collated(failures, groups.drop_last()), groups.last())
    }
}

/// The outcome of a poll, from the failures of its plan and the results of the devices, in the
/// order in which they came.
pub fn collate_poll(failures: Vec<PointFailure>, groups: Vec<GroupResult>) -> (outcome: PollOutcome)
    ensures
        outcome@ == collated(views(failures@), views(groups@)),
{
    let mut outcome = PollOutcome { samples: Vec::new(), failures, warnings: Vec::new() };
    let ghost all = views(groups@);
    let mut i: usize = 0;
    let total: usize = groups.len();
    let mut rest = groups;
    assert(all.take(0) =~= Seq::<GroupResultView>::empty());
    assert(outcome@ =~= collated(views(failures@), all.take(0)));
    assert(all.skip(0) =~= all);
    while rest.len() > 0
        invariant
            i + rest@.len() == all.len(),
            all.len() == total,
            views(rest@) == all.skip(i as int),
            outcome@ == collated(views(failures@), all.take(i as int)),
        decreases rest.len(),
    {
        let ghost rest_before = rest@;
        let mut group = rest.remove(0);
        let ghost one = group@;
        let ghost before = outcome@;
        proof {
            assert(one == views(rest_before)[0]);
            assert(one == all.skip(i as int)[0]);
            assert(views(rest_before).len() == rest_before.len());
            assert(rest@ =~= rest_before.skip(1));
            assert(views(rest@) =~= views(rest_before).skip(1));
            assert(views(rest@) =~= all.skip(i as int + 1));
            assert(all.take(i as int + 1).drop_last() =~= all.take(i as int));
            assert(all.take(i as int + 1).last() == one);
        }
        if let Some(warning) = group.warning {
            let ghost warned = outcome.warnings@;
            outcome.warnings.push(warning);
            assert(texts(outcome.warnings@) =~= texts(warned).push(warning@));
        }
        let ghost samples_before = outcome.samples@;
        let ghost failures_before = outcome.failures@;
        let ghost new_samples = group.samples@;
        let ghost new_failures = group.failures@;
        outcome.samples.append(&mut group.samples);
        outcome.failures.append(&mut group.failures);
        proof {
            assert(views(outcome.samples@) =~= views(samples_before) + views(new_samples));
            assert(views(outcome.failures@) =~= views(failures_before) + views(new_failures));
            assert(outcome@ =~= with_group(before, one));
        }
        i += 1;
    }
    assert(all.take(all.len() as int) =~= all);
    outcome
}

/// The points that are enabled.
pub open spec fn enabled_of(points: Seq<PointConfigView>) -> Seq<PointConfigView>
    decreases points.len(),
{
    if points.len() == 0 {
        Seq::empty()
    } else {
        let before = enabled_of(points.drop_last());
        if points.last().enabled {
            before.push(points.last())
        } else {
            before
        }
    }
}

/// The points that are enabled.
pub fn enabled_points(points: &[PointConfig]) -> (enabled: Vec<PointConfig>)
    ensures
        views(enabled@) == enabled_of(views(points@)),
{
    broadcast use lemma_views_push;
    let mut enabled: Vec<PointConfig> = Vec::new();
    let ghost all = views(points@);
    let mut i: usize = 0;
    assert(all.take(0) =~= Seq::<PointConfigView>::empty());
    assert(views(enabled@) =~= Seq::<PointConfigView>::empty());
    while i < points.len()
        invariant
            i <= points@.len(),
            all == views(points@),
            views(enabled@) == enabled_of(all.take(i as int)),
        decreases points.len() - i,
    {
        proof {
            assert(all.take(i as int + 1).drop_last() =~= all.take(i as int));
            assert(all.take(i as int + 1).last() == points@[i as int]@);
        }
        if points[i].enabled {
            enabled.push(points[i].clone());
        }
        i += 1;
    }
    assert(all.take(all.len() as int) =~= all);
    enabled
}

/// The device instances of points.
pub open spec fn devices_of(points: Seq<PointConfigView>) -> Seq<u32> {
    Seq::new(points.len(), |i: int| points[i].device_instance)
}

/// The device instances of points.
pub fn device_instances(points: &[PointConfig]) -> (instances: Vec<u32>)
    ensures
        instances@ == devices_of(views(points@)),
{
    let mut instances: Vec<u32> = Vec::new();
    let ghost all = devices_of(views(points@));
    let mut i: usize = 0;
    while i < points.len()
        invariant
            i <= points@.len(),
            all == devices_of(views(points@)),
            instances@ == all.take(i as int),
        decreases points.len() - i,
    {
        instances.push(points[i].device_instance);
        proof {
            assert(all.take(i as int + 1) =~= all.take(i as int).push(all[i as int]));
        }
        i += 1;
    }
    assert(all.take(all.len() as int) =~= all);
    instances
}

/// The points whose device is not missing, and those whose device is.
pub open spec fn split_by_device(
    points: Seq<PointConfigView>,
    missing: Set<u32>,
) -> (Seq<PointConfigView>, Seq<PointConfigView>)
    decreases points.len(),
{
    if points.len() == 0 {
        (Seq::empty(), Seq::empty())
    } else {
        let before = split_by_device(points.drop_last(), missing);
        if missing.contains(points.last().device_instance) {
            (before.0, before.1.push(points.last()))
        } else {
            (before.0.push(points.last()), before.1)
        }
    }
}

/// The points that can be polled, and those whose device was not found.
pub fn split_pollable(
    points: &[PointConfig],
    unresolved: &[u32],
) -> (split: (Vec<PointConfig>, Vec<PointConfig>))
    ensures
        (views(split.0@), views(split.1@)) == split_by_device(
            views(points@),
            unresolved@.to_set(),
        ),
{
    broadcast use lemma_views_push;
    broadcast use vstd::std_specs::hash::group_hash_axioms;
    let missing = set_of(unresolved);
    let mut pollable: Vec<PointConfig> = Vec::new();
    let mut skipped: Vec<PointConfig> = Vec::new();
    let ghost all = views(points@);
    let mut i: usize = 0;
    assert(all.take(0) =~= Seq::<PointConfigView>::empty());
    assert(views(pollable@) =~= Seq::<PointConfigView>::empty());
    assert(views(skipped@) =~= Seq::<PointConfigView>::empty());
    while i < points.len()
        invariant
            i <= points@.len(),
            all == views(points@),
            missing@ == unresolved@.to_set(),
            (views(pollable@), views(skipped@)) == split_by_device(
                all.take(i as int),
                unresolved@.to_set(),
            ),
        decreases points.len() - i,
    {
        proof {
            assert(all.take(i as int + 1).drop_last() =~= all.take(i as int));
            assert(all.take(i as int + 1).last() == points@[i as int]@);
        }
        if missing.contains(&points[i].device_instance) {
            skipped.push(points[i].clone());
        } else {
            pollable.push(points[i].clone());
        }
        i += 1;
    }
    assert(all.take(all.len() as int) =~= all);
    (pollable, skipped)
}

/// What is said of a point whose device was not found.
pub open spec fn not_found_failure(point: PointConfigView) -> PointFailureView {
    PointFailureView {
        point,
        error: "device "@ + decimal(point.device_instance as nat) + " not in I-Am cache"@,
    }
}

/// The failure of a point whose device was not found.
pub fn unresolved_failure(point: &PointConfig) -> (failure: PointFailure)
    ensures
        failure@ == not_found_failure(point@),
{
    let mut error = "device ".to_string();
    error.append(decimal_text(point.device_instance as u64).as_str());
    error.append(" not in I-Am cache");
    PointFailure { point: point.clone(), error }
}

/// A poll's outcome with the points that were skipped because their device was not found.
pub open spec fn completed(
    outcome: PollOutcomeView,
    skipped: Seq<PointConfigView>,
    unresolved: Seq<u32>,
) -> PollOutcomeView {
    PollOutcomeView {
        failures: outcome.failures + Seq::new(
            skipped.len(),
            |i: int| not_found_failure(skipped[i]),
        ),
        warnings: if unresolved.len() > 0 {
            seq![unresolved_warning(unresolved)] + outcome.warnings
        } else {
            outcome.warnings
        },
        ..outcome
    }
}

/// Adds to a poll's outcome what is to be said of the devices that were not found.
pub fn complete_poll(
    outcome: PollOutcome,
    skipped: &[PointConfig],
    unresolved: &[u32],
) -> (result: PollOutcome)
    ensures
        result@ == completed(outcome@, views(skipped@), unresolved@),
{
    broadcast use lemma_views_push;
    let mut result = outcome;
    let ghost all = Seq::new(
        skipped@.len(),
        |i: int| not_found_failure(views(skipped@)[i]),
    );
    let ghost start = views(result.failures@);
    let mut i: usize = 0;
    assert(start + all.take(0) =~= start);
    while i < skipped.len()
        invariant
            i <= skipped@.len(),
            all == Seq::new(skipped@.len(), |i: int| not_found_failure(views(skipped@)[i])),
            views(result.failures@) == start + all.take(i as int),
            result.samples == outcome.samples,
            result.warnings == outcome.warnings,
        decreases skipped.len() - i,
    {
        let ghost before = result.failures@;
        result.failures.push(unresolved_failure(&skipped[i]));
        proof {
            assert(all[i as int] == not_found_failure(skipped@[i as int]@));
            assert(views(result.failures@) =~= views(before).push(all[i as int]));
            assert(all.take(i as int + 1) =~= all.take(i as int).push(all[i as int]));
            assert(views(result.failures@) =~= start + all.take(i as int + 1));
        }
        i += 1;
    }
    assert(all.take(all.len() as int) =~= all);
    if unresolved.len() > 0 {
        let warning = format_unresolved_warning(unresolved);
        let ghost before = result.warnings@;
        result.warnings.insert(0, warning);
        assert(texts(result.warnings@) =~= seq![warning@] + texts(before));
    }
    proof {
        assert(all =~= Seq::new(
            views(skipped@).len(),
            |i: int| not_found_failure(views(skipped@)[i]),
        ));
        assert(result@ =~= completed(outcome@, views(skipped@), unresolved@));
    }
    result
}

/// What holds of every plan: no two groups are for the same device, and every request in a group
/// is that of an enabled point on the group's device.
pub open spec fn plan_invariant(plan: PollPlanView) -> bool {
    &&& forall|i: int, j: int|
        #![trigger plan.groups[i], plan.groups[j]]
        0 <= i < j < plan.groups.len() ==> plan.groups[i].device_instance
            != plan.groups[j].device_instance
    &&& forall|i: int, k: int|
        #![trigger plan.groups[i].requests[k]]
        0 <= i < plan.groups.len() && 0 <= k < plan.groups[i].requests.len() ==> {
            let point = plan.groups[i].requests[k].point;
            &&& point.enabled
            &&& point.device_instance == plan.groups[i].device_instance
            &&& request_of(point) == Ok::<PollRequestView, Seq<char>>(
                plan.groups[i].requests[k],
            )
        }
}

/// The requests of a plan are grouped by device.
pub proof fn law_plan_groups_by_device(points: Seq<PointConfigView>)
    ensures
        plan_invariant(poll_plan(points)),
    decreases points.len(),
{
    if points.len() > 0 {
        let before = poll_plan(points.drop_last());
        law_plan_groups_by_device(points.drop_last());
        let point = points.last();
        if point.enabled && request_of(point) is Ok {
            let request = request_of(point)->Ok_0;
            lemma_group_at(before.groups, point.device_instance);
            let after = grouped(before.groups, point.device_instance, request);
            assert forall|i: int, k: int|
                #![trigger after[i].requests[k]]
                0 <= i < after.len() && 0 <= k < after[i].requests.len() implies {
                let found = after[i].requests[k].point;
                &&& found.enabled
                &&& found.device_instance == after[i].device_instance
                &&& request_of(found) == Ok::<PollRequestView, Seq<char>>(after[i].requests[k])
            } by {
                if i < before.groups.len() && k < before.groups[i].requests.len() {
                    assert(after[i].requests[k] == before.groups[i].requests[k]);
                }
            }
            assert forall|i: int, j: int|
                #![trigger after[i], after[j]]
                0 <= i < j < after.len() implies after[i].device_instance
                != after[j].device_instance by {
                if j < before.groups.len() {
                    assert(before.groups[i].device_instance != before.groups[j].device_instance);
                } else {
                    assert(before.groups[i].device_instance != point.device_instance);
                }
            }
        }
    }
}

/// A request stands in the group of a device.
pub open spec fn is_planned(
    groups: Seq<DeviceGroupView>,
    device: u32,
    request: PollRequestView,
) -> bool {
    exists|i: int, k: int|
        #![trigger groups[i].requests[k]]
        0 <= i < groups.len() && 0 <= k < groups[i].requests.len() && groups[i].device_instance
            == device && groups[i].requests[k] == request
}

proof fn lemma_grouped_keeps(
    groups: Seq<DeviceGroupView>,
    device: u32,
    request: PollRequestView,
    other_device: u32,
    other: PollRequestView,
)
    ensures
        is_planned(groups, other_device, other) ==> is_planned(
            grouped(groups, device, request),
            other_device,
            other,
        ),
        is_planned(grouped(groups, device, request), device, request),
{
    lemma_group_at(groups, device);
    let after = grouped(groups, device, request);
    match group_at(groups, device) {
        Some(at) => {
            let k = groups[at].requests.len() as int;
            assert(after[at].requests[k] == request);
        },
        None => {
            assert(after[groups.len() as int].requests[0] == request);
        },
    }
    if is_planned(groups, other_device, other) {
        let (i, k) = choose|i: int, k: int|
            #![trigger groups[i].requests[k]]
            0 <= i < groups.len() && 0 <= k < groups[i].requests.len()
                && groups[i].device_instance == other_device && groups[i].requests[k] == other;
        assert(after[i].requests[k] == other);
    }
}

/// Every enabled point is accounted for: its request stands in the group of its device, or it
/// is among the failures with the reason.
pub proof fn law_plan_accounts_for_every_point(points: Seq<PointConfigView>, at: int)
    requires
        0 <= at < points.len(),
        points[at].enabled,
    ensures
        match request_of(points[at]) {
            Ok(request) => is_planned(
                poll_plan(points).groups,
                points[at].device_instance,
                request,
            ),
            Err(error) => poll_plan(points).failures.contains(
                PointFailureView { point: points[at], error },
            ),
        },
    decreases points.len(),
{
    let shorter = points.drop_last();
    let before = poll_plan(shorter);
    let after = poll_plan(points);
    let last = points.last();
    if at < shorter.len() {
        law_plan_accounts_for_every_point(shorter, at);
        match request_of(points[at]) {
            Ok(request) => {
                if last.enabled && request_of(last) is Ok {
                    lemma_grouped_keeps(
                        before.groups,
                        last.device_instance,
                        request_of(last)->Ok_0,
                        points[at].device_instance,
                        request,
                    );
                }
            },
            Err(error) => {
                let failure = PointFailureView { point: points[at], error };
                let k = choose|k: int|
                    0 <= k < before.failures.len() && before.failures[k] == failure;
                assert(after.failures[k] == failure);
            },
        }
    } else {
        match request_of(last) {
            Ok(request) => {
                lemma_grouped_keeps(
                    before.groups,
                    last.device_instance,
                    request,
                    last.device_instance,
                    request,
                );
            },
            Err(error) => {
                assert(after.failures[before.failures.len() as int] == (PointFailureView {
                    point: last,
                    error,
                }));
            },
        }
    }
}

proof fn lemma_answered_places(
    requests: Seq<PollRequestView>,
    values: Seq<(int, TelemetryValueView)>,
)
    requires
        forall|i: int| 0 <= i < values.len() ==> 0 <= (#[trigger] values[i]).0 < requests.len(),
    ensures
        answered_places(values).finite(),
        answered_places(values).subset_of(vstd::set_lib::set_int_range(0, requests.len() as int)),
        forall|place: int|
            answered_places(values).contains(place) ==> exists|i: int|
                0 <= i < values.len() && (#[trigger] values[i]).0 == place,
    decreases values.len(),
{
    if values.len() > 0 {
        let shorter = values.drop_last();
        assert forall|i: int| 0 <= i < shorter.len() implies 0 <= (#[trigger] shorter[i]).0
            < requests.len() by {
            assert(shorter[i] == values[i]);
        }
        lemma_answered_places(requests, shorter);
        let last = values[values.len() - 1];
        assert forall|place: int| answered_places(values).contains(place) implies exists|i: int|
            0 <= i < values.len() && (#[trigger] values[i]).0 == place by {
            if place == last.0 {
                assert(values[values.len() - 1].0 == place);
            } else {
                let i = choose|i: int|
                    0 <= i < shorter.len() && (#[trigger] shorter[i]).0 == place;
                assert(values[i].0 == place);
            }
        }
    }
}

pub proof fn lemma_reply_places(requests: Seq<PollRequestView>, results: Seq<ReadResultView>)
    requires
        reply_values(requests, results) is Ok,
    ensures
        ({
            let values = reply_values(requests, results)->Ok_0;
            forall|i: int|
                0 <= i < values.len() ==> 0 <= (#[trigger] values[i]).0 < requests.len()
        }),
    decreases results.len(),
{
    if results.len() > 0 {
        lemma_reply_places(requests, results.drop_last());
        lemma_answered(requests, results.last());
    }
}

/// A reply to the request for several properties is used only where it answers every request:
/// each then has a value.
pub proof fn law_usable_reply_answers_every_request(
    requests: Seq<PollRequestView>,
    results: Seq<ReadResultView>,
    place: int,
)
    requires
        reply_error(requests, results) is None,
        0 <= place < requests.len(),
    ensures
        exists|i: int|
            0 <= i < reply_values(requests, results)->Ok_0.len() && (#[trigger] reply_values(
                requests,
                results,
            )->Ok_0[i]).0 == place,
{
    let values = reply_values(requests, results)->Ok_0;
    lemma_reply_places(requests, results);
    lemma_answered_places(requests, values);
    let all = vstd::set_lib::set_int_range(0, requests.len() as int);
    vstd::set_lib::lemma_int_range(0, requests.len() as int);
    vstd::set_lib::lemma_subset_equality(answered_places(values), all);
    assert(answered_places(values).contains(place));
}

/// The points of samples.
pub open spec fn sampled_points(samples: Seq<PointSampleView>) -> Seq<PointConfigView> {
    Seq::new(samples.len(), |i: int| samples[i].point)
}

/// The points of failures.
pub open spec fn failed_points(failures: Seq<PointFailureView>) -> Seq<PointConfigView> {
    Seq::new(failures.len(), |i: int| failures[i].point)
}

/// The points of requests.
pub open spec fn requested_points(requests: Seq<PollRequestView>) -> Seq<PointConfigView> {
    Seq::new(requests.len(), |i: int| requests[i].point)
}

/// Whether each point is that of one sample or of one failure, as often as it was asked for, and no
/// other point is.
pub open spec fn accounted(result: GroupResultView, points: Seq<PointConfigView>) -> bool {
    sampled_points(result.samples).to_multiset().add(
        failed_points(result.failures).to_multiset(),
    ) == points.to_multiset()
}

/// What holds while properties are asked for one by one: the point of each request so far has given
/// one sample or one failure.
pub open spec fn fallback_invariant(state: GroupPollView) -> bool {
    &&& state.next <= state.requests.len()
    &&& accounted(state.result, requested_points(state.requests).take(state.next as int))
}

/// Asking one by one accounts for every request that was made: for each there is one sample or one
/// failure of its point. That is so when the request for all has failed, and every further reply
/// keeps it.
pub proof fn law_fallback_accounts_for_every_request(
    group: DeviceGroupView,
    state: GroupPollView,
    prefix: Seq<char>,
    all_reply: Result<Seq<ReadResultView>, Seq<char>>,
    times: Seq<i64>,
    reply: Result<Seq<u8>, Seq<char>>,
    time: i64,
)
    requires
        fallback_invariant(state),
        state.next < state.requests.len() <= usize::MAX,
        group_reply_error(group.requests, all_reply) is Some,
    ensures
        fallback_invariant(group_after_multiple(group_start(group), prefix, all_reply, times)),
        fallback_invariant(group_after_single(state, prefix, reply, time)),
{
    broadcast use vstd::seq_lib::group_to_multiset_ensures;

    let empty = Seq::<PointConfigView>::empty();
    let first = group_after_multiple(group_start(group), prefix, all_reply, times);
    assert(sampled_points(first.result.samples) =~= empty);
    assert(failed_points(first.result.failures) =~= empty);
    assert(requested_points(first.requests).take(0) =~= empty);
    assert(empty.to_multiset().add(empty.to_multiset()) =~= empty.to_multiset());

    let after = group_after_single(state, prefix, reply, time);
    let asked = requested_points(state.requests);
    let point = asked[state.next as int];
    let samples = sampled_points(state.result.samples);
    let failures = failed_points(state.result.failures);
    let before = asked.take(state.next as int);
    assert(asked.take(state.next as int + 1) =~= before.push(point));
    match single_value(reply) {
        Ok(_) => {
            assert(sampled_points(after.result.samples) =~= samples.push(point));
        },
        Err(_) => {
            assert(failed_points(after.result.failures) =~= failures.push(point));
        },
    }
    assert(sampled_points(after.result.samples).to_multiset().add(
        failed_points(after.result.failures).to_multiset(),
    ) =~= samples.to_multiset().add(failures.to_multiset()).insert(point));
}

/// Where asking one by one was not cancelled, it ends with one sample or one failure of the point of
/// each request.
pub proof fn law_uncancelled_fallback_is_complete(state: GroupPollView)
    requires
        fallback_invariant(state),
        group_next(state, false) is Finish,
    ensures
        accounted(state.result, requested_points(state.requests)),
        state.result.samples.len() + state.result.failures.len() == state.requests.len(),
{
    broadcast use vstd::seq_lib::group_to_multiset_ensures;

    let asked = requested_points(state.requests);
    assert(asked.take(state.next as int) =~= asked);
    let samples = sampled_points(state.result.samples).to_multiset();
    let failures = failed_points(state.result.failures).to_multiset();
    assert(samples.add(failures).len() == samples.len() + failures.len());
}

/// Every point is either polled or skipped, by whether its device is missing.
pub proof fn law_split_is_complete(points: Seq<PointConfigView>, missing: Set<u32>)
    ensures
        ({
            let (kept, skipped) = split_by_device(points, missing);
            &&& kept.len() + skipped.len() == points.len()
            &&& forall|i: int|
                0 <= i < kept.len() ==> !missing.contains((#[trigger] kept[i]).device_instance)
                    && points.contains(kept[i])
            &&& forall|i: int|
                0 <= i < skipped.len() ==> missing.contains((#[trigger] skipped[i]).device_instance)
                    && points.contains(skipped[i])
        }),
    decreases points.len(),
{
    if points.len() > 0 {
        let shorter = points.drop_last();
        law_split_is_complete(shorter, missing);
        let (kept_before, skipped_before) = split_by_device(shorter, missing);
        let (kept, skipped) = split_by_device(points, missing);
        assert(points[points.len() - 1] == points.last());
        assert forall|i: int| 0 <= i < kept.len() implies !missing.contains(
            (#[trigger] kept[i]).device_instance,
        ) && points.contains(kept[i]) by {
            if i < kept_before.len() {
                assert(kept[i] == kept_before[i]);
                let k = choose|k: int| 0 <= k < shorter.len() && shorter[k] == kept_before[i];
                assert(points[k] == kept[i]);
            }
        }
        assert forall|i: int| 0 <= i < skipped.len() implies missing.contains(
            (#[trigger] skipped[i]).device_instance,
        ) && points.contains(skipped[i]) by {
            if i < skipped_before.len() {
                assert(skipped[i] == skipped_before[i]);
                let k = choose|k: int| 0 <= k < shorter.len() && shorter[k] == skipped_before[i];
                assert(points[k] == skipped[i]);
            }
        }
    }
}

} // verus!
