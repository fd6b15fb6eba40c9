//! What the workers report to the application, and what one run of each of them says.

use vstd::prelude::*;

use crate::config::{MqttConfig, MqttConfigView};
use crate::log::LogLevel;
use crate::model::{
    point_display_name, views, BulkTagImportOutcome, BulkTagImportOutcomeView, DeviceObject,
    DeviceObjectView, DiscoverOutcome, DiscoverOutcomeView, DiscoveredDevice, DiscoveredDeviceView,
    PointFailure, PointFailureView, PointSample, PointSampleView, PollOutcome, PollOutcomeView,
    PublishStats, PublishStatsView,
};
use crate::mqtt::{
    health_published, health_report, json_object, publish_health, publish_samples, published,
    reply_of, sample_messages, sample_payloads, HandedOver, HealthSnapshot, HealthSnapshotView,
    MqttPublisher,
};
use crate::numerals::{decimal, decimal_text};
use crate::text::{clone_opt_text, texts};

pub mod backoff;
pub mod republisher;
pub mod scan_all;
pub mod single;

verus! {

/// How many objects of a device are scanned at most.
pub const SCAN_MAX_OBJECTS_PER_DEVICE: usize = 512;

/// The states of the continuous republisher.
#[derive(Debug, PartialEq, Eq)]
pub enum RepublisherLifecycle {
    Starting,
    Running,
    Stopping,
    Stopped,
    Failed(String),
}

/// The contents of a [`RepublisherLifecycle`].
#[verifier::ext_equal]
pub enum RepublisherLifecycleView {
    Starting,
    Running,
    Stopping,
    Stopped,
    Failed(Seq<char>),
}

impl View for RepublisherLifecycle {
    type V = RepublisherLifecycleView;

    open spec fn view(&self) -> RepublisherLifecycleView {
        match *self {
            RepublisherLifecycle::Starting => RepublisherLifecycleView::Starting,
            RepublisherLifecycle::Running => RepublisherLifecycleView::Running,
            RepublisherLifecycle::Stopping => RepublisherLifecycleView::Stopping,
            RepublisherLifecycle::Stopped => RepublisherLifecycleView::Stopped,
            RepublisherLifecycle::Failed(reason) => RepublisherLifecycleView::Failed(reason@),
        }
    }
}

impl Clone for RepublisherLifecycle {
    fn clone(&self) -> (result: Self)
        ensures
            result == *self,
    {
        match self {
            RepublisherLifecycle::Starting => RepublisherLifecycle::Starting,
            RepublisherLifecycle::Running => RepublisherLifecycle::Running,
            RepublisherLifecycle::Stopping => RepublisherLifecycle::Stopping,
            RepublisherLifecycle::Stopped => RepublisherLifecycle::Stopped,
            RepublisherLifecycle::Failed(reason) => RepublisherLifecycle::Failed(reason.clone()),
        }
    }
}

/// What a worker reports.
#[derive(Debug)]
pub enum WorkerEvent {
    Log(LogLevel, String),
    Devices(Vec<DiscoveredDevice>),
    Objects(Vec<DeviceObject>),
    ScanProgress { current: usize, total: usize },
    BulkTagImport(BulkTagImportOutcome),
    Samples(Vec<PointSample>),
    Failures(Vec<PointFailure>),
    PublishStatus(PublishStats),
    RepublisherLifecycle(RepublisherLifecycle),
    Finished(String),
}

/// The contents of a [`WorkerEvent`].
#[verifier::ext_equal]
pub enum WorkerEventView {
    Log(LogLevel, Seq<char>),
    Devices(Seq<DiscoveredDeviceView>),
    Objects(Seq<DeviceObjectView>),
    ScanProgress { current: usize, total: usize },
    BulkTagImport(BulkTagImportOutcomeView),
    Samples(Seq<PointSampleView>),
    Failures(Seq<PointFailureView>),
    PublishStatus(PublishStatsView),
    RepublisherLifecycle(RepublisherLifecycleView),
    Finished(Seq<char>),
}

impl View for WorkerEvent {
    type V = WorkerEventView;

    open spec fn view(&self) -> WorkerEventView {
        match *self {
            WorkerEvent::Log(level, message) => WorkerEventView::Log(level, message@),
            WorkerEvent::Devices(devices) => WorkerEventView::Devices(views(devices@)),
            WorkerEvent::Objects(objects) => WorkerEventView::Objects(views(objects@)),
            WorkerEvent::ScanProgress { current, total } => WorkerEventView::ScanProgress {
                current,
                total,
            },
            WorkerEvent::BulkTagImport(outcome) => WorkerEventView::BulkTagImport(outcome@),
            WorkerEvent::Samples(samples) => WorkerEventView::Samples(views(samples@)),
            WorkerEvent::Failures(failures) => WorkerEventView::Failures(views(failures@)),
            WorkerEvent::PublishStatus(stats) => WorkerEventView::PublishStatus(stats@),
            WorkerEvent::RepublisherLifecycle(state) => WorkerEventView::RepublisherLifecycle(
                state@,
            ),
            WorkerEvent::Finished(message) => WorkerEventView::Finished(message@),
        }
    }
}

/// The contents of a list of events.
pub open spec fn event_views(events: Seq<WorkerEvent>) -> Seq<WorkerEventView> {
    views(events)
}

/// Reports one more event.
pub fn emit(events: &mut Vec<WorkerEvent>, event: WorkerEvent)
    ensures
        event_views(final(events)@) == event_views(old(events)@).push(event@),
{
    let ghost before = events@;
    events.push(event);
    assert(event_views(events@) =~= event_views(before).push(event@));
}

/// Reports a message.
pub fn emit_log(events: &mut Vec<WorkerEvent>, level: LogLevel, message: String)
    ensures
        event_views(final(events)@) == event_views(old(events)@).push(
            WorkerEventView::Log(level, message@),
        ),
{
    emit(events, WorkerEvent::Log(level, message));
}

/// A text made of two.
pub fn text2(first: &str, second: &str) -> (text: String)
    ensures
        text@ == first@ + second@,
{
    let mut text = first.to_string();
    text.append(second);
    text
}

/// A text made of three.
pub fn text3(first: &str, second: &str, third: &str) -> (text: String)
    ensures
        text@ == first@ + second@ + third@,
{
    let mut text = first.to_string();
    text.append(second);
    text.append(third);
    text
}

/// Warnings as messages.
pub open spec fn warning_events(warnings: Seq<Seq<char>>) -> Seq<WorkerEventView> {
    Seq::new(warnings.len(), |i: int| WorkerEventView::Log(LogLevel::Warning, warnings[i]))
}

/// Failures as messages.
pub open spec fn failure_events(failures: Seq<PointFailureView>) -> Seq<WorkerEventView> {
    Seq::new(
        failures.len(),
        |i: int|
            WorkerEventView::Log(
                LogLevel::Warning,
                point_display_name(failures[i].point) + " read failed: "@ + failures[i].error,
            ),
    )
}

/// Reports warnings.
pub fn emit_warnings(events: &mut Vec<WorkerEvent>, warnings: &Vec<String>)
    ensures
        event_views(final(events)@) == event_views(old(events)@) + warning_events(
            texts(warnings@),
        ),
{
    let ghost start = event_views(events@);
    let ghost all = warning_events(texts(warnings@));
    let mut i: usize = 0;
    assert(start + all.take(0) =~= start);
    while i < warnings.len()
        invariant
            i <= warnings@.len(),
            all == warning_events(texts(warnings@)),
            event_views(events@) == start + all.take(i as int),
        decreases warnings.len() - i,
    {
        emit_log(events, LogLevel::Warning, warnings[i].clone());
        proof {
            assert(all[i as int] == WorkerEventView::Log(LogLevel::Warning, warnings@[i as int]@));
            assert((start + all.take(i as int)).push(all[i as int]) =~= start + all.take(
                i as int + 1,
            ));
        }
        i += 1;
    }
    assert(all.take(all.len() as int) =~= all);
}

/// Reports failures.
pub fn emit_failures(events: &mut Vec<WorkerEvent>, failures: &Vec<PointFailure>)
    ensures
        event_views(final(events)@) == event_views(old(events)@) + failure_events(
            views(failures@),
        ),
{
    let ghost start = event_views(events@);
    let ghost all = failure_events(views(failures@));
    let mut i: usize = 0;
    assert(start + all.take(0) =~= start);
    while i < failures.len()
        invariant
            i <= failures@.len(),
            all == failure_events(views(failures@)),
            event_views(events@) == start + all.take(i as int),
        decreases failures.len() - i,
    {
        let message = text3(
            failures[i].point.display_name().as_str(),
            " read failed: ",
            failures[i].error.as_str(),
        );
        emit_log(events, LogLevel::Warning, message);
        proof {
            assert(all[i as int] == WorkerEventView::Log(LogLevel::Warning, message@));
            assert((start + all.take(i as int)).push(all[i as int]) =~= start + all.take(
                i as int + 1,
            ));
        }
        i += 1;
    }
    assert(all.take(all.len() as int) =~= all);
}

/// What a discovery says when it begins.
pub open spec fn discovery_started() -> WorkerEventView {
    WorkerEventView::Log(LogLevel::Info, "Starting BACnet discovery"@)
}

/// Reports that a discovery begins.
pub fn emit_discovery_started(events: &mut Vec<WorkerEvent>)
    ensures
        event_views(final(events)@) == event_views(old(events)@).push(discovery_started()),
{
    emit_log(events, LogLevel::Info, "Starting BACnet discovery".to_string());
}

/// How a discovery is summed up.
pub open spec fn discovery_summary(outcome: DiscoverOutcomeView) -> Seq<char> {
    if outcome.warnings.len() == 0 {
        "Discovered "@ + decimal(outcome.devices.len()) + " BACnet device(s)"@
    } else {
        "Discovered "@ + decimal(outcome.devices.len()) + " BACnet device(s) with "@ + decimal(
            outcome.warnings.len(),
        ) + " interface warning(s)"@
    }
}

/// What a discovery says when it has ended.
pub open spec fn discovery_ended(
    result: Result<DiscoverOutcomeView, Seq<char>>,
) -> Seq<WorkerEventView> {
    match result {
        Ok(outcome) => warning_events(outcome.warnings).push(
            WorkerEventView::Devices(outcome.devices),
        ).push(WorkerEventView::Finished(discovery_summary(outcome))),
        Err(error) => seq![
            WorkerEventView::Log(LogLevel::Error, "Discovery failed: "@ + error),
            WorkerEventView::Finished("Discovery failed"@),
        ],
    }
}

/// Reports how a discovery has ended.
pub fn emit_discovery_ended(
    events: &mut Vec<WorkerEvent>,
    result: Result<DiscoverOutcome, String>,
)
    ensures
        event_views(final(events)@) == event_views(old(events)@) + discovery_ended(
            match result {
                Ok(outcome) => Ok(outcome@),
                Err(error) => Err(error@),
            },
        ),
{
    let ghost start = event_views(events@);
    match result {
        Ok(outcome) => {
            emit_warnings(events, &outcome.warnings);
            let mut summary = text2("Discovered ", decimal_text(outcome.devices.len() as u64).as_str());
            if outcome.warnings.len() == 0 {
                summary.append(" BACnet device(s)");
            } else {
                summary.append(" BACnet device(s) with ");
                summary.append(decimal_text(outcome.warnings.len() as u64).as_str());
                summary.append(" interface warning(s)");
            }
            proof {
                assert(texts(outcome.warnings@).len() == outcome.warnings@.len());
                assert(views(outcome.devices@).len() == outcome.devices@.len());
                assert(summary@ == discovery_summary(outcome@));
            }
            emit(events, WorkerEvent::Devices(outcome.devices));
            emit(events, WorkerEvent::Finished(summary));
            assert(event_views(events@) =~= start + discovery_ended(Ok(outcome@)));
        },
        Err(error) => {
            emit_log(events, LogLevel::Error, text2("Discovery failed: ", error.as_str()));
            emit(events, WorkerEvent::Finished("Discovery failed".to_string()));
            assert(event_views(events@) =~= start + discovery_ended(Err(error@)));
        },
    }
}

/// What the scan of one device says when it begins.
pub open spec fn object_scan_started(device_instance: u32) -> WorkerEventView {
    WorkerEventView::Log(
        LogLevel::Info,
        "Scanning object list for device "@ + decimal(device_instance as nat),
    )
}

/// Reports that the scan of one device begins.
pub fn emit_object_scan_started(events: &mut Vec<WorkerEvent>, device_instance: u32)
    ensures
        event_views(final(events)@) == event_views(old(events)@).push(
            object_scan_started(device_instance),
        ),
{
    let message = text2(
        "Scanning object list for device ",
        decimal_text(device_instance as u64).as_str(),
    );
    emit_log(events, LogLevel::Info, message);
}

/// What the scan of one device says when it has ended.
pub open spec fn object_scan_ended(
    device_instance: u32,
    result: Result<Seq<DeviceObjectView>, Seq<char>>,
) -> Seq<WorkerEventView> {
    match result {
        Ok(objects) => seq![
            WorkerEventView::Objects(objects),
            WorkerEventView::Finished(
                "Found "@ + decimal(objects.len()) + " object(s) on device "@ + decimal(
                    device_instance as nat,
                ),
            ),
        ],
        Err(error) => seq![
            WorkerEventView::Log(LogLevel::Error, "Object scan failed: "@ + error),
            WorkerEventView::Finished("Object scan failed"@),
        ],
    }
}

/// Reports how the scan of one device has ended.
pub fn emit_object_scan_ended(
    events: &mut Vec<WorkerEvent>,
    device_instance: u32,
    result: Result<Vec<DeviceObject>, String>,
)
    ensures
        event_views(final(events)@) == event_views(old(events)@) + object_scan_ended(
            device_instance,
            match result {
                Ok(objects) => Ok(views(objects@)),
                Err(error) => Err(error@),
            },
        ),
{
    let ghost start = event_views(events@);
    match result {
        Ok(objects) => {
            let mut summary = text2("Found ", decimal_text(objects.len() as u64).as_str());
            summary.append(" object(s) on device ");
            summary.append(decimal_text(device_instance as u64).as_str());
            assert(views(objects@).len() == objects@.len());
            emit(events, WorkerEvent::Objects(objects));
            emit(events, WorkerEvent::Finished(summary));
            assert(event_views(events@) =~= start + object_scan_ended(
                device_instance,
                Ok(views(objects@)),
            ));
        },
        Err(error) => {
            emit_log(events, LogLevel::Error, text2("Object scan failed: ", error.as_str()));
            emit(events, WorkerEvent::Finished("Object scan failed".to_string()));
            assert(event_views(events@) =~= start + object_scan_ended(
                device_instance,
                Err(error@),
            ));
        },
    }
}

/// Reports that a single poll begins.
pub fn emit_poll_started(events: &mut Vec<WorkerEvent>, points: usize)
    ensures
        event_views(final(events)@) == event_views(old(events)@).push(
            WorkerEventView::Log(
                LogLevel::Info,
                "Polling "@ + decimal(points as nat) + " configured point(s)"@,
            ),
        ),
{
    let message = text3("Polling ", decimal_text(points as u64).as_str(), " configured point(s)");
    emit_log(events, LogLevel::Info, message);
}

/// Reports an error that ends a worker.
fn emit_fatal(events: &mut Vec<WorkerEvent>, message: String, finished: &str)
    ensures
        event_views(final(events)@) == event_views(old(events)@) + seq![
            WorkerEventView::Log(LogLevel::Error, message@),
            WorkerEventView::Finished(finished@),
        ],
{
    let ghost start = event_views(events@);
    emit_log(events, LogLevel::Error, message);
    emit(events, WorkerEvent::Finished(finished.to_string()));
    assert(event_views(events@) =~= start + seq![
        WorkerEventView::Log(LogLevel::Error, message@),
        WorkerEventView::Finished(finished@),
    ]);
}

/// Reports that a single poll failed.
pub fn emit_poll_failed(events: &mut Vec<WorkerEvent>, error: &str)
    ensures
        event_views(final(events)@) == event_views(old(events)@) + seq![
            WorkerEventView::Log(LogLevel::Error, "Polling failed: "@ + error@),
            WorkerEventView::Finished("Polling failed"@),
        ],
{
    emit_fatal(events, text2("Polling failed: ", error), "Polling failed");
}

/// Reports that nothing can be published after a single poll.
pub fn emit_publisher_failed(events: &mut Vec<WorkerEvent>, error: &str)
    ensures
        event_views(final(events)@) == event_views(old(events)@) + seq![
            WorkerEventView::Log(LogLevel::Error, "MQTT publisher setup failed: "@ + error@),
            WorkerEventView::Finished("Publishing failed"@),
        ],
{
    emit_fatal(events, text2("MQTT publisher setup failed: ", error), "Publishing failed");
}

/// Reports the failures and the warnings of a single poll.
pub fn emit_single_poll(events: &mut Vec<WorkerEvent>, outcome: &PollOutcome)
    ensures
        event_views(final(events)@) == event_views(old(events)@) + failure_events(
            outcome@.failures,
        ) + warning_events(outcome@.warnings),
{
    emit_failures(events, &outcome.failures);
    emit_warnings(events, &outcome.warnings);
}

/// What is said of a poll before its samples are published.
pub open spec fn before_publishing(outcome: PollOutcomeView) -> Seq<WorkerEventView> {
    warning_events(outcome.warnings) + failure_events(outcome.failures)
}

/// Reports the warnings and the failures of a poll, before its samples are published.
pub fn emit_before_publishing(events: &mut Vec<WorkerEvent>, outcome: &PollOutcome)
    ensures
        event_views(final(events)@) == event_views(old(events)@) + before_publishing(outcome@),
{
    let ghost start = event_views(events@);
    emit_warnings(events, &outcome.warnings);
    emit_failures(events, &outcome.failures);
    assert(event_views(events@) =~= start + before_publishing(outcome@));
}

/// The health of a poll whose samples were published.
pub open spec fn health_of(
    outcome: PollOutcomeView,
    stats: PublishStatsView,
    stale_points: usize,
) -> HealthSnapshotView {
    HealthSnapshotView {
        published: stats.published,
        failed_reads: outcome.failures.len() as usize,
        failed_publishes: stats.failed,
        stale_points,
        reconnects: stats.reconnects,
        last_error: stats.last_error,
    }
}

/// The health of a poll whose samples were published.
pub fn health_snapshot(
    outcome: &PollOutcome,
    stats: &PublishStats,
    stale_points: usize,
) -> (snapshot: HealthSnapshot)
    ensures
        snapshot@ == health_of(outcome@, stats@, stale_points),
{
    assert(views(outcome.failures@).len() == outcome.failures@.len());
    HealthSnapshot {
        published: stats.published,
        failed_reads: outcome.failures.len(),
        failed_publishes: stats.failed,
        stale_points,
        reconnects: stats.reconnects,
        last_error: clone_opt_text(&stats.last_error),
    }
}

/// What publishing a poll does, given the replies: first its samples are handed over, then a
/// health report that was made at some time.
pub open spec fn poll_handed_over(
    before: Seq<HandedOver>,
    after: Seq<HandedOver>,
    mqtt: MqttConfigView,
    outcome: PollOutcomeView,
    payloads: Seq<Result<Seq<u8>, Seq<char>>>,
    stale_points: usize,
    replies: Seq<Result<(), Seq<char>>>,
    timestamp: i64,
    health_reply: Result<(), Seq<char>>,
    stats: PublishStatsView,
) -> bool {
    let between = before + sample_messages(outcome.samples, payloads, mqtt.retain, replies);
    &&& published(before, between, outcome.samples, payloads, mqtt.retain, replies, stats)
    &&& timestamp >= 0
    &&& health_published(
        between,
        after,
        mqtt.health_topic,
        json_object(health_report(health_of(outcome, stats, stale_points), timestamp)),
        health_reply,
    )
}

/// Publishes the samples of a poll, and then its health; whether the health report was taken does
/// not matter. The payloads of the samples that are numbers stand in `numbers`, in their places.
pub fn publish_poll<P: MqttPublisher>(
    publisher: &mut P,
    mqtt: &MqttConfig,
    outcome: &PollOutcome,
    numbers: &Vec<Result<Vec<u8>, String>>,
    stale_points: usize,
) -> (stats: PublishStats)
    requires
        numbers@.len() == outcome.samples@.len(),
    ensures
        exists|
            replies: Seq<Result<(), Seq<char>>>,
            timestamp: i64,
            health_reply: Result<(), Seq<char>>,
        | #[trigger]
            poll_handed_over(
                old(publisher).handed(),
                final(publisher).handed(),
                mqtt@,
                outcome@,
                sample_payloads(outcome@.samples, numbers@),
                stale_points,
                replies,
                timestamp,
                health_reply,
                stats@,
            ),
{
    let ghost before = publisher.handed();
    let stats = publish_samples(publisher, mqtt, outcome.samples.as_slice(), numbers);
    let ghost between = publisher.handed();
    let snapshot = health_snapshot(outcome, &stats, stale_points);
    let result = publish_health(publisher, mqtt, &snapshot);
    proof {
        let replies = choose|replies: Seq<Result<(), Seq<char>>>| #[trigger]
            published(
                before,
                between,
                outcome@.samples,
                sample_payloads(outcome@.samples, numbers@),
                mqtt.retain,
                replies,
                stats@,
            );
        let timestamp = choose|timestamp: i64|
            timestamp >= 0 && health_published(
                between,
                publisher.handed(),
                mqtt@.health_topic,
                #[trigger] json_object(health_report(snapshot@, timestamp)),
                reply_of(result),
            );
        assert(poll_handed_over(
            before,
            publisher.handed(),
            mqtt@,
            outcome@,
            sample_payloads(outcome@.samples, numbers@),
            stale_points,
            replies,
            timestamp,
            reply_of(result),
            stats@,
        ));
    }
    stats
}

/// What is said of a poll after its samples were published.
pub open spec fn after_publishing(
    outcome: PollOutcomeView,
    stats: PublishStatsView,
) -> Seq<WorkerEventView> {
    seq![
        WorkerEventView::Failures(outcome.failures),
        WorkerEventView::Samples(outcome.samples),
        WorkerEventView::PublishStatus(stats),
    ]
}

/// How a poll is summed up.
pub open spec fn poll_summary(outcome: PollOutcomeView, stats: PublishStatsView) -> Seq<char> {
    "Published "@ + decimal(stats.published as nat) + " point(s), "@ + decimal(
        outcome.failures.len(),
    ) + " read failure(s), "@ + decimal(stats.failed as nat) + " publish failure(s)"@
}

/// Reports a poll after its samples were published, and sums it up.
pub fn emit_poll_outcome(
    events: &mut Vec<WorkerEvent>,
    outcome: PollOutcome,
    stats: PublishStats,
) -> (summary: String)
    ensures
        event_views(final(events)@) == event_views(old(events)@) + after_publishing(
            outcome@,
            stats@,
        ),
        summary@ == poll_summary(outcome@, stats@),
{
    let ghost start = event_views(events@);
    assert(views(outcome.failures@).len() == outcome.failures@.len());
    let mut summary = text3(
        "Published ",
        decimal_text(stats.published as u64).as_str(),
        " point(s), ",
    );
    summary.append(decimal_text(outcome.failures.len() as u64).as_str());
    summary.append(" read failure(s), ");
    summary.append(decimal_text(stats.failed as u64).as_str());
    summary.append(" publish failure(s)");
    emit(events, WorkerEvent::Failures(outcome.failures));
    emit(events, WorkerEvent::Samples(outcome.samples));
    emit(events, WorkerEvent::PublishStatus(stats));
    assert(event_views(events@) =~= start + after_publishing(outcome@, stats@));
    summary
}

/// Reports that a worker could not be started.
pub fn emit_runtime_failed(events: &mut Vec<WorkerEvent>, error: &str)
    ensures
        event_views(final(events)@) == event_views(old(events)@).push(
            WorkerEventView::Log(LogLevel::Error, "Failed to start async runtime: "@ + error@),
        ),
{
    emit_log(events, LogLevel::Error, text2("Failed to start async runtime: ", error));
}

/// What a worker's panic says: a text that is fixed, or one that was made, or neither.
pub open spec fn panic_text(fixed: Option<Seq<char>>, made: Option<Seq<char>>) -> Seq<char> {
    match fixed {
        Some(text) => text,
        None => match made {
            Some(text) => text,
            None => "unknown panic"@,
        },
    }
}

/// What a worker's panic says.
pub fn panic_message(fixed: Option<&str>, made: Option<&str>) -> (message: String)
    ensures
        message@ == panic_text(
            match fixed {
                Some(text) => Some(text@),
                None => None,
            },
            match made {
                Some(text) => Some(text@),
                None => None,
            },
        ),
{
    match fixed {
        Some(text) => text.to_string(),
        None => match made {
            Some(text) => text.to_string(),
            None => "unknown panic".to_string(),
        },
    }
}

/// Reports that a worker has panicked: an error that says so, and the end of the worker.
pub fn emit_crashed(events: &mut Vec<WorkerEvent>, message: &str)
    ensures
        event_views(final(events)@) == event_views(old(events)@) + seq![
            WorkerEventView::Log(LogLevel::Error, "Worker thread crashed: "@ + message@),
            WorkerEventView::Finished("Worker stopped unexpectedly"@),
        ],
{
    emit_fatal(events, text2("Worker thread crashed: ", message), "Worker stopped unexpectedly");
}

} // verus!
