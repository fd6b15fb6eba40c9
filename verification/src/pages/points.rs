//! The page with the points, and the page with what is republished of them.

use vstd::prelude::*;

use crate::app::message::{Message, MessageView};
use crate::app::{enabled_count, points_cleared, updated, AppView, BacnetRepublisher};
use crate::bacnet::poll::{enabled_of, enabled_points};
use crate::bacnet::{shown, value_text};
use crate::clock::{format_timestamp, is_timestamp_text};
use crate::model::{
    identity_of, lemma_views_push, opt_view, point_display_name, views, PointConfig,
    PointConfigView, PointIdentity, PointSampleView, PointStatus, PointStatusView,
};
use crate::numerals::{decimal, decimal_text};
use crate::pages::inputs::{endpoint, endpoint_text};
use crate::pages::{
    button, button_of, chip_of, counted, enabled_kind, is_last_state, is_last_update, kind_label,
    kind_name, lifecycle_kind, metric, metric_of, mode_hint, mode_label, notice, notice_of,
    points_kind, readout, readout_of, start_label, Button, ButtonView, Chip, ChipKind, ChipView,
    Metric, MetricView, Notice, NoticeView, Readout, ReadoutView,
};
use crate::text::texts;
use crate::worker::text2;

verus! {

/// How many samples are shown.
pub const SHOWN_SAMPLES: usize = 20;

/// A point with its latest value.
#[derive(Debug)]
pub struct PointRow {
    pub enabled: bool,
    pub name: String,
    pub device: String,
    pub chip: Chip,
    pub topic: String,
    pub value: String,
    pub sampled: String,
    pub interval: String,
}

/// The contents of a [`PointRow`].
#[verifier::ext_equal]
pub struct PointRowView {
    pub enabled: bool,
    pub name: Seq<char>,
    pub device: Seq<char>,
    pub chip: ChipView,
    pub topic: Seq<char>,
    pub value: Seq<char>,
    pub sampled: Seq<char>,
    pub interval: Seq<char>,
}

impl View for PointRow {
    type V = PointRowView;

    open spec fn view(&self) -> PointRowView {
        PointRowView {
            enabled: self.enabled,
            name: self.name@,
            device: self.device@,
            chip: self.chip@,
            topic: self.topic@,
            value: self.value@,
            sampled: self.sampled@,
            interval: self.interval@,
        }
    }
}

/// A sample.
#[derive(Debug)]
pub struct SampleRow {
    pub topic: String,
    pub value: String,
    pub sampled: String,
}

/// The contents of a [`SampleRow`].
#[verifier::ext_equal]
pub struct SampleRowView {
    pub topic: Seq<char>,
    pub value: Seq<char>,
    pub sampled: Seq<char>,
}

impl View for SampleRow {
    type V = SampleRowView;

    open spec fn view(&self) -> SampleRowView {
        SampleRowView {
            topic: self.topic@,
            value: self.value@,
            sampled: self.sampled@,
        }
    }
}

/// The page with the points.
#[derive(Debug)]
pub struct PointsPage {
    pub metrics: Vec<Metric>,
    pub editor_title: String,
    pub clear: Button,
    pub rows: Vec<PointRow>,
    pub notice: Option<Notice>,
}

/// The contents of a [`PointsPage`].
#[verifier::ext_equal]
pub struct PointsPageView {
    pub metrics: Seq<MetricView>,
    pub editor_title: Seq<char>,
    pub clear: ButtonView,
    pub rows: Seq<PointRowView>,
    pub notice: Option<NoticeView>,
}

impl View for PointsPage {
    type V = PointsPageView;

    open spec fn view(&self) -> PointsPageView {
        PointsPageView {
            metrics: views(self.metrics@),
            editor_title: self.editor_title@,
            clear: self.clear@,
            rows: views(self.rows@),
            notice: opt_view(self.notice),
        }
    }
}

/// The page with what is republished.
#[derive(Debug)]
pub struct RepublishPage {
    pub metrics: Vec<Metric>,
    pub mode: Chip,
    pub fields: Vec<Readout>,
    pub buttons: Vec<Button>,
    pub enabled: Chip,
    pub points: Vec<PointRow>,
    pub points_notice: Option<Notice>,
    pub samples: Vec<SampleRow>,
    pub samples_notice: Option<Notice>,
}

/// The contents of a [`RepublishPage`].
#[verifier::ext_equal]
pub struct RepublishPageView {
    pub metrics: Seq<MetricView>,
    pub mode: ChipView,
    pub fields: Seq<ReadoutView>,
    pub buttons: Seq<ButtonView>,
    pub enabled: ChipView,
    pub points: Seq<PointRowView>,
    pub points_notice: Option<NoticeView>,
    pub samples: Seq<SampleRowView>,
    pub samples_notice: Option<NoticeView>,
}

impl View for RepublishPage {
    type V = RepublishPageView;

    open spec fn view(&self) -> RepublishPageView {
        RepublishPageView {
            metrics: views(self.metrics@),
            mode: self.mode@,
            fields: views(self.fields@),
            buttons: views(self.buttons@),
            enabled: self.enabled@,
            points: views(self.points@),
            points_notice: opt_view(self.points_notice),
            samples: views(self.samples@),
            samples_notice: opt_view(self.samples_notice),
        }
    }
}

/// The status of a point, where it has one.
pub open spec fn status_of(app: AppView, point: PointConfigView) -> Option<PointStatusView> {
    let identity = identity_of(point);
    if app.point_statuses.contains_key(identity) {
        Some(app.point_statuses[identity])
    } else {
        None
    }
}

/// When a point was last read, where it was.
pub open spec fn last_sample_of(status: Option<PointStatusView>) -> Option<i64> {
    match status {
        Some(known) => known.last_sample_ms,
        None => None,
    }
}

/// The latest value of a point.
pub open spec fn live_value(status: Option<PointStatusView>, number_text: Seq<char>) -> Seq<char> {
    match status {
        Some(known) => match known.last_value {
            Some(value) => shown(value, number_text),
            None => "—"@,
        },
        None => "—"@,
    }
}

/// When a point was last read, given the text of that time.
pub open spec fn sampled_shown(status: Option<PointStatusView>, stamp: Seq<char>) -> Seq<char> {
    match last_sample_of(status) {
        Some(_) => stamp,
        None => "No sample"@,
    }
}

/// How a point is, given the text of the time of its latest sample: a failed read comes before a
/// failed publication, and that before an old value.
pub open spec fn status_chip_of(status: Option<PointStatusView>, stamp: Seq<char>) -> ChipView {
    match status {
        None => chip_of("No sample"@, ChipKind::Neutral),
        Some(known) => if known.last_error is Some {
            chip_of("Read error"@, ChipKind::Danger)
        } else if known.last_publish_error is Some {
            chip_of("Publish error"@, ChipKind::Warning)
        } else if known.stale {
            chip_of("Stale"@, ChipKind::Warning)
        } else if known.last_sample_ms is Some {
            chip_of("OK "@ + stamp, ChipKind::Success)
        } else {
            chip_of("OK"@, ChipKind::Success)
        },
    }
}

/// Whether a text is that of the time of a point's latest sample.
pub open spec fn is_stamp(stamp: Seq<char>, status: Option<PointStatusView>) -> bool {
    match last_sample_of(status) {
        Some(timestamp_ms) => is_timestamp_text(stamp, timestamp_ms),
        None => true,
    }
}

pub open spec fn point_row_of(
    point: PointConfigView,
    status: Option<PointStatusView>,
    number_text: Seq<char>,
    stamp: Seq<char>,
) -> PointRowView {
    PointRowView {
        enabled: point.enabled,
        name: point_display_name(point),
        device: "Device #"@ + decimal(point.device_instance as nat),
        chip: status_chip_of(status, stamp),
        topic: if point.tag_path.len() == 0 {
            "(default topic)"@
        } else {
            point.tag_path
        },
        value: live_value(status, number_text),
        sampled: sampled_shown(status, stamp),
        interval: decimal(point.poll_interval_secs as nat) + "s"@,
    }
}

/// Whether a row shows a point, whatever the time zone is.
pub open spec fn shows_point(
    row: PointRowView,
    point: PointConfigView,
    status: Option<PointStatusView>,
    number_text: Seq<char>,
) -> bool {
    exists|stamp: Seq<char>|
        is_stamp(stamp, status) && row == #[trigger] point_row_of(
            point,
            status,
            number_text,
            stamp,
        )
}

/// Whether rows show points one by one.
pub open spec fn shows_points(
    rows: Seq<PointRowView>,
    points: Seq<PointConfigView>,
    app: AppView,
    number_texts: Seq<Seq<char>>,
) -> bool {
    &&& rows.len() == points.len()
    &&& forall|i: int|
        #![trigger rows[i]]
        0 <= i < rows.len() ==> shows_point(
            rows[i],
            points[i],
            status_of(app, points[i]),
            number_texts[i],
        )
}

/// The latest value of a point; a number is shown as `number_text`.
pub fn live_value_text(status: Option<&PointStatus>, number_text: &str) -> (text: String)
    ensures
        text@ == live_value(
            match status {
                Some(known) => Some(known@),
                None => None,
            },
            number_text@,
        ),
{
    match status {
        Some(known) => match &known.last_value {
            Some(value) => value_text(value, number_text),
            None => "—".to_string(),
        },
        None => "—".to_string(),
    }
}

/// When a point was last read, given the text of that time.
pub fn last_sampled_text(status: Option<&PointStatus>, stamp: &str) -> (text: String)
    ensures
        text@ == sampled_shown(
            match status {
                Some(known) => Some(known@),
                None => None,
            },
            stamp@,
        ),
{
    match status {
        Some(known) => if known.last_sample_ms.is_some() {
            stamp.to_string()
        } else {
            "No sample".to_string()
        },
        None => "No sample".to_string(),
    }
}

/// How a point is, given the text of the time of its latest sample.
pub fn point_status_chip(status: Option<&PointStatus>, stamp: &str) -> (chip: Chip)
    ensures
        chip@ == status_chip_of(
            match status {
                Some(known) => Some(known@),
                None => None,
            },
            stamp@,
        ),
{
    match status {
        None => Chip { label: "No sample".to_string(), kind: ChipKind::Neutral },
        Some(known) => if known.last_error.is_some() {
            Chip { label: "Read error".to_string(), kind: ChipKind::Danger }
        } else if known.last_publish_error.is_some() {
            Chip { label: "Publish error".to_string(), kind: ChipKind::Warning }
        } else if known.stale {
            Chip { label: "Stale".to_string(), kind: ChipKind::Warning }
        } else if known.last_sample_ms.is_some() {
            Chip { label: text2("OK ", stamp), kind: ChipKind::Success }
        } else {
            Chip { label: "OK".to_string(), kind: ChipKind::Success }
        },
    }
}

/// A point with its status, given the texts of its latest number and of its time.
pub fn point_row(
    point: &PointConfig,
    status: Option<&PointStatus>,
    number_text: &str,
    stamp: &str,
) -> (row: PointRow)
    ensures
        row@ == point_row_of(
            point@,
            match status {
                Some(known) => Some(known@),
                None => None,
            },
            number_text@,
            stamp@,
        ),
{
    let topic = if point.tag_path.as_str().is_empty() {
        "(default topic)".to_string()
    } else {
        point.tag_path.clone()
    };
    PointRow {
        enabled: point.enabled,
        name: point.display_name(),
        device: text2("Device #", decimal_text(point.device_instance as u64).as_str()),
        chip: point_status_chip(status, stamp),
        topic,
        value: live_value_text(status, number_text),
        sampled: last_sampled_text(status, stamp),
        interval: text2(decimal_text(point.poll_interval_secs).as_str(), "s"),
    }
}

/// Whether a page shows the points.
pub open spec fn is_points(
    page: PointsPageView,
    app: AppView,
    number_text: Seq<char>,
    number_texts: Seq<Seq<char>>,
) -> bool {
    let enabled = enabled_count(app.config.points);
    let kind = points_kind(app);
    &&& page.metrics.len() == 3
    &&& page.metrics[0] == metric_of(
        "Configured"@,
        decimal(app.config.points.len()),
        "BACnet objects tracked"@,
        ChipKind::Accent,
    )
    &&& page.metrics[1] == metric_of(
        "Enabled"@,
        decimal(enabled),
        "Included in polling"@,
        enabled_kind(enabled),
    )
    &&& page.metrics[2] == metric_of(
        "Point health"@,
        kind_name(kind, "No samples"@),
        page.metrics[2].hint,
        kind,
    )
    &&& is_last_state(page.metrics[2].hint, app, number_text)
    &&& page.editor_title == if app.selected_point is Some {
        "Edit point"@
    } else {
        "New point"@
    }
    &&& page.clear == clear_button_of(app)
    &&& shows_points(page.rows, app.config.points, app, number_texts)
    &&& page.notice == if app.config.points.len() == 0 {
        Some(
            notice_of(
                "No points configured."@,
                "Add points manually or seed them from a BACnet object scan."@,
            ),
        )
    } else {
        None
    }
}

/// The button that clears: it can be pressed while there is something to clear.
pub open spec fn clear_button_of(app: AppView) -> ButtonView {
    ButtonView {
        label: if app.clear_points_armed {
            "Confirm clear"@
        } else {
            "Clear all"@
        },
        message: if app.config.points.len() > 0 || app.scanned_objects.len() > 0 {
            Some(MessageView::ClearAllPoints)
        } else {
            None
        },
    }
}

/// The latest samples, the newest first.
pub open spec fn newest_samples(samples: Seq<PointSampleView>, count: nat) -> Seq<PointSampleView> {
    let shown = if samples.len() < count {
        samples.len()
    } else {
        count
    };
    Seq::new(shown, |i: int| samples[samples.len() - 1 - i])
}

/// Whether a row shows a sample, whatever the time zone is.
pub open spec fn shows_sample(
    row: SampleRowView,
    sample: PointSampleView,
    number_text: Seq<char>,
) -> bool {
    &&& row.topic == sample.topic
    &&& row.value == shown(sample.value, number_text)
    &&& is_timestamp_text(row.sampled, sample.timestamp_ms)
}

/// Whether rows show samples one by one.
pub open spec fn shows_samples(
    rows: Seq<SampleRowView>,
    samples: Seq<PointSampleView>,
    number_texts: Seq<Seq<char>>,
) -> bool {
    &&& rows.len() == samples.len()
    &&& forall|i: int|
        #![trigger rows[i]]
        0 <= i < rows.len() ==> shows_sample(rows[i], samples[i], number_texts[i])
}

pub open spec fn republish_fields(app: AppView) -> Seq<ReadoutView> {
    let mqtt = app.config.mqtt;
    seq![
        readout_of("Endpoint"@, endpoint(mqtt.host, decimal(mqtt.port as nat), mqtt.use_tls)),
        readout_of("Topic prefix"@, mqtt.topic_prefix),
        readout_of("Health topic"@, mqtt.health_topic),
    ]
}

pub open spec fn republish_buttons(app: AppView) -> Seq<ButtonView> {
    seq![
        button_of("Poll once"@, MessageView::PollAndPublish),
        button_of(start_label(app.republisher_state), MessageView::StartRepublisher),
        button_of("Stop"@, MessageView::StopRepublisher),
    ]
}

/// Whether metrics show what is republished.
pub open spec fn is_republish_metrics(metrics: Seq<MetricView>, app: AppView) -> bool {
    let enabled = enabled_count(app.config.points);
    &&& metrics.len() == 3
    &&& metrics[0] == metric_of(
        "Mode"@,
        mode_label(app.republisher_state),
        mode_hint(app.republisher_state),
        lifecycle_kind(app.republisher_state),
    )
    &&& metrics[1] == metric_of(
        "Enabled points"@,
        decimal(enabled),
        "Eligible for MQTT publish"@,
        enabled_kind(enabled),
    )
    &&& metrics[2] == metric_of(
        "Last update"@,
        metrics[2].value,
        decimal(app.recent_samples.len()) + " recent sample(s)"@,
        points_kind(app),
    )
    &&& is_last_update(metrics[2].value, app)
}

/// Whether a page shows what is republished.
pub open spec fn is_republish(
    page: RepublishPageView,
    app: AppView,
    point_numbers: Seq<Seq<char>>,
    sample_numbers: Seq<Seq<char>>,
) -> bool {
    let enabled = enabled_count(app.config.points);
    &&& is_republish_metrics(page.metrics, app)
    &&& page.mode == chip_of(
        mode_label(app.republisher_state),
        lifecycle_kind(app.republisher_state),
    )
    &&& page.fields == republish_fields(app)
    &&& page.buttons == republish_buttons(app)
    &&& page.enabled == chip_of(
        decimal(enabled) + " enabled point(s)"@,
        if enabled > 0 {
            ChipKind::Accent
        } else {
            ChipKind::Warning
        },
    )
    &&& shows_points(page.points, enabled_of(app.config.points), app, point_numbers)
    &&& page.points_notice == if enabled == 0 {
        Some(
            notice_of(
                "No enabled points."@,
                "Enable at least one point to show live republished values."@,
            ),
        )
    } else {
        None
    }
    &&& shows_samples(
        page.samples,
        newest_samples(app.recent_samples, SHOWN_SAMPLES as nat),
        sample_numbers,
    )
    &&& page.samples_notice == if app.recent_samples.len() == 0 {
        Some(
            notice_of(
                "No point samples published yet."@,
                "Use Discover → Scan all to seed points, then poll or start the republisher."@,
            ),
        )
    } else {
        None
    }
}

impl BacnetRepublisher {
    /// The rows of points; the latest number of each is shown as its text in `number_texts`.
    fn point_rows(&self, points: &Vec<PointConfig>, number_texts: &Vec<String>) -> (rows: Vec<
        PointRow,
    >)
        requires
            self.well_formed(),
            number_texts@.len() == points@.len(),
        ensures
            shows_points(views(rows@), views(points@), self@, texts(number_texts@)),
    {
        let mut rows: Vec<PointRow> = Vec::new();
        let mut i: usize = 0;
        while i < points.len()
            invariant
                i <= points@.len(),
                self.well_formed(),
                number_texts@.len() == points@.len(),
                rows@.len() == i,
                forall|k: int|
                    #![trigger rows@[k]]
                    0 <= k < i ==> shows_point(
                        rows@[k]@,
                        points@[k]@,
                        status_of(self@, points@[k]@),
                        number_texts@[k]@,
                    ),
            decreases points.len() - i,
        {
            let status = self.point_statuses.get(&PointIdentity::from_point(&points[i]));
            let stamp = match status {
                Some(known) => match known.last_sample_ms {
                    Some(timestamp_ms) => format_timestamp(timestamp_ms),
                    None => String::new(),
                },
                None => String::new(),
            };
            let row = point_row(&points[i], status, number_texts[i].as_str(), stamp.as_str());
            proof {
                let known = status_of(self@, points@[i as int]@);
                assert(is_stamp(stamp@, known));
                assert(row@ == point_row_of(
                    points@[i as int]@,
                    known,
                    number_texts@[i as int]@,
                    stamp@,
                ));
            }
            rows.push(row);
            i += 1;
        }
        rows
    }

    fn clear_button(&self) -> (result: Button)
        ensures
            result@ == clear_button_of(self@),
    {
        let label = if self.clear_points_armed {
            "Confirm clear".to_string()
        } else {
            "Clear all".to_string()
        };
        let message = if self.config.points.len() > 0 || self.scanned_objects.len() > 0 {
            Some(Message::ClearAllPoints)
        } else {
            None
        };
        Button { label, message }
    }

    /// The page with the points; the number of the latest sample is shown as `number_text`, and
    /// the latest number of each point as its text in `number_texts`.
    pub fn points_page(&self, number_text: &str, number_texts: &Vec<String>) -> (page: PointsPage)
        requires
            self.well_formed(),
            number_texts@.len() == self.config.points@.len(),
        ensures
            is_points(page@, self@, number_text@, texts(number_texts@)),
    {
        broadcast use lemma_views_push;
        let enabled: usize = self.enabled_point_count();
        let kind = self.overall_point_kind();
        let enabled_as = if enabled == 0 {
            ChipKind::Warning
        } else {
            ChipKind::Success
        };
        let mut metrics: Vec<Metric> = Vec::new();
        metrics.push(
            metric(
                "Configured",
                decimal_text(self.config.points.len() as u64),
                "BACnet objects tracked".to_string(),
                ChipKind::Accent,
            ),
        );
        metrics.push(
            metric(
                "Enabled",
                decimal_text(enabled as u64),
                "Included in polling".to_string(),
                enabled_as,
            ),
        );
        metrics.push(
            metric(
                "Point health",
                kind_label(kind, "No samples"),
                self.last_point_state(number_text),
                kind,
            ),
        );
        let editor_title = if self.selected_point.is_some() {
            "Edit point".to_string()
        } else {
            "New point".to_string()
        };
        let notice = if self.config.points.len() == 0 {
            Some(
                notice(
                    "No points configured.",
                    "Add points manually or seed them from a BACnet object scan.",
                ),
            )
        } else {
            None
        };
        PointsPage {
            metrics,
            editor_title,
            clear: self.clear_button(),
            rows: self.point_rows(&self.config.points, number_texts),
            notice,
        }
    }

    fn sample_rows(&self, number_texts: &Vec<String>) -> (rows: Vec<SampleRow>)
        requires
            number_texts@.len() >= newest_samples(
                self@.recent_samples,
                SHOWN_SAMPLES as nat,
            ).len(),
        ensures
            shows_samples(
                views(rows@),
                newest_samples(self@.recent_samples, SHOWN_SAMPLES as nat),
                texts(number_texts@),
            ),
    {
        let ghost chosen = newest_samples(self@.recent_samples, SHOWN_SAMPLES as nat);
        let count: usize = self.recent_samples.len();
        assert(views(self.recent_samples@).len() == count);
        let shown: usize = if count < SHOWN_SAMPLES {
            count
        } else {
            SHOWN_SAMPLES
        };
        let mut rows: Vec<SampleRow> = Vec::new();
        let mut i: usize = 0;
        while i < shown
            invariant
                i <= shown,
                shown <= count,
                count == self.recent_samples@.len(),
                shown == chosen.len(),
                chosen == newest_samples(self@.recent_samples, SHOWN_SAMPLES as nat),
                shown <= number_texts@.len(),
                rows@.len() == i,
                forall|k: int|
                    #![trigger rows@[k]]
                    0 <= k < i ==> shows_sample(rows@[k]@, chosen[k], number_texts@[k]@),
            decreases shown - i,
        {
            let sample = &self.recent_samples[count - 1 - i];
            assert(chosen[i as int] == sample@);
            rows.push(
                SampleRow {
                    topic: sample.topic.clone(),
                    value: value_text(&sample.value, number_texts[i].as_str()),
                    sampled: format_timestamp(sample.timestamp_ms),
                },
            );
            i += 1;
        }
        rows
    }

    fn republish_metrics(&self) -> (metrics: Vec<Metric>)
        requires
            self.well_formed(),
        ensures
            is_republish_metrics(views(metrics@), self@),
    {
        broadcast use lemma_views_push;
        let enabled: usize = self.enabled_point_count();
        let enabled_as = if enabled == 0 {
            ChipKind::Warning
        } else {
            ChipKind::Success
        };
        let mut metrics: Vec<Metric> = Vec::new();
        metrics.push(
            metric(
                "Mode",
                self.republisher_mode_label(),
                self.republisher_mode_hint(),
                self.republisher_chip_kind(),
            ),
        );
        metrics.push(
            metric(
                "Enabled points",
                decimal_text(enabled as u64),
                "Eligible for MQTT publish".to_string(),
                enabled_as,
            ),
        );
        metrics.push(
            metric(
                "Last update",
                self.last_update_text(),
                counted(self.recent_samples.len(), " recent sample(s)"),
                self.overall_point_kind(),
            ),
        );
        metrics
    }

    fn republish_fields(&self) -> (fields: Vec<Readout>)
        ensures
            views(fields@) == republish_fields(self@),
    {
        broadcast use lemma_views_push;
        let mqtt = &self.config.mqtt;
        let mut fields: Vec<Readout> = Vec::new();
        fields.push(
            readout(
                "Endpoint",
                endpoint_text(
                    mqtt.host.as_str(),
                    decimal_text(mqtt.port as u64).as_str(),
                    mqtt.use_tls,
                ),
            ),
        );
        fields.push(readout("Topic prefix", mqtt.topic_prefix.clone()));
        fields.push(readout("Health topic", mqtt.health_topic.clone()));
        assert(views(fields@) =~= republish_fields(self@));
        fields
    }

    fn republish_buttons(&self) -> (buttons: Vec<Button>)
        ensures
            views(buttons@) == republish_buttons(self@),
    {
        broadcast use lemma_views_push;
        let mut buttons: Vec<Button> = Vec::new();
        buttons.push(button("Poll once", Message::PollAndPublish));
        buttons.push(
            button(self.republisher_start_label().as_str(), Message::StartRepublisher),
        );
        buttons.push(button("Stop", Message::StopRepublisher));
        assert(views(buttons@) =~= republish_buttons(self@));
        buttons
    }

    /// The page with what is republished; the latest number of each enabled point is shown as its
    /// text in `point_numbers`, and the numbers of the samples, the newest first, as theirs in
    /// `sample_numbers`.
    pub fn republish_page(
        &self,
        point_numbers: &Vec<String>,
        sample_numbers: &Vec<String>,
    ) -> (page: RepublishPage)
        requires
            self.well_formed(),
            point_numbers@.len() == enabled_count(self@.config.points),
            sample_numbers@.len() >= newest_samples(
                self@.recent_samples,
                SHOWN_SAMPLES as nat,
            ).len(),
        ensures
            is_republish(page@, self@, texts(point_numbers@), texts(sample_numbers@)),
    {
        let points = enabled_points(self.config.points.as_slice());
        assert(views(points@).len() == points@.len());
        let enabled: usize = points.len();
        let points_notice = if enabled == 0 {
            Some(
                notice(
                    "No enabled points.",
                    "Enable at least one point to show live republished values.",
                ),
            )
        } else {
            None
        };
        let samples_notice = if self.recent_samples.len() == 0 {
            Some(
                notice(
                    "No point samples published yet.",
                    "Use Discover → Scan all to seed points, then poll or start the republisher.",
                ),
            )
        } else {
            None
        };
        RepublishPage {
            metrics: self.republish_metrics(),
            mode: Chip {
                label: self.republisher_mode_label(),
                kind: self.republisher_chip_kind(),
            },
            fields: self.republish_fields(),
            buttons: self.republish_buttons(),
            enabled: Chip {
                label: counted(enabled, " enabled point(s)"),
                kind: if enabled > 0 {
                    ChipKind::Accent
                } else {
                    ChipKind::Warning
                },
            },
            points: self.point_rows(&points, point_numbers),
            points_notice,
            samples: self.sample_rows(sample_numbers),
            samples_notice,
        }
    }
}

/// The button says whether the next press clears: pressed as "Confirm clear" it clears everything,
/// pressed as "Clear all" it clears nothing.
pub proof fn law_clear_button_tells_what_it_does(app: AppView)
    requires
        clear_button_of(app).message is Some,
    ensures
        clear_button_of(app).label == "Confirm clear"@ ==> updated(
            app,
            MessageView::ClearAllPoints,
        ).0.config.points.len() == 0,
        clear_button_of(app).label == "Clear all"@ ==> updated(
            app,
            MessageView::ClearAllPoints,
        ).0.config.points == app.config.points,
{
    reveal(points_cleared);
    reveal_strlit("Confirm clear");
    reveal_strlit("Clear all");
    assert("Confirm clear"@.len() != "Clear all"@.len());
}

} // verus!
