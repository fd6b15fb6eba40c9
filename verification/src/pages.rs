//! What the pages of the user interface show.

use vstd::prelude::*;

use crate::app::message::{Message, MessageView};
use crate::app::page::{
    compact_config_path, components, is_portable, last_name, short_path, without_last, Page,
};
use crate::app::{enabled_count, is_active, AppView, BacnetRepublisher};
use crate::address::address_text;
use crate::bacnet::{shown, value_text};
use crate::clock::{format_timestamp, is_timestamp_text};
use crate::log::{times_of, Elapsed, LogEntryView, LogLevel};
use crate::model::{lemma_views_push, opt_view, views};
use crate::numerals::{decimal, decimal_text};
use crate::worker::{text2, text3, RepublisherLifecycle, RepublisherLifecycleView};

pub mod discover;
pub mod inputs;
pub mod points;

verus! {

/// How a chip or a metric is coloured.
#[derive(Debug, Clone, Copy, PartialEq, Eq, Structural)]
pub enum ChipKind {
    Neutral,
    Accent,
    Success,
    Warning,
    Danger,
}

/// A short label.
#[derive(Debug)]
pub struct Chip {
    pub label: String,
    pub kind: ChipKind,
}

/// The contents of a [`Chip`].
#[verifier::ext_equal]
pub struct ChipView {
    pub label: Seq<char>,
    pub kind: ChipKind,
}

impl View for Chip {
    type V = ChipView;

    open spec fn view(&self) -> ChipView {
        ChipView {
            label: self.label@,
            kind: self.kind,
        }
    }
}

/// A figure with what it is and a hint.
#[derive(Debug)]
pub struct Metric {
    pub label: String,
    pub value: String,
    pub hint: String,
    pub kind: ChipKind,
}

/// The contents of a [`Metric`].
#[verifier::ext_equal]
pub struct MetricView {
    pub label: Seq<char>,
    pub value: Seq<char>,
    pub hint: Seq<char>,
    pub kind: ChipKind,
}

impl View for Metric {
    type V = MetricView;

    open spec fn view(&self) -> MetricView {
        MetricView {
            label: self.label@,
            value: self.value@,
            hint: self.hint@,
            kind: self.kind,
        }
    }
}

/// A value with what it is.
#[derive(Debug)]
pub struct Readout {
    pub label: String,
    pub value: String,
}

/// The contents of a [`Readout`].
#[verifier::ext_equal]
pub struct ReadoutView {
    pub label: Seq<char>,
    pub value: Seq<char>,
}

impl View for Readout {
    type V = ReadoutView;

    open spec fn view(&self) -> ReadoutView {
        ReadoutView {
            label: self.label@,
            value: self.value@,
        }
    }
}

/// What is shown in place of an empty list.
#[derive(Debug)]
pub struct Notice {
    pub title: String,
    pub detail: String,
}

/// The contents of a [`Notice`].
#[verifier::ext_equal]
pub struct NoticeView {
    pub title: Seq<char>,
    pub detail: Seq<char>,
}

impl View for Notice {
    type V = NoticeView;

    open spec fn view(&self) -> NoticeView {
        NoticeView {
            title: self.title@,
            detail: self.detail@,
        }
    }
}

/// A button, with the message that it sends where it can be pressed.
#[derive(Debug)]
pub struct Button {
    pub label: String,
    pub message: Option<Message>,
}

/// The contents of a [`Button`].
#[verifier::ext_equal]
pub struct ButtonView {
    pub label: Seq<char>,
    pub message: Option<MessageView>,
}

impl View for Button {
    type V = ButtonView;

    open spec fn view(&self) -> ButtonView {
        ButtonView {
            label: self.label@,
            message: opt_view(self.message),
        }
    }
}

/// A message of the log.
#[derive(Debug)]
pub struct LogRow {
    pub chip: Chip,
    pub number: String,
    pub elapsed: String,
    pub message: String,
}

/// The contents of a [`LogRow`].
#[verifier::ext_equal]
pub struct LogRowView {
    pub chip: ChipView,
    pub number: Seq<char>,
    pub elapsed: Seq<char>,
    pub message: Seq<char>,
}

impl View for LogRow {
    type V = LogRowView;

    open spec fn view(&self) -> LogRowView {
        LogRowView {
            chip: self.chip@,
            number: self.number@,
            elapsed: self.elapsed@,
            message: self.message@,
        }
    }
}

/// What stands above a page.
#[derive(Debug)]
pub struct PageShell {
    pub title: String,
    pub subtitle: String,
    pub chips: Vec<Chip>,
}

/// The contents of a [`PageShell`].
#[verifier::ext_equal]
pub struct PageShellView {
    pub title: Seq<char>,
    pub subtitle: Seq<char>,
    pub chips: Seq<ChipView>,
}

impl View for PageShell {
    type V = PageShellView;

    open spec fn view(&self) -> PageShellView {
        PageShellView {
            title: self.title@,
            subtitle: self.subtitle@,
            chips: views(self.chips@),
        }
    }
}

/// A page in the sidebar.
#[derive(Debug)]
pub struct NavItem {
    pub page: Page,
    pub title: String,
    pub selected: bool,
}

/// The contents of a [`NavItem`].
#[verifier::ext_equal]
pub struct NavItemView {
    pub page: Page,
    pub title: Seq<char>,
    pub selected: bool,
}

impl View for NavItem {
    type V = NavItemView;

    open spec fn view(&self) -> NavItemView {
        NavItemView {
            page: self.page,
            title: self.title@,
            selected: self.selected,
        }
    }
}

/// What stands beside a page.
#[derive(Debug)]
pub struct Sidebar {
    pub chip: Chip,
    pub items: Vec<NavItem>,
    pub target: String,
    pub transport: String,
}

/// The contents of a [`Sidebar`].
#[verifier::ext_equal]
pub struct SidebarView {
    pub chip: ChipView,
    pub items: Seq<NavItemView>,
    pub target: Seq<char>,
    pub transport: Seq<char>,
}

impl View for Sidebar {
    type V = SidebarView;

    open spec fn view(&self) -> SidebarView {
        SidebarView {
            chip: self.chip@,
            items: views(self.items@),
            target: self.target@,
            transport: self.transport@,
        }
    }
}

/// What stands below a page.
#[derive(Debug)]
pub struct StatusBar {
    pub chip: Chip,
    pub counts: String,
    pub config: String,
}

/// The contents of a [`StatusBar`].
#[verifier::ext_equal]
pub struct StatusBarView {
    pub chip: ChipView,
    pub counts: Seq<char>,
    pub config: Seq<char>,
}

impl View for StatusBar {
    type V = StatusBarView;

    open spec fn view(&self) -> StatusBarView {
        StatusBarView {
            chip: self.chip@,
            counts: self.counts@,
            config: self.config@,
        }
    }
}

/// The page with the operational status.
#[derive(Debug)]
pub struct OverviewPage {
    pub metrics: Vec<Metric>,
    pub buttons: Vec<Button>,
    pub fields: Vec<Readout>,
    pub log: Vec<LogRow>,
    pub notice: Option<Notice>,
}

/// The contents of a [`OverviewPage`].
#[verifier::ext_equal]
pub struct OverviewPageView {
    pub metrics: Seq<MetricView>,
    pub buttons: Seq<ButtonView>,
    pub fields: Seq<ReadoutView>,
    pub log: Seq<LogRowView>,
    pub notice: Option<NoticeView>,
}

impl View for OverviewPage {
    type V = OverviewPageView;

    open spec fn view(&self) -> OverviewPageView {
        OverviewPageView {
            metrics: views(self.metrics@),
            buttons: views(self.buttons@),
            fields: views(self.fields@),
            log: views(self.log@),
            notice: opt_view(self.notice),
        }
    }
}

/// The page with the log.
#[derive(Debug)]
pub struct LogsPage {
    pub metrics: Vec<Metric>,
    pub chip: Chip,
    pub log: Vec<LogRow>,
}

/// The contents of a [`LogsPage`].
#[verifier::ext_equal]
pub struct LogsPageView {
    pub metrics: Seq<MetricView>,
    pub chip: ChipView,
    pub log: Seq<LogRowView>,
}

impl View for LogsPage {
    type V = LogsPageView;

    open spec fn view(&self) -> LogsPageView {
        LogsPageView {
            metrics: views(self.metrics@),
            chip: self.chip@,
            log: views(self.log@),
        }
    }
}

pub open spec fn chip_of(label: Seq<char>, kind: ChipKind) -> ChipView {
    ChipView { label, kind }
}

pub open spec fn metric_of(
    label: Seq<char>,
    value: Seq<char>,
    hint: Seq<char>,
    kind: ChipKind,
) -> MetricView {
    MetricView { label, value, hint, kind }
}

pub open spec fn readout_of(label: Seq<char>, value: Seq<char>) -> ReadoutView {
    ReadoutView { label, value }
}

pub open spec fn notice_of(title: Seq<char>, detail: Seq<char>) -> NoticeView {
    NoticeView { title, detail }
}

pub open spec fn button_of(label: Seq<char>, message: MessageView) -> ButtonView {
    ButtonView { label, message: Some(message) }
}

pub(crate) fn metric(label: &str, value: String, hint: String, kind: ChipKind) -> (result: Metric)
    ensures
        result@ == metric_of(label@, value@, hint@, kind),
{
    Metric { label: label.to_string(), value, hint, kind }
}

pub(crate) fn readout(label: &str, value: String) -> (result: Readout)
    ensures
        result@ == readout_of(label@, value@),
{
    Readout { label: label.to_string(), value }
}

pub(crate) fn notice(title: &str, detail: &str) -> (result: Notice)
    ensures
        result@ == notice_of(title@, detail@),
{
    Notice { title: title.to_string(), detail: detail.to_string() }
}

pub(crate) fn button(label: &str, message: Message) -> (result: Button)
    ensures
        result@ == button_of(label@, message@),
{
    Button { label: label.to_string(), message: Some(message) }
}

/// A number with a text behind it.
pub(crate) fn counted(count: usize, text: &str) -> (result: String)
    ensures
        result@ == decimal(count as nat) + text@,
{
    text2(decimal_text(count as u64).as_str(), text)
}

/// What a kind is called; `otherwise` for those that say neither good nor bad.
pub open spec fn kind_name(kind: ChipKind, otherwise: Seq<char>) -> Seq<char> {
    match kind {
        ChipKind::Success => "OK"@,
        ChipKind::Warning => "Attention"@,
        ChipKind::Danger => "Error"@,
        _ => otherwise,
    }
}

pub fn kind_label(kind: ChipKind, otherwise: &str) -> (label: String)
    ensures
        label@ == kind_name(kind, otherwise@),
{
    match kind {
        ChipKind::Success => "OK".to_string(),
        ChipKind::Warning => "Attention".to_string(),
        ChipKind::Danger => "Error".to_string(),
        _ => otherwise.to_string(),
    }
}

/// How messages of a level are coloured.
pub open spec fn kind_of_level(level: LogLevel) -> ChipKind {
    match level {
        LogLevel::Error => ChipKind::Danger,
        LogLevel::Warning => ChipKind::Warning,
        LogLevel::Info => ChipKind::Accent,
    }
}

pub fn level_kind(level: LogLevel) -> (kind: ChipKind)
    ensures
        kind == kind_of_level(level),
{
    match level {
        LogLevel::Error => ChipKind::Danger,
        LogLevel::Warning => ChipKind::Warning,
        LogLevel::Info => ChipKind::Accent,
    }
}

/// How a number of enabled points is coloured: none is worth a warning.
pub open spec fn enabled_kind(count: nat) -> ChipKind {
    if count == 0 {
        ChipKind::Warning
    } else {
        ChipKind::Success
    }
}

pub open spec fn sidebar_label(state: RepublisherLifecycleView) -> Seq<char> {
    match state {
        RepublisherLifecycleView::Starting => "STARTING"@,
        RepublisherLifecycleView::Running => "LIVE REPUBLISH"@,
        RepublisherLifecycleView::Stopping => "STOPPING"@,
        RepublisherLifecycleView::Stopped => "STANDBY"@,
        RepublisherLifecycleView::Failed(_) => "FAILED"@,
    }
}

pub open spec fn mode_label(state: RepublisherLifecycleView) -> Seq<char> {
    match state {
        RepublisherLifecycleView::Starting => "Starting"@,
        RepublisherLifecycleView::Running => "Running"@,
        RepublisherLifecycleView::Stopping => "Stopping"@,
        RepublisherLifecycleView::Stopped => "Stopped"@,
        RepublisherLifecycleView::Failed(_) => "Failed"@,
    }
}

pub open spec fn mode_hint(state: RepublisherLifecycleView) -> Seq<char> {
    match state {
        RepublisherLifecycleView::Starting => "Preparing MQTT and BACnet clients"@,
        RepublisherLifecycleView::Running => "Continuous republisher active"@,
        RepublisherLifecycleView::Stopping => "Waiting for current loop to exit"@,
        RepublisherLifecycleView::Stopped => "Poll once or start loop"@,
        RepublisherLifecycleView::Failed(reason) => reason,
    }
}

pub open spec fn start_label(state: RepublisherLifecycleView) -> Seq<char> {
    match state {
        RepublisherLifecycleView::Starting => "Starting"@,
        RepublisherLifecycleView::Running => "Running"@,
        RepublisherLifecycleView::Stopping => "Stopping"@,
        RepublisherLifecycleView::Stopped => "Start republisher"@,
        RepublisherLifecycleView::Failed(_) => "Restart republisher"@,
    }
}

pub open spec fn lifecycle_kind(state: RepublisherLifecycleView) -> ChipKind {
    match state {
        RepublisherLifecycleView::Starting => ChipKind::Warning,
        RepublisherLifecycleView::Running => ChipKind::Success,
        RepublisherLifecycleView::Stopping => ChipKind::Warning,
        RepublisherLifecycleView::Stopped => ChipKind::Neutral,
        RepublisherLifecycleView::Failed(_) => ChipKind::Danger,
    }
}

/// Whether a point failed to be read when it was last tried.
pub open spec fn has_read_error(app: AppView) -> bool {
    exists|identity| #[trigger]
        app.point_statuses.contains_key(identity) && app.point_statuses[identity].last_error
            is Some
}

/// Whether a point is stale, or failed to be published when it was last tried.
pub open spec fn has_stale_or_unpublished(app: AppView) -> bool {
    exists|identity| #[trigger]
        app.point_statuses.contains_key(identity) && (app.point_statuses[identity].stale
            || app.point_statuses[identity].last_publish_error is Some)
}

/// How the points are as a whole.
pub open spec fn points_kind(app: AppView) -> ChipKind {
    if has_read_error(app) {
        ChipKind::Danger
    } else if has_stale_or_unpublished(app) {
        ChipKind::Warning
    } else if app.recent_samples.len() == 0 {
        ChipKind::Neutral
    } else {
        ChipKind::Success
    }
}

/// Whether a text says what the latest sample is: its value and its time, or how many points are
/// known where there is no sample.
pub open spec fn is_last_state(text: Seq<char>, app: AppView, number_text: Seq<char>) -> bool {
    if app.recent_samples.len() > 0 {
        let sample = app.recent_samples.last();
        exists|stamp: Seq<char>|
            #![trigger is_timestamp_text(stamp, sample.timestamp_ms)]
            is_timestamp_text(stamp, sample.timestamp_ms) && text == shown(
                sample.value,
                number_text,
            ) + " at "@ + stamp
    } else if app.point_statuses.dom().len() == 0 {
        text == "No samples recorded"@
    } else {
        text == decimal(app.point_statuses.dom().len()) + " tracked point state(s)"@
    }
}

/// Whether a text says when the latest sample was taken.
pub open spec fn is_last_update(text: Seq<char>, app: AppView) -> bool {
    if app.recent_samples.len() > 0 {
        is_timestamp_text(text, app.recent_samples.last().timestamp_ms)
    } else {
        text == "No samples"@
    }
}

/// The address that BACnet is bound to, or what is said where none is selected.
pub open spec fn bind_shown(app: AppView, otherwise: Seq<char>) -> Seq<char> {
    match app.config.bacnet.selected_interface {
        Some(address) => address_text(address),
        None => otherwise,
    }
}

/// What stands beside the names of the pages: the state that is worth a look.
pub open spec fn state_chips(app: AppView) -> Seq<ChipView> {
    let working = if app.working {
        chip_of("Working"@, ChipKind::Warning)
    } else {
        chip_of("Ready"@, ChipKind::Success)
    };
    let state = app.republisher_state;
    if is_active(state) || state is Failed {
        seq![working, chip_of(mode_label(state), lifecycle_kind(state))]
    } else {
        seq![working]
    }
}

/// What a page is for.
pub open spec fn page_subtitle(page: Page) -> Seq<char> {
    match page {
        Page::Overview => "Operational status, publishing health, and fast actions."@,
        Page::Discover => "Find BACnet/IP devices and seed point configuration."@,
        Page::Points => "Manage BACnet objects and MQTT tag paths."@,
        Page::Republish => "Poll configured BACnet points and publish scalar MQTT values."@,
        Page::Settings => "Configure BACnet transport, MQTT destination, and local preferences."@,
        Page::Logs => "Recent app, BACnet, and MQTT activity."@,
    }
}

pub fn subtitle(page: Page) -> (text: String)
    ensures
        text@ == page_subtitle(page),
{
    match page {
        Page::Overview => "Operational status, publishing health, and fast actions.".to_string(),
        Page::Discover => "Find BACnet/IP devices and seed point configuration.".to_string(),
        Page::Points => "Manage BACnet objects and MQTT tag paths.".to_string(),
        Page::Republish =>
            "Poll configured BACnet points and publish scalar MQTT values.".to_string(),
        Page::Settings =>
            "Configure BACnet transport, MQTT destination, and local preferences.".to_string(),
        Page::Logs => "Recent app, BACnet, and MQTT activity.".to_string(),
    }
}

/// A number with at least four digits.
pub open spec fn four_digits(number: nat) -> Seq<char> {
    if number < 10 {
        "000"@ + decimal(number)
    } else if number < 100 {
        "00"@ + decimal(number)
    } else if number < 1000 {
        "0"@ + decimal(number)
    } else {
        decimal(number)
    }
}

fn padded(number: u64) -> (text: String)
    ensures
        text@ == four_digits(number as nat),
{
    let digits = decimal_text(number);
    if number < 10 {
        text2("000", digits.as_str())
    } else if number < 100 {
        text2("00", digits.as_str())
    } else if number < 1000 {
        text2("0", digits.as_str())
    } else {
        digits
    }
}

/// What a level is called.
pub open spec fn level_name(level: LogLevel) -> Seq<char> {
    match level {
        LogLevel::Info => "INFO"@,
        LogLevel::Warning => "WARN"@,
        LogLevel::Error => "ERROR"@,
    }
}

pub open spec fn log_row_of(entry: LogEntryView, elapsed_secs: u64) -> LogRowView {
    LogRowView {
        chip: chip_of(level_name(entry.level), kind_of_level(entry.level)),
        number: "#"@ + four_digits(entry.sequence as nat),
        elapsed: "+"@ + decimal(elapsed_secs as nat) + "s"@,
        message: entry.message,
    }
}

pub fn log_row(sequence: u64, elapsed_secs: u64, level: LogLevel, message: &str) -> (row: LogRow)
    ensures
        row@ == log_row_of(LogEntryView { sequence, level, message: message@ }, elapsed_secs),
{
    LogRow {
        chip: Chip { label: level.to_text(), kind: level_kind(level) },
        number: text2("#", padded(sequence).as_str()),
        elapsed: text3("+", decimal_text(elapsed_secs).as_str(), "s"),
        message: message.to_string(),
    }
}

/// The last items of a list, the last first.
pub open spec fn newest<T>(entries: Seq<T>, count: nat) -> Seq<T> {
    let shown = if entries.len() < count {
        entries.len()
    } else {
        count
    };
    Seq::new(shown, |i: int| entries[entries.len() - 1 - i])
}

/// The rows that show entries, which were written at these times.
pub open spec fn log_rows_of(entries: Seq<LogEntryView>, times: Seq<Elapsed>) -> Seq<LogRowView> {
    Seq::new(entries.len(), |i: int| log_row_of(entries[i], times[i].secs))
}

pub open spec fn overview_kind(app: AppView) -> ChipKind {
    if is_active(app.republisher_state) {
        ChipKind::Success
    } else if enabled_count(app.config.points) == 0 {
        ChipKind::Warning
    } else {
        ChipKind::Accent
    }
}

/// Whether a page shows the operational status, while the log was written at these times.
pub open spec fn is_overview(
    page: OverviewPageView,
    app: AppView,
    times: Seq<Elapsed>,
    number_text: Seq<char>,
) -> bool {
    let enabled = enabled_count(app.config.points);
    &&& page.metrics.len() == 3
    &&& page.metrics[0] == metric_of(
        "Republisher"@,
        mode_label(app.republisher_state),
        decimal(enabled) + " enabled point(s)"@,
        overview_kind(app),
    )
    &&& page.metrics[1] == metric_of(
        "Discovery"@,
        decimal(app.devices.len()),
        decimal(app.scanned_objects.len()) + " scanned object(s)"@,
        ChipKind::Accent,
    )
    &&& page.metrics[2] == metric_of(
        "Samples"@,
        decimal(app.recent_samples.len()),
        page.metrics[2].hint,
        points_kind(app),
    )
    &&& is_last_state(page.metrics[2].hint, app, number_text)
    &&& page.buttons == seq![
        button_of("Discover"@, MessageView::Discover),
        button_of("Poll once"@, MessageView::PollAndPublish),
        button_of(start_label(app.republisher_state), MessageView::StartRepublisher),
        button_of("Stop"@, MessageView::StopRepublisher),
    ]
    &&& page.fields == seq![
        readout_of("Topic prefix"@, app.config.mqtt.topic_prefix),
        readout_of("Health topic"@, app.config.mqtt.health_topic),
        readout_of("BACnet bind"@, bind_shown(app, "Auto / all interfaces"@)),
    ]
    &&& page.log == log_rows_of(newest(app.logs.entries, 5), newest(times, 5))
    &&& page.notice == if app.logs.entries.len() == 0 {
        Some(
            notice_of("No activity yet."@, "App, BACnet, and MQTT events will appear here."@),
        )
    } else {
        None
    }
}

/// Whether a page shows the log, which was written at these times.
pub open spec fn is_logs(page: LogsPageView, app: AppView, times: Seq<Elapsed>) -> bool {
    let kind = kind_of_level(app.status_level);
    &&& page.metrics.len() == 3
    &&& page.metrics[0] == metric_of(
        "Entries"@,
        decimal(app.logs.entries.len()),
        "Buffered app events"@,
        ChipKind::Accent,
    )
    &&& page.metrics[1] == metric_of(
        "Latest"@,
        if app.logs.entries.len() == 0 {
            "None"@
        } else {
            "+"@ + decimal(times.last().secs as nat) + "s"@
        },
        "Since app launch"@,
        ChipKind::Neutral,
    )
    &&& page.metrics[2] == metric_of("Status"@, kind_name(kind, "Info"@), app.status, kind)
    &&& page.chip == chip_of(app.status, kind)
    &&& page.log == log_rows_of(app.logs.entries, times)
}

/// The pages in the order of the sidebar.
pub open spec fn page_order() -> Seq<Page> {
    seq![
        Page::Overview,
        Page::Discover,
        Page::Points,
        Page::Republish,
        Page::Settings,
        Page::Logs,
    ]
}

pub open spec fn sidebar_of(app: AppView) -> SidebarView {
    SidebarView {
        chip: chip_of(
            sidebar_label(app.republisher_state),
            lifecycle_kind(app.republisher_state),
        ),
        items: Seq::new(
            page_order().len(),
            |i: int|
                NavItemView {
                    page: page_order()[i],
                    title: page_order()[i].title(),
                    selected: page_order()[i] == app.selected_page,
                },
        ),
        target: app.config.mqtt.host + ":"@ + decimal(app.config.mqtt.port as nat),
        transport: if app.config.mqtt.use_tls {
            "TLS enabled"@
        } else {
            "Plain TCP"@
        },
    }
}

impl BacnetRepublisher {
    pub fn republisher_sidebar_label(&self) -> (label: String)
        ensures
            label@ == sidebar_label(self@.republisher_state),
    {
        match &self.republisher_state {
            RepublisherLifecycle::Starting => "STARTING".to_string(),
            RepublisherLifecycle::Running => "LIVE REPUBLISH".to_string(),
            RepublisherLifecycle::Stopping => "STOPPING".to_string(),
            RepublisherLifecycle::Stopped => "STANDBY".to_string(),
            RepublisherLifecycle::Failed(_) => "FAILED".to_string(),
        }
    }

    pub fn republisher_mode_label(&self) -> (label: String)
        ensures
            label@ == mode_label(self@.republisher_state),
    {
        match &self.republisher_state {
            RepublisherLifecycle::Starting => "Starting".to_string(),
            RepublisherLifecycle::Running => "Running".to_string(),
            RepublisherLifecycle::Stopping => "Stopping".to_string(),
            RepublisherLifecycle::Stopped => "Stopped".to_string(),
            RepublisherLifecycle::Failed(_) => "Failed".to_string(),
        }
    }

    pub fn republisher_mode_hint(&self) -> (hint: String)
        ensures
            hint@ == mode_hint(self@.republisher_state),
    {
        match &self.republisher_state {
            RepublisherLifecycle::Starting => "Preparing MQTT and BACnet clients".to_string(),
            RepublisherLifecycle::Running => "Continuous republisher active".to_string(),
            RepublisherLifecycle::Stopping => "Waiting for current loop to exit".to_string(),
            RepublisherLifecycle::Stopped => "Poll once or start loop".to_string(),
            RepublisherLifecycle::Failed(reason) => reason.clone(),
        }
    }

    pub fn republisher_start_label(&self) -> (label: String)
        ensures
            label@ == start_label(self@.republisher_state),
    {
        match &self.republisher_state {
            RepublisherLifecycle::Starting => "Starting".to_string(),
            RepublisherLifecycle::Running => "Running".to_string(),
            RepublisherLifecycle::Stopping => "Stopping".to_string(),
            RepublisherLifecycle::Stopped => "Start republisher".to_string(),
            RepublisherLifecycle::Failed(_) => "Restart republisher".to_string(),
        }
    }

    pub fn republisher_chip_kind(&self) -> (kind: ChipKind)
        ensures
            kind == lifecycle_kind(self@.republisher_state),
    {
        match &self.republisher_state {
            RepublisherLifecycle::Starting => ChipKind::Warning,
            RepublisherLifecycle::Running => ChipKind::Success,
            RepublisherLifecycle::Stopping => ChipKind::Warning,
            RepublisherLifecycle::Stopped => ChipKind::Neutral,
            RepublisherLifecycle::Failed(_) => ChipKind::Danger,
        }
    }

    pub fn status_chip_kind(&self) -> (kind: ChipKind)
        ensures
            kind == kind_of_level(self@.status_level),
    {
        level_kind(self.status_level)
    }

    /// How the points are as a whole.
    pub fn overall_point_kind(&self) -> (kind: ChipKind)
        requires
            self.well_formed(),
        ensures
            kind == points_kind(self@),
    {
        assert(views(self.recent_samples@).len() == self.recent_samples@.len());
        if self.point_statuses.any_read_error() {
            ChipKind::Danger
        } else if self.point_statuses.any_stale_or_unpublished() {
            ChipKind::Warning
        } else if self.recent_samples.len() == 0 {
            ChipKind::Neutral
        } else {
            ChipKind::Success
        }
    }

    /// What the latest sample is; a number is shown as `number_text`.
    pub fn last_point_state(&self, number_text: &str) -> (text: String)
        requires
            self.well_formed(),
        ensures
            is_last_state(text@, self@, number_text@),
    {
        let count: usize = self.recent_samples.len();
        assert(views(self.recent_samples@).len() == self.recent_samples@.len());
        if count > 0 {
            let sample = &self.recent_samples[count - 1];
            assert(views(self.recent_samples@).last() == sample@);
            let stamp = format_timestamp(sample.timestamp_ms);
            let text = text3(
                value_text(&sample.value, number_text).as_str(),
                " at ",
                stamp.as_str(),
            );
            assert(is_timestamp_text(stamp@, self@.recent_samples.last().timestamp_ms));
            text
        } else {
            let known: usize = self.point_statuses.len();
            if known == 0 {
                "No samples recorded".to_string()
            } else {
                counted(known, " tracked point state(s)")
            }
        }
    }

    /// When the latest sample was taken.
    pub fn last_update_text(&self) -> (text: String)
        ensures
            is_last_update(text@, self@),
    {
        let count: usize = self.recent_samples.len();
        assert(views(self.recent_samples@).len() == self.recent_samples@.len());
        if count > 0 {
            let sample = &self.recent_samples[count - 1];
            assert(views(self.recent_samples@).last() == sample@);
            format_timestamp(sample.timestamp_ms)
        } else {
            "No samples".to_string()
        }
    }

    pub(crate) fn bind_text(&self, otherwise: &str) -> (text: String)
        ensures
            text@ == bind_shown(self@, otherwise@),
    {
        match self.config.bacnet.selected_interface {
            Some(address) => address.to_text(),
            None => otherwise.to_string(),
        }
    }

    /// What stands above a page.
    pub fn page_shell(&self, page: Page) -> (shell: PageShell)
        ensures
            shell@ == (PageShellView {
                title: page.title(),
                subtitle: page_subtitle(page),
                chips: state_chips(self@),
            }),
    {
        broadcast use lemma_views_push;
        let mut chips: Vec<Chip> = Vec::new();
        if self.working {
            chips.push(Chip { label: "Working".to_string(), kind: ChipKind::Warning });
        } else {
            chips.push(Chip { label: "Ready".to_string(), kind: ChipKind::Success });
        }
        let failed = match &self.republisher_state {
            RepublisherLifecycle::Failed(_) => true,
            _ => false,
        };
        if self.republisher_active() || failed {
            chips.push(
                Chip { label: self.republisher_mode_label(), kind: self.republisher_chip_kind() },
            );
        }
        assert(views(chips@) =~= state_chips(self@));
        PageShell { title: page.to_text(), subtitle: subtitle(page), chips }
    }

    /// What stands beside a page.
    pub fn sidebar(&self) -> (sidebar: Sidebar)
        ensures
            sidebar@ == sidebar_of(self@),
    {
        let pages = [
            Page::Overview,
            Page::Discover,
            Page::Points,
            Page::Republish,
            Page::Settings,
            Page::Logs,
        ];
        let mut items: Vec<NavItem> = Vec::new();
        let mut i: usize = 0;
        assert(pages@ =~= page_order());
        while i < 6
            invariant
                i <= 6,
                pages@ == page_order(),
                views(items@) == sidebar_of(self@).items.take(i as int),
            decreases 6 - i,
        {
            broadcast use lemma_views_push;
            let page = pages[i];
            items.push(
                NavItem { page, title: page.to_text(), selected: self.selected_page == page },
            );
            assert(views(items@) =~= sidebar_of(self@).items.take(i as int + 1));
            i += 1;
        }
        assert(views(items@) =~= sidebar_of(self@).items);
        let transport = if self.config.mqtt.use_tls {
            "TLS enabled".to_string()
        } else {
            "Plain TCP".to_string()
        };
        Sidebar {
            chip: Chip {
                label: self.republisher_sidebar_label(),
                kind: self.republisher_chip_kind(),
            },
            items,
            target: text3(
                self.config.mqtt.host.as_str(),
                ":",
                decimal_text(self.config.mqtt.port as u64).as_str(),
            ),
            transport,
        }
    }

    /// What stands below a page.
    pub fn status_bar(&self) -> (bar: StatusBar)
        ensures
            bar@.chip == chip_of(self@.status, kind_of_level(self@.status_level)),
            bar@.counts == decimal(self@.config.points.len()) + " pts · "@ + decimal(
                self@.devices.len(),
            ) + " devices"@,
            is_portable(self@.config_path) ==> bar@.config == "Config: "@ + short_path(
                last_name(components(self@.config_path)),
                last_name(without_last(components(self@.config_path))),
            ),
    {
        let mut counts = counted(self.config.points.len(), " pts · ");
        counts.append(decimal_text(self.devices.len() as u64).as_str());
        counts.append(" devices");
        StatusBar {
            chip: Chip { label: self.status.clone(), kind: self.status_chip_kind() },
            counts,
            config: text2("Config: ", compact_config_path(self.config_path.as_str()).as_str()),
        }
    }

    /// The latest messages, the newest first.
    pub fn log_preview(&self, take: usize) -> (rows: Vec<LogRow>)
        ensures
            views(rows@) == log_rows_of(
                newest(self@.logs.entries, take as nat),
                newest(self.logs.times(), take as nat),
            ),
    {
        let entries = self.logs.entries();
        let ghost all = log_rows_of(
            newest(self@.logs.entries, take as nat),
            newest(self.logs.times(), take as nat),
        );
        assert(views(entries@).len() == entries@.len());
        let shown: usize = if entries.len() < take {
            entries.len()
        } else {
            take
        };
        let mut rows: Vec<LogRow> = Vec::new();
        let mut i: usize = 0;
        assert(views(rows@) =~= all.take(0));
        while i < shown
            invariant
                i <= shown,
                shown <= entries@.len(),
                shown == all.len(),
                all == log_rows_of(
                    newest(views(entries@), take as nat),
                    newest(times_of(entries@), take as nat),
                ),
                views(rows@) == all.take(i as int),
            decreases shown - i,
        {
            let entry = &entries[entries.len() - 1 - i];
            let ghost before = rows@;
            rows.push(
                log_row(
                    entry.sequence,
                    entry.elapsed.as_secs(),
                    entry.level,
                    entry.message.as_str(),
                ),
            );
            proof {
                assert(all[i as int] == log_row_of(entry@, entry.elapsed.secs));
                assert(views(rows@) =~= views(before).push(all[i as int]));
                assert(all.take(i as int + 1) =~= all.take(i as int).push(all[i as int]));
            }
            i += 1;
        }
        assert(all.take(all.len() as int) =~= all);
        rows
    }

    fn log_rows(&self) -> (rows: Vec<LogRow>)
        ensures
            views(rows@) == log_rows_of(self@.logs.entries, self.logs.times()),
    {
        let entries = self.logs.entries();
        let ghost all = log_rows_of(self@.logs.entries, self.logs.times());
        let mut rows: Vec<LogRow> = Vec::new();
        let mut i: usize = 0;
        assert(views(rows@) =~= all.take(0));
        while i < entries.len()
            invariant
                i <= entries@.len(),
                all == log_rows_of(views(entries@), times_of(entries@)),
                views(rows@) == all.take(i as int),
            decreases entries.len() - i,
        {
            let entry = &entries[i];
            let ghost before = rows@;
            rows.push(
                log_row(
                    entry.sequence,
                    entry.elapsed.as_secs(),
                    entry.level,
                    entry.message.as_str(),
                ),
            );
            proof {
                assert(all[i as int] == log_row_of(entry@, entry.elapsed.secs));
                assert(views(rows@) =~= views(before).push(all[i as int]));
                assert(all.take(i as int + 1) =~= all.take(i as int).push(all[i as int]));
            }
            i += 1;
        }
        assert(all.take(all.len() as int) =~= all);
        rows
    }

    /// The page with the operational status; the latest number is shown as `number_text`.
    pub fn overview_page(&self, number_text: &str) -> (page: OverviewPage)
        requires
            self.well_formed(),
        ensures
            is_overview(page@, self@, self.logs.times(), number_text@),
    {
        broadcast use lemma_views_push;
        let enabled: usize = self.enabled_point_count();
        let kind = if self.republisher_active() {
            ChipKind::Success
        } else if enabled == 0 {
            ChipKind::Warning
        } else {
            ChipKind::Accent
        };
        let mut metrics: Vec<Metric> = Vec::new();
        metrics.push(
            metric(
                "Republisher",
                self.republisher_mode_label(),
                counted(enabled, " enabled point(s)"),
                kind,
            ),
        );
        metrics.push(
            metric(
                "Discovery",
                decimal_text(self.devices.len() as u64),
                counted(self.scanned_objects.len(), " scanned object(s)"),
                ChipKind::Accent,
            ),
        );
        metrics.push(
            metric(
                "Samples",
                decimal_text(self.recent_samples.len() as u64),
                self.last_point_state(number_text),
                self.overall_point_kind(),
            ),
        );
        let mut buttons: Vec<Button> = Vec::new();
        buttons.push(button("Discover", Message::Discover));
        buttons.push(button("Poll once", Message::PollAndPublish));
        buttons.push(
            button(self.republisher_start_label().as_str(), Message::StartRepublisher),
        );
        buttons.push(button("Stop", Message::StopRepublisher));
        let mut fields: Vec<Readout> = Vec::new();
        fields.push(readout("Topic prefix", self.config.mqtt.topic_prefix.clone()));
        fields.push(readout("Health topic", self.config.mqtt.health_topic.clone()));
        fields.push(readout("BACnet bind", self.bind_text("Auto / all interfaces")));
        let notice = if self.logs.entries().len() == 0 {
            Some(notice("No activity yet.", "App, BACnet, and MQTT events will appear here."))
        } else {
            None
        };
        let page = OverviewPage { metrics, buttons, fields, log: self.log_preview(5), notice };
        proof {
            assert(page@.buttons =~= seq![
                button_of("Discover"@, MessageView::Discover),
                button_of("Poll once"@, MessageView::PollAndPublish),
                button_of(start_label(self@.republisher_state), MessageView::StartRepublisher),
                button_of("Stop"@, MessageView::StopRepublisher),
            ]);
            assert(page@.fields =~= seq![
                readout_of("Topic prefix"@, self@.config.mqtt.topic_prefix),
                readout_of("Health topic"@, self@.config.mqtt.health_topic),
                readout_of("BACnet bind"@, bind_shown(self@, "Auto / all interfaces"@)),
            ]);
        }
        page
    }

    /// The page with the log.
    pub fn logs_page(&self) -> (page: LogsPage)
        ensures
            is_logs(page@, self@, self.logs.times()),
    {
        broadcast use lemma_views_push;
        let log = self.log_rows();
        let entries = self.logs.entries();
        let count: usize = entries.len();
        proof {
            assert(views(entries@).len() == entries@.len());
            assert(times_of(entries@).len() == entries@.len());
            assert(views(log@).len() == log@.len());
            if count > 0 {
                assert(views(log@)[count - 1] == log@[count - 1]@);
            }
        }
        let latest = if count == 0 {
            "None".to_string()
        } else {
            log[count - 1].elapsed.clone()
        };
        let kind = self.status_chip_kind();
        let mut metrics: Vec<Metric> = Vec::new();
        metrics.push(
            metric(
                "Entries",
                decimal_text(count as u64),
                "Buffered app events".to_string(),
                ChipKind::Accent,
            ),
        );
        metrics.push(
            metric("Latest", latest, "Since app launch".to_string(), ChipKind::Neutral),
        );
        metrics.push(metric("Status", kind_label(kind, "Info"), self.status.clone(), kind));
        LogsPage { metrics, chip: Chip { label: self.status.clone(), kind }, log }
    }
}

/// The points are shown as failing exactly while a read has failed, and as fine only while nothing
/// is wrong with any of them.
pub proof fn law_point_health(app: AppView)
    ensures
        points_kind(app) == ChipKind::Danger <==> has_read_error(app),
        points_kind(app) == ChipKind::Success ==> forall|identity| #[trigger]
            app.point_statuses.contains_key(identity) ==> {
                let status = app.point_statuses[identity];
                status.last_error is None && !status.stale && status.last_publish_error is None
            },
{
}

} // verus!
