//! The page with the devices and their objects.

use vstd::prelude::*;

use crate::app::message::{Message, MessageView};
use crate::app::{AppView, BacnetRepublisher};
use crate::bacnet::{shown, value_text};
use crate::model::{
    lemma_views_push, opt_view, views, DeviceObject, DeviceObjectView, DiscoveredDevice,
    DiscoveredDeviceView,
};
use crate::numerals::{decimal, decimal_text};
use crate::pages::inputs::policy_name;
use crate::pages::{
    bind_shown, button, button_of, chip_of, counted, metric, metric_of, notice, notice_of, readout,
    readout_of, Button, ButtonView, Chip, ChipKind, ChipView, Metric, MetricView, Notice,
    NoticeView, Readout, ReadoutView,
};
use crate::text::{join, join_texts, texts};
use crate::worker::{text2, text3};

verus! {

/// A device that was found.
#[derive(Debug)]
pub struct DeviceRow {
    pub device: String,
    pub address: String,
    pub vendor: String,
    pub button: Button,
}

/// The contents of a [`DeviceRow`].
#[verifier::ext_equal]
pub struct DeviceRowView {
    pub device: Seq<char>,
    pub address: Seq<char>,
    pub vendor: Seq<char>,
    pub button: ButtonView,
}

impl View for DeviceRow {
    type V = DeviceRowView;

    open spec fn view(&self) -> DeviceRowView {
        DeviceRowView {
            device: self.device@,
            address: self.address@,
            vendor: self.vendor@,
            button: self.button@,
        }
    }
}

/// An object that was found.
#[derive(Debug)]
pub struct ObjectRow {
    pub object: String,
    pub device: String,
    pub preview: String,
    pub button: Button,
}

/// The contents of a [`ObjectRow`].
#[verifier::ext_equal]
pub struct ObjectRowView {
    pub object: Seq<char>,
    pub device: Seq<char>,
    pub preview: Seq<char>,
    pub button: ButtonView,
}

impl View for ObjectRow {
    type V = ObjectRowView;

    open spec fn view(&self) -> ObjectRowView {
        ObjectRowView {
            object: self.object@,
            device: self.device@,
            preview: self.preview@,
            button: self.button@,
        }
    }
}

/// The page with the devices and their objects.
#[derive(Debug)]
pub struct DiscoverPage {
    pub metrics: Vec<Metric>,
    pub activity: Chip,
    pub buttons: Vec<Button>,
    pub policy: Readout,
    pub note: String,
    pub devices: Vec<DeviceRow>,
    pub devices_notice: Option<Notice>,
    pub objects: Vec<ObjectRow>,
    pub objects_notice: Option<Notice>,
}

/// The contents of a [`DiscoverPage`].
#[verifier::ext_equal]
pub struct DiscoverPageView {
    pub metrics: Seq<MetricView>,
    pub activity: ChipView,
    pub buttons: Seq<ButtonView>,
    pub policy: ReadoutView,
    pub note: Seq<char>,
    pub devices: Seq<DeviceRowView>,
    pub devices_notice: Option<NoticeView>,
    pub objects: Seq<ObjectRowView>,
    pub objects_notice: Option<NoticeView>,
}

impl View for DiscoverPage {
    type V = DiscoverPageView;

    open spec fn view(&self) -> DiscoverPageView {
        DiscoverPageView {
            metrics: views(self.metrics@),
            activity: self.activity@,
            buttons: views(self.buttons@),
            policy: self.policy@,
            note: self.note@,
            devices: views(self.devices@),
            devices_notice: opt_view(self.devices_notice),
            objects: views(self.objects@),
            objects_notice: opt_view(self.objects_notice),
        }
    }
}

/// A text in a list, where there is one, behind a text of its own.
pub open spec fn part(prefix: Seq<char>, text: Option<Seq<char>>) -> Seq<Seq<char>> {
    match text {
        Some(value) => seq![prefix + value],
        None => Seq::empty(),
    }
}

/// What is known of an object.
pub open spec fn summary_parts(object: DeviceObjectView, number_text: Seq<char>) -> Seq<Seq<char>> {
    part(Seq::empty(), object.object_name) + part(Seq::empty(), object.description) + part(
        "units "@,
        object.units,
    ) + part(
        "present "@,
        match object.present_value {
            Some(value) => Some(shown(value, number_text)),
            None => None,
        },
    )
}

/// Adds a text to a list, where there is one, behind a text of its own.
fn push_part(parts: &mut Vec<String>, prefix: &str, text: &Option<String>)
    ensures
        texts(final(parts)@) == texts(old(parts)@) + part(prefix@, crate::text::opt_text(*text)),
{
    match text {
        Some(value) => {
            parts.push(text2(prefix, value.as_str()));
        },
        None => {},
    }
    assert(texts(parts@) =~= texts(old(parts)@) + part(prefix@, crate::text::opt_text(*text)));
}

/// What is known of an object, in one line; a number is shown as `number_text`.
pub fn object_summary(object: &DeviceObject, number_text: &str) -> (text: String)
    ensures
        text@ == join(summary_parts(object@, number_text@), " | "@),
{
    let mut parts: Vec<String> = Vec::new();
    let present = match &object.present_value {
        Some(value) => Some(value_text(value, number_text)),
        None => None,
    };
    assert(texts(parts@) =~= Seq::<Seq<char>>::empty());
    push_part(&mut parts, "", &object.object_name);
    push_part(&mut parts, "", &object.description);
    push_part(&mut parts, "units ", &object.units);
    push_part(&mut parts, "present ", &present);
    proof {
        reveal_strlit("");
        assert(""@ =~= Seq::<char>::empty());
        assert(texts(parts@) =~= summary_parts(object@, number_text@));
    }
    join_texts(&parts, " | ")
}

/// A device or an object by its number.
pub open spec fn numbered(instance: u32) -> Seq<char> {
    "#"@ + decimal(instance as nat)
}

pub open spec fn device_row_of(device: DiscoveredDeviceView) -> DeviceRowView {
    DeviceRowView {
        device: numbered(device.instance),
        address: device.address,
        vendor: decimal(device.vendor_id as nat),
        button: button_of("Scan objects"@, MessageView::ScanObjects(device.instance)),
    }
}

pub open spec fn object_row_of(
    object: DeviceObjectView,
    number_text: Seq<char>,
    index: usize,
) -> ObjectRowView {
    let summary = join(summary_parts(object, number_text), " | "@);
    ObjectRowView {
        object: object.object_type + " "@ + decimal(object.object_instance as nat),
        device: numbered(object.device_instance),
        preview: if summary.len() == 0 {
            "No metadata returned"@
        } else {
            summary
        },
        button: button_of("Add point"@, MessageView::AddObjectAsPoint(index)),
    }
}

pub fn device_row(device: &DiscoveredDevice) -> (row: DeviceRow)
    ensures
        row@ == device_row_of(device@),
{
    DeviceRow {
        device: text2("#", decimal_text(device.instance as u64).as_str()),
        address: device.address.clone(),
        vendor: decimal_text(device.vendor_id as u64),
        button: button("Scan objects", Message::ScanObjects(device.instance)),
    }
}

pub fn object_row(object: &DeviceObject, number_text: &str, index: usize) -> (row: ObjectRow)
    ensures
        row@ == object_row_of(object@, number_text@, index),
{
    let summary = object_summary(object, number_text);
    let preview = if summary.as_str().is_empty() {
        "No metadata returned".to_string()
    } else {
        summary
    };
    ObjectRow {
        object: text3(
            object.object_type.as_str(),
            " ",
            decimal_text(object.object_instance as u64).as_str(),
        ),
        device: text2("#", decimal_text(object.device_instance as u64).as_str()),
        preview,
        button: button("Add point", Message::AddObjectAsPoint(index)),
    }
}

/// How far a scan of all devices has come, given the percentage.
pub open spec fn progress_shown(current: usize, total: usize, percent: u32) -> Seq<char> {
    "Scanning device "@ + decimal(current as nat) + " of "@ + decimal(total as nat) + " ("@
        + decimal(percent as nat) + "%)"@
}

pub fn progress_text(current: usize, total: usize, percent: u32) -> (text: String)
    ensures
        text@ == progress_shown(current, total, percent),
{
    let mut text = text3("Scanning device ", decimal_text(current as u64).as_str(), " of ");
    text.append(decimal_text(total as u64).as_str());
    text.append(" (");
    text.append(decimal_text(percent as u64).as_str());
    text.append("%)");
    text
}

/// How an amount is coloured: nothing is neutral.
pub open spec fn amount_kind(amount: nat, kind: ChipKind) -> ChipKind {
    if amount == 0 {
        ChipKind::Neutral
    } else {
        kind
    }
}

fn kind_of_amount(amount: usize, kind: ChipKind) -> (result: ChipKind)
    ensures
        result == amount_kind(amount as nat, kind),
{
    if amount == 0 {
        ChipKind::Neutral
    } else {
        kind
    }
}

pub open spec fn discover_metrics(app: AppView) -> Seq<MetricView> {
    seq![
        metric_of(
            "Devices"@,
            decimal(app.devices.len()),
            decimal(app.interface_choices.len()) + " interface option(s)"@,
            amount_kind(app.devices.len(), ChipKind::Success),
        ),
        metric_of(
            "Objects"@,
            decimal(app.scanned_objects.len()),
            "Discovered from object lists"@,
            amount_kind(app.scanned_objects.len(), ChipKind::Accent),
        ),
        metric_of(
            "Bind"@,
            bind_shown(app, "Auto"@),
            if app.config.bacnet.discover_all_interfaces {
                "All interfaces enabled"@
            } else {
                "Single interface"@
            },
            ChipKind::Accent,
        ),
    ]
}

/// The buttons of the page: all devices can be scanned once there are devices and nothing else is
/// at work.
pub open spec fn discover_buttons(app: AppView) -> Seq<ButtonView> {
    seq![
        button_of("Refresh NICs"@, MessageView::RefreshInterfaces),
        button_of("Discover"@, MessageView::Discover),
        ButtonView {
            label: "Scan all"@,
            message: if app.devices.len() > 0 && !app.working {
                Some(MessageView::ScanAllObjects)
            } else {
                None
            },
        },
    ]
}

pub open spec fn device_rows(devices: Seq<DiscoveredDeviceView>) -> Seq<DeviceRowView> {
    Seq::new(devices.len(), |i: int| device_row_of(devices[i]))
}

pub open spec fn object_rows(
    objects: Seq<DeviceObjectView>,
    number_texts: Seq<Seq<char>>,
) -> Seq<ObjectRowView> {
    Seq::new(objects.len(), |i: int| object_row_of(objects[i], number_texts[i], i as usize))
}

pub open spec fn discover_of(app: AppView, number_texts: Seq<Seq<char>>) -> DiscoverPageView {
    DiscoverPageView {
        metrics: discover_metrics(app),
        activity: if app.working {
            chip_of("Scanning"@, ChipKind::Warning)
        } else {
            chip_of("Ready"@, ChipKind::Success)
        },
        buttons: discover_buttons(app),
        policy: readout_of(
            "Bind policy"@,
            policy_name(app.settings.discovery_bind_failure_policy),
        ),
        note: if app.config.bacnet.discover_all_interfaces {
            "All interfaces ignores the bind picker. Select an interface to switch to single-NIC discovery."@
        } else {
            "Discovery and polling use the selected bind interface."@
        },
        devices: device_rows(app.devices),
        devices_notice: if app.devices.len() == 0 {
            Some(
                notice_of(
                    "No BACnet devices discovered yet."@,
                    "Run discovery to populate reachable BACnet/IP devices."@,
                ),
            )
        } else {
            None
        },
        objects: object_rows(app.scanned_objects, number_texts),
        objects_notice: if app.scanned_objects.len() == 0 {
            Some(
                notice_of(
                    "No objects scanned yet."@,
                    "Scan a device object list or add points manually."@,
                ),
            )
        } else {
            None
        },
    }
}

impl BacnetRepublisher {
    fn discover_metrics(&self) -> (metrics: Vec<Metric>)
        ensures
            views(metrics@) == discover_metrics(self@),
    {
        broadcast use lemma_views_push;
        let mut metrics: Vec<Metric> = Vec::new();
        metrics.push(
            metric(
                "Devices",
                decimal_text(self.devices.len() as u64),
                counted(self.interface_choices.len(), " interface option(s)"),
                kind_of_amount(self.devices.len(), ChipKind::Success),
            ),
        );
        metrics.push(
            metric(
                "Objects",
                decimal_text(self.scanned_objects.len() as u64),
                "Discovered from object lists".to_string(),
                kind_of_amount(self.scanned_objects.len(), ChipKind::Accent),
            ),
        );
        let hint = if self.config.bacnet.discover_all_interfaces {
            "All interfaces enabled".to_string()
        } else {
            "Single interface".to_string()
        };
        metrics.push(metric("Bind", self.bind_text("Auto"), hint, ChipKind::Accent));
        assert(views(metrics@) =~= discover_metrics(self@));
        metrics
    }

    fn discover_buttons(&self) -> (buttons: Vec<Button>)
        ensures
            views(buttons@) == discover_buttons(self@),
    {
        broadcast use lemma_views_push;
        let mut buttons: Vec<Button> = Vec::new();
        buttons.push(button("Refresh NICs", Message::RefreshInterfaces));
        buttons.push(button("Discover", Message::Discover));
        let message = if self.devices.len() > 0 && !self.working {
            Some(Message::ScanAllObjects)
        } else {
            None
        };
        buttons.push(Button { label: "Scan all".to_string(), message });
        assert(views(buttons@) =~= discover_buttons(self@));
        buttons
    }

    fn device_rows(&self) -> (rows: Vec<DeviceRow>)
        ensures
            views(rows@) == device_rows(self@.devices),
    {
        let mut rows: Vec<DeviceRow> = Vec::new();
        let mut i: usize = 0;
        while i < self.devices.len()
            invariant
                i <= self.devices@.len(),
                rows@.len() == i,
                forall|k: int|
                    #![trigger rows@[k]]
                    0 <= k < i ==> rows@[k]@ == device_row_of(self.devices@[k]@),
            decreases self.devices.len() - i,
        {
            rows.push(device_row(&self.devices[i]));
            i += 1;
        }
        assert(views(rows@) =~= device_rows(self@.devices));
        rows
    }

    fn object_rows(&self, number_texts: &Vec<String>) -> (rows: Vec<ObjectRow>)
        requires
            number_texts@.len() == self.scanned_objects@.len(),
        ensures
            views(rows@) == object_rows(self@.scanned_objects, texts(number_texts@)),
    {
        let mut rows: Vec<ObjectRow> = Vec::new();
        let mut i: usize = 0;
        while i < self.scanned_objects.len()
            invariant
                i <= self.scanned_objects@.len(),
                number_texts@.len() == self.scanned_objects@.len(),
                rows@.len() == i,
                forall|k: int|
                    #![trigger rows@[k]]
                    0 <= k < i ==> rows@[k]@ == object_row_of(
                        self.scanned_objects@[k]@,
                        number_texts@[k]@,
                        k as usize,
                    ),
            decreases self.scanned_objects.len() - i,
        {
            rows.push(object_row(&self.scanned_objects[i], number_texts[i].as_str(), i));
            i += 1;
        }
        assert(views(rows@) =~= object_rows(self@.scanned_objects, texts(number_texts@)));
        rows
    }

    /// The page with the devices and their objects; the number of each object's present value is
    /// shown as its text in `number_texts`.
    pub fn discover_page(&self, number_texts: &Vec<String>) -> (page: DiscoverPage)
        requires
            number_texts@.len() == self.scanned_objects@.len(),
        ensures
            page@ == discover_of(self@, texts(number_texts@)),
    {
        let activity = if self.working {
            Chip { label: "Scanning".to_string(), kind: ChipKind::Warning }
        } else {
            Chip { label: "Ready".to_string(), kind: ChipKind::Success }
        };
        let note = if self.config.bacnet.discover_all_interfaces {
            "All interfaces ignores the bind picker. Select an interface to switch to single-NIC discovery.".to_string()
        } else {
            "Discovery and polling use the selected bind interface.".to_string()
        };
        let devices_notice = if self.devices.len() == 0 {
            Some(
                notice(
                    "No BACnet devices discovered yet.",
                    "Run discovery to populate reachable BACnet/IP devices.",
                ),
            )
        } else {
            None
        };
        let objects_notice = if self.scanned_objects.len() == 0 {
            Some(
                notice(
                    "No objects scanned yet.",
                    "Scan a device object list or add points manually.",
                ),
            )
        } else {
            None
        };
        DiscoverPage {
            metrics: self.discover_metrics(),
            activity,
            buttons: self.discover_buttons(),
            policy: readout(
                "Bind policy",
                self.settings.discovery_bind_failure_policy.to_text(),
            ),
            note,
            devices: self.device_rows(),
            devices_notice,
            objects: self.object_rows(number_texts),
            objects_notice,
        }
    }
}

/// The button that scans all devices can be pressed exactly while pressing it starts a scan.
pub proof fn law_scan_all_button(app: AppView)
    ensures
        discover_buttons(app)[2].message is Some <==> crate::app::updated(
            app,
            MessageView::ScanAllObjects,
        ).1 is Some,
{
    reveal(crate::app::scan_all_started);
}

} // verus!
