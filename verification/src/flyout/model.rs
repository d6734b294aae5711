//! What the flyout shows, as plain data: the output and input groups with their devices, the
//! screen that is up, and the outcome gathered while the flyout is open.
//!
//! Levels and peaks are not here: they are continuous, and nothing is decided by them.
use crate::audio::battery;
use crate::audio::{self, Device, DeviceId, Flow};
use crate::config::Config;
use crate::flyout::layout::Screen;
use crate::flyout::Outcome;
use crate::icons::IconId;
use vstd::prelude::*;

verus! {

/// One device in a group's list.
pub struct DeviceRow {
    pub id: DeviceId,
    pub label: String,
    pub icon: IconId,
    pub selected: bool,
    /// Bluetooth battery, where the device reports one.
    pub battery: Option<u8>,
}

/// The devices of one direction.
pub struct Group {
    pub flow: Flow,
    pub title: &'static str,
    pub default_id: Option<DeviceId>,
    pub muted: bool,
    pub devices: Vec<DeviceRow>,
}

/// Everything the flyout paints, and the outcome read back when it closes.
pub struct Model {
    pub groups: Vec<Group>,
    /// Which screen is up.
    pub screen: Screen,
    /// The version of a staged update.
    pub update: Option<String>,
    /// Whether the strip is believed to be up.
    pub strip_up: bool,
    pub config_changed: bool,
    pub output_changed: bool,
    pub quit: bool,
    pub restart: bool,
    pub restart_explorer: bool,
}

impl Model {
    /// A model that shows the main panel, with nothing to report yet.
    pub fn new(groups: Vec<Group>, update: Option<String>, strip_up: bool) -> (r: Model)
        ensures
            r.groups == groups,
            r.screen == Screen::Main,
            r.update == update,
            r.strip_up == strip_up,
            !r.config_changed,
            !r.output_changed,
            !r.quit,
            !r.restart,
            !r.restart_explorer,
    {
        Model {
            groups,
            screen: Screen::Main,
            update,
            strip_up,
            config_changed: false,
            output_changed: false,
            quit: false,
            restart: false,
            restart_explorer: false,
        }
    }

    /// What the caller must do once the flyout has closed.
    pub fn outcome(&self) -> (r: Outcome)
        ensures
            r.quit == self.quit,
            r.config_changed == self.config_changed,
            r.output_changed == self.output_changed,
            r.restart == self.restart,
            r.restart_explorer == self.restart_explorer,
    {
        Outcome {
            quit: self.quit,
            config_changed: self.config_changed,
            output_changed: self.output_changed,
            restart: self.restart,
            restart_explorer: self.restart_explorer,
        }
    }
}

/// What was read of one direction: its active devices, its default, and whether that is muted.
pub struct FlowReading {
    pub devices: Vec<Device>,
    pub default_id: Option<DeviceId>,
    pub muted: bool,
}

/// Whether a row shows the given device.
pub open spec fn row_shows(
    row: DeviceRow,
    device: Device,
    default_id: Option<DeviceId>,
    config: Config,
    levels: Seq<(String, u8)>,
) -> bool {
    &&& row.id.0@ == device.id.0@
    &&& row.label@ == device.friendly_name@
    &&& row.icon == config.drawn_icon(device)
    &&& row.selected == (audio::id_view(default_id) == Some(device.id.0@))
    &&& row.battery == battery::level_of(levels, device.container_id)
}

/// The title of a direction's group.
pub open spec fn group_title(flow: Flow) -> Seq<char> {
    match flow {
        Flow::Output => "Output"@,
        Flow::Input => "Input"@,
    }
}

/// Whether a group shows what was read of a direction.
pub open spec fn group_shows(
    group: Group,
    flow: Flow,
    reading: FlowReading,
    config: Config,
    levels: Seq<(String, u8)>,
) -> bool {
    &&& group.flow == flow
    &&& group.title@ == group_title(flow)
    &&& audio::id_view(group.default_id) == audio::id_view(reading.default_id)
    &&& group.muted == (reading.default_id is Some && reading.muted)
    &&& group.devices@.len() == reading.devices@.len()
    &&& forall|i: int|
        0 <= i < group.devices@.len() ==> row_shows(
            #[trigger] group.devices@[i],
            reading.devices@[i],
            reading.default_id,
            config,
            levels,
        )
}

/// The same id again, where there is one.
pub fn copy_id(id: &Option<DeviceId>) -> (r: Option<DeviceId>)
    ensures
        audio::id_view(r) == audio::id_view(*id),
{
    match id {
        Some(d) => Some(d.copied()),
        None => None,
    }
}

/// Whether an optional id is the given one.
pub fn is_id(id: &Option<DeviceId>, other: &DeviceId) -> (r: bool)
    ensures
        r == (audio::id_view(*id) == Some(other.0@)),
{
    match id {
        Some(d) => d.same(other),
        None => false,
    }
}

/// The group that shows what was read of a direction.
pub fn build_group(
    flow: Flow,
    reading: &FlowReading,
    config: &Config,
    levels: &[(String, u8)],
) -> (r: Group)
    ensures
        group_shows(r, flow, *reading, *config, levels@),
{
    let mut devices: Vec<DeviceRow> = Vec::new();
    let mut i: usize = 0;
    while i < reading.devices.len()
        invariant
            i <= reading.devices@.len(),
            devices@.len() == i,
            forall|k: int|
                0 <= k < i ==> row_shows(
                    #[trigger] devices@[k],
                    reading.devices@[k],
                    reading.default_id,
                    *config,
                    levels@,
                ),
        decreases reading.devices@.len() - i,
    {
        let d = &reading.devices[i];
        let row = DeviceRow {
            id: d.id.copied(),
            label: d.friendly_name.clone(),
            icon: config.icon_of(d),
            selected: is_id(&reading.default_id, &d.id),
            battery: battery::battery_of(levels, &d.container_id),
        };
        devices.push(row);
        i = i + 1;
    }
    let title = match flow {
        Flow::Output => "Output",
        Flow::Input => "Input",
    };
    Group {
        flow,
        title,
        default_id: copy_id(&reading.default_id),
        muted: reading.default_id.is_some() && reading.muted,
        devices,
    }
}

/// The groups of the panel: output, then input. A direction without devices has none.
pub fn build_groups(
    output: &FlowReading,
    input: &FlowReading,
    config: &Config,
    levels: &[(String, u8)],
) -> (r: Vec<Group>)
    ensures
        ({
            let out = output.devices@.len() > 0;
            let inp = input.devices@.len() > 0;
            &&& r@.len() == (if out {
                1int
            } else {
                0
            }) + (if inp {
                1int
            } else {
                0
            })
            &&& out ==> group_shows(r@[0], Flow::Output, *output, *config, levels@)
            &&& inp ==> group_shows(r@[r@.len() - 1], Flow::Input, *input, *config, levels@)
        }),
{
    let mut groups: Vec<Group> = Vec::new();
    if output.devices.len() > 0 {
        groups.push(build_group(Flow::Output, output, config, levels));
    }
    if input.devices.len() > 0 {
        groups.push(build_group(Flow::Input, input, config, levels));
    }
    groups
}

/// At most one row of a group is marked as the default when no two devices share an id, and that
/// row is the default's own.
pub proof fn law_only_the_default_is_marked(
    group: Group,
    flow: Flow,
    reading: FlowReading,
    config: Config,
    levels: Seq<(String, u8)>,
    i: int,
    j: int,
)
    requires
        group_shows(group, flow, reading, config, levels),
        forall|a: int, b: int|
            0 <= a < b < reading.devices@.len() ==> (#[trigger] reading.devices@[a]).id.0@ != (
            #[trigger] reading.devices@[b]).id.0@,
        0 <= i < group.devices@.len(),
        0 <= j < group.devices@.len(),
        group.devices@[i].selected,
    ensures
        audio::id_view(group.default_id) == Some(group.devices@[i].id.0@),
        group.devices@[j].selected ==> i == j,
{
    assert(row_shows(group.devices@[i], reading.devices@[i], reading.default_id, config, levels));
    assert(row_shows(group.devices@[j], reading.devices@[j], reading.default_id, config, levels));
}

/// Each row shows a device as it is: its name, the icon that is drawn for it everywhere, whether it is the
/// default, and the battery that is reported for what it belongs to. The rows are the devices, in order.
pub proof fn law_each_row_shows_its_device(
    group: Group,
    flow: Flow,
    reading: FlowReading,
    config: Config,
    levels: Seq<(String, u8)>,
    i: int,
)
    requires
        group_shows(group, flow, reading, config, levels),
        0 <= i < reading.devices@.len(),
    ensures
        ({
            let (row, device) = (group.devices@[i], reading.devices@[i]);
            &&& group.devices@.len() == reading.devices@.len()
            &&& row.id.0@ == device.id.0@
            &&& row.label@ == device.friendly_name@
            &&& row.icon == config.drawn_icon(device)
            &&& row.selected <==> (reading.default_id matches Some(id) && id.0@ == device.id.0@)
            &&& device.container_id is None ==> row.battery is None
            &&& device.container_id matches Some(c) ==> row.battery == battery::reported(levels, c@)
            &&& group.flow == flow
            &&& flow == Flow::Output ==> group.title@ == "Output"@
            &&& flow == Flow::Input ==> group.title@ == "Input"@
            &&& group.muted ==> reading.default_id is Some && reading.muted
            &&& reading.default_id is Some && reading.muted ==> group.muted
        }),
{
}

} // verus!
