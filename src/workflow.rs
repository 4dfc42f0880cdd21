use vstd::prelude::*;

use crate::catalog::{Catalog, CatalogModel, Device, DeviceModel};
use crate::text::{append_decimal, append_fill, append_padded, concat3, decimal, pad, repeat};

verus! {

/// How long the simulated installation of one driver takes, in milliseconds.
pub const INSTALL_PAUSE_MS: u64 = 800;

/// How long the simulated catalog refresh takes, in milliseconds.
pub const UPDATE_PAUSE_MS: u64 = 1000;

/// Widths of the Model ID, Device Name and Chipset columns of the listing.
pub const MODEL_ID_WIDTH: usize = 20;
pub const NAME_WIDTH: usize = 30;
pub const CHIPSET_WIDTH: usize = 15;

/// One step of what a command shows, performed in order by the front end.
#[derive(Debug, PartialEq, Eq)]
pub enum Output {
    /// A line on standard output.
    Line(String),
    /// Text on standard output without a line end, flushed at once.
    Partial(String),
    /// A blocking pause of the given number of milliseconds.
    Pause(u64),
    /// A line on standard error.
    ErrorLine(String),
}

pub enum OutputModel {
    Line(Seq<char>),
    Partial(Seq<char>),
    Pause(u64),
    ErrorLine(Seq<char>),
}

impl View for Output {
    type V = OutputModel;

    open spec fn view(&self) -> OutputModel {
        match self {
            Output::Line(s) => OutputModel::Line(s@),
            Output::Partial(s) => OutputModel::Partial(s@),
            Output::Pause(ms) => OutputModel::Pause(*ms),
            Output::ErrorLine(s) => OutputModel::ErrorLine(s@),
        }
    }
}

pub open spec fn outputs_view(v: Seq<Output>) -> Seq<OutputModel> {
    v.map_values(|o: Output| o@)
}

/// A row of the listing: three left-justified columns joined by " | ".
pub open spec fn table_row(a: Seq<char>, b: Seq<char>, c: Seq<char>) -> Seq<char> {
    pad(a, MODEL_ID_WIDTH as nat, ' ') + " | "@ + pad(b, NAME_WIDTH as nat, ' ') + " | "@
        + pad(c, CHIPSET_WIDTH as nat, ' ')
}

/// The dashed line under the column headers, matching the column widths.
pub open spec fn divider() -> Seq<char> {
    repeat('-', MODEL_ID_WIDTH as nat) + "-|-"@ + repeat('-', NAME_WIDTH as nat) + "-|-"@
        + repeat('-', CHIPSET_WIDTH as nat)
}

pub open spec fn device_row(d: DeviceModel) -> OutputModel {
    OutputModel::Line(table_row(d.model_id, d.name, d.chipset))
}

/// The listing: version line, column headers, divider, then one row per
/// device in catalog order.
pub open spec fn listing(c: CatalogModel) -> Seq<OutputModel> {
    seq![
        OutputModel::Line("Loaded Database Version: "@ + c.version),
        OutputModel::Line(table_row("Model ID"@, "Device Name"@, "Chipset"@)),
        OutputModel::Line(divider()),
    ] + c.devices.map_values(|d: DeviceModel| device_row(d))
}

fn row_text(a: &str, b: &str, c: &str) -> (r: String)
    ensures
        r@ == table_row(a@, b@, c@),
{
    proof {
        reveal_strlit(" ");
    }
    let mut s = String::new();
    append_padded(&mut s, a, MODEL_ID_WIDTH, " ");
    s.append(" | ");
    append_padded(&mut s, b, NAME_WIDTH, " ");
    s.append(" | ");
    append_padded(&mut s, c, CHIPSET_WIDTH, " ");
    s
}

fn divider_text() -> (r: String)
    ensures
        r@ == divider(),
{
    proof {
        reveal_strlit("-");
    }
    let mut s = String::new();
    append_fill(&mut s, "-", MODEL_ID_WIDTH);
    s.append("-|-");
    append_fill(&mut s, "-", NAME_WIDTH);
    s.append("-|-");
    append_fill(&mut s, "-", CHIPSET_WIDTH);
    s
}

/// What the list-models command shows for a catalog.
pub fn list_models(c: &Catalog) -> (r: Vec<Output>)
    ensures
        outputs_view(r@) == listing(c@),
{
    let mut out: Vec<Output> = Vec::new();
    let mut version_line = String::from_str("Loaded Database Version: ");
    version_line.append(c.version.as_str());
    out.push(Output::Line(version_line));
    out.push(Output::Line(row_text("Model ID", "Device Name", "Chipset")));
    out.push(Output::Line(divider_text()));
    let ghost head = outputs_view(out@);
    let mut i: usize = 0;
    while i < c.devices.len()
        invariant
            i <= c.devices@.len(),
            outputs_view(out@) == head + c@.devices.take(i as int).map_values(
                |d: DeviceModel| device_row(d),
            ),
        decreases c.devices@.len() - i,
    {
        let d = &c.devices[i];
        let line = row_text(d.model_id.as_str(), d.name.as_str(), d.chipset.as_str());
        let ghost prev = out@;
        out.push(Output::Line(line));
        assert(outputs_view(out@) =~= outputs_view(prev).push(device_row(d@)));
        assert(c@.devices[i as int] == d@);
        assert(c@.devices.take(i + 1).map_values(|d: DeviceModel| device_row(d))
            =~= c@.devices.take(i as int).map_values(|d: DeviceModel| device_row(d)).push(device_row(d@)));
        assert(outputs_view(out@) =~= head + c@.devices.take(i + 1).map_values(
            |d: DeviceModel| device_row(d),
        ));
        i = i + 1;
    }
    assert(c@.devices.take(i as int) =~= c@.devices);
    assert(head + c@.devices.map_values(|d: DeviceModel| device_row(d)) =~= listing(c@));
    out
}


/// `i` is the position of the first device whose model id is `model`.
pub open spec fn is_first_match(devices: Seq<DeviceModel>, model: Seq<char>, i: int) -> bool {
    &&& 0 <= i < devices.len()
    &&& devices[i].model_id == model
    &&& forall|k: int| 0 <= k < i ==> #[trigger] devices[k].model_id != model
}

/// The device that install resolves `model` to: the first in catalog order
/// whose model id equals `model` exactly.
pub open spec fn lookup(devices: Seq<DeviceModel>, model: Seq<char>) -> Option<DeviceModel>
    decreases devices.len(),
{
    if devices.len() == 0 {
        None
    } else if devices[0].model_id == model {
        Some(devices[0])
    } else {
        lookup(devices.drop_first(), model)
    }
}

/// Finds the position of the first device whose model id is `model`.
pub fn find_device(c: &Catalog, model: &str) -> (r: Option<usize>)
    ensures
        match r {
            Some(i) => is_first_match(c@.devices, model@, i as int)
                && lookup(c@.devices, model@) == Some(c@.devices[i as int]),
            None => (forall|k: int| 0 <= k < c@.devices.len() ==> #[trigger] c@.devices[k].model_id != model@)
                && lookup(c@.devices, model@) is None,
        },
{
    let ghost ds = c@.devices;
    let key = String::from_str(model);
    let n = c.devices.len();
    let mut i: usize = 0;
    assert(ds.subrange(0, n as int) =~= ds);
    while i < n
        invariant
            ds == c@.devices,
            n == ds.len(),
            key@ == model@,
            i <= n,
            forall|k: int| 0 <= k < i ==> #[trigger] ds[k].model_id != model@,
            lookup(ds, model@) == lookup(ds.subrange(i as int, n as int), model@),
        decreases n - i,
    {
        proof {
            let rest = ds.subrange(i as int, n as int);
            assert(rest[0] == ds[i as int]);
            assert(rest.drop_first() =~= ds.subrange(i + 1, n as int));
        }
        if c.devices[i].model_id == key {
            return Some(i);
        }
        i = i + 1;
    }
    None
}

/// What installing one driver shows: the start of its line, the simulated
/// work, then the end of its line.
pub open spec fn driver_step(name: Seq<char>) -> Seq<OutputModel> {
    seq![
        OutputModel::Partial("Installing "@ + name + "... "@),
        OutputModel::Pause(INSTALL_PAUSE_MS),
        OutputModel::Line("Done [✓]"@),
    ]
}

/// The steps of all drivers, one after another in stored order.
pub open spec fn driver_steps(drivers: Seq<Seq<char>>) -> Seq<OutputModel>
    decreases drivers.len(),
{
    if drivers.len() == 0 {
        Seq::empty()
    } else {
        driver_steps(drivers.drop_last()) + driver_step(drivers.last())
    }
}

/// What install shows for a device that was found.
pub open spec fn install_found(d: DeviceModel) -> Seq<OutputModel> {
    seq![
        OutputModel::Line("Detected Device: "@ + d.name),
        OutputModel::Line("Chipset: "@ + d.chipset),
        OutputModel::Line("Preparing to install "@ + decimal(d.drivers.len()) + " drivers..."@),
    ] + driver_steps(d.drivers) + seq![
        OutputModel::Line(Seq::empty()),
        OutputModel::Line("SUCCESS: All drivers for "@ + d.name + " installed successfully."@),
        OutputModel::Line("Please reboot your device."@),
    ]
}

/// What install shows on standard error when no device has model id `model`.
pub open spec fn install_not_found(model: Seq<char>) -> Seq<OutputModel> {
    seq![
        OutputModel::ErrorLine("Error: Model ID '"@ + model + "' not found in database."@),
        OutputModel::ErrorLine("Run 'list-models' to see available devices."@),
    ]
}

pub open spec fn installation(c: CatalogModel, model: Seq<char>) -> Seq<OutputModel> {
    match lookup(c.devices, model) {
        Some(d) => install_found(d),
        None => install_not_found(model),
    }
}

/// Appends the install steps of each driver of `d`, in stored order.
fn push_driver_steps(out: &mut Vec<Output>, d: &Device)
    ensures
        outputs_view(final(out)@) == outputs_view(old(out)@) + driver_steps(d@.drivers),
{
    let ghost start = outputs_view(out@);
    let ghost ds = d@.drivers;
    let mut i: usize = 0;
    assert(ds.take(0) =~= Seq::<Seq<char>>::empty());
    while i < d.drivers.len()
        invariant
            ds == d@.drivers,
            i <= ds.len(),
            outputs_view(out@) == start + driver_steps(ds.take(i as int)),
        decreases ds.len() - i,
    {
        let name = d.drivers[i].as_str();
        let ghost prev = out@;
        out.push(Output::Partial(concat3("Installing ", name, "... ")));
        out.push(Output::Pause(INSTALL_PAUSE_MS));
        out.push(Output::Line(String::from_str("Done [✓]")));
        proof {
            assert(ds[i as int] == name@);
            assert(ds.take(i + 1).drop_last() =~= ds.take(i as int));
            assert(outputs_view(out@) =~= outputs_view(prev) + driver_step(name@));
        }
        i = i + 1;
    }
    assert(ds.take(i as int) =~= ds);
}

/// What the install command shows for `model`: the device's details, one
/// simulated installation per driver in stored order and a closing message
/// when a device has that model id (the first one in catalog order), or two
/// error lines when none has.
pub fn install(c: &Catalog, model: &str) -> (r: Vec<Output>)
    ensures
        outputs_view(r@) == installation(c@, model@),
{
    let mut out: Vec<Output> = Vec::new();
    match find_device(c, model) {
        Some(i) => {
            let d = &c.devices[i];
            assert(c@.devices[i as int] == d@);
            let mut detected = String::from_str("Detected Device: ");
            detected.append(d.name.as_str());
            out.push(Output::Line(detected));
            let mut chipset = String::from_str("Chipset: ");
            chipset.append(d.chipset.as_str());
            out.push(Output::Line(chipset));
            let mut count = String::from_str("Preparing to install ");
            append_decimal(&mut count, d.drivers.len());
            count.append(" drivers...");
            out.push(Output::Line(count));
            let ghost intro = outputs_view(out@);
            assert(intro =~= install_found(d@).take(3));
            push_driver_steps(&mut out, d);
            let ghost with_steps = out@;
            out.push(Output::Line(String::new()));
            out.push(Output::Line(concat3("SUCCESS: All drivers for ", d.name.as_str(), " installed successfully.")));
            out.push(Output::Line(String::from_str("Please reboot your device.")));
            assert(outputs_view(out@) =~= outputs_view(with_steps) + seq![
                OutputModel::Line(Seq::empty()),
                OutputModel::Line("SUCCESS: All drivers for "@ + d@.name + " installed successfully."@),
                OutputModel::Line("Please reboot your device."@),
            ]);
            assert(outputs_view(out@) =~= install_found(d@));
        },
        None => {
            out.push(Output::ErrorLine(concat3("Error: Model ID '", model, "' not found in database.")));
            out.push(Output::ErrorLine(String::from_str("Run 'list-models' to see available devices.")));
            assert(outputs_view(out@) =~= install_not_found(model@));
        },
    }
    out
}

/// What the update-db command shows: the same messages and pause on every
/// run; no catalog is read or written.
pub open spec fn updating() -> Seq<OutputModel> {
    seq![
        OutputModel::Line("Checking for updates..."@),
        OutputModel::Pause(UPDATE_PAUSE_MS),
        OutputModel::Line("Successfully fetched latest driver metadata!"@),
        OutputModel::Line("Database updated to latest version."@),
    ]
}

/// What the update-db command shows.
pub fn update_db() -> (r: Vec<Output>)
    ensures
        outputs_view(r@) == updating(),
{
    let mut out: Vec<Output> = Vec::new();
    out.push(Output::Line(String::from_str("Checking for updates...")));
    out.push(Output::Pause(UPDATE_PAUSE_MS));
    out.push(Output::Line(String::from_str("Successfully fetched latest driver metadata!")));
    out.push(Output::Line(String::from_str("Database updated to latest version.")));
    assert(outputs_view(out@) =~= updating());
    out
}


/// Install resolves a model id to the first device in catalog order that has
/// it, whatever devices with the same id come later.
pub proof fn lemma_lookup_first(devices: Seq<DeviceModel>, model: Seq<char>, i: int)
    requires
        is_first_match(devices, model, i),
    ensures
        lookup(devices, model) == Some(devices[i]),
    decreases i,
{
    if i > 0 {
        assert(devices[0].model_id != model);
        let rest = devices.drop_first();
        assert forall|k: int| 0 <= k < i - 1 implies #[trigger] rest[k].model_id != model by {
            assert(rest[k] == devices[k + 1]);
        }
        lemma_lookup_first(rest, model, i - 1);
    }
}

/// A catalog without devices lists only the version line, the column
/// headers and the divider.
pub proof fn lemma_empty_listing(c: CatalogModel)
    requires
        c.devices.len() == 0,
    ensures
        listing(c).len() == 3,
        listing(c)[0] == OutputModel::Line("Loaded Database Version: "@ + c.version),
        listing(c)[1] == OutputModel::Line(table_row("Model ID"@, "Device Name"@, "Chipset"@)),
        listing(c)[2] == OutputModel::Line(divider()),
{
}

} // verus!
