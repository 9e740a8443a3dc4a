//! What the user interface receives: pause points as text, the result of adding an
//! interface, and the interface limit of a device type.
use vstd::prelude::*;
use crate::events::{event_text, table_text, Step, TableView};
use crate::simulation::{max_ifaces_of, SimulationManager};
use crate::utils::addrs::mac_addr::{mac_text, MacAddr};
use crate::utils::text::{push_str, string_of};

verus! {

/// A pause point as text: the device, the event, and each table.
#[derive(Debug)]
pub struct StepInfo {
    pub device: String,
    pub event: String,
    pub tables: Vec<String>,
}

/// A logged pause point as text: the device, the event, and each table.
#[derive(Debug, Clone)]
pub struct SimStepEvent {
    pub device: String,
    pub event: String,
    pub tables: Vec<String>,
}

/// The id and MAC address (as text) of a new interface.
#[derive(Debug)]
pub struct AddIfaceResult {
    pub id: usize,
    pub mac: String,
}

/// The printed tables of a step, one string each.
pub open spec fn tables_texts(ts: Seq<TableView>) -> Seq<Seq<char>> {
    ts.map_values(|t: TableView| table_text(t))
}

/// The characters of each string.
pub open spec fn texts(v: Seq<String>) -> Seq<Seq<char>> {
    v.map_values(|s: String| s@)
}

/// Each table printed.
fn print_tables(ts: &Vec<TableView>) -> (r: Vec<String>)
    ensures
        texts(r@) == tables_texts(ts@),
{
    let mut r: Vec<String> = Vec::new();
    let mut i: usize = 0;
    while i < ts.len()
        invariant
            i <= ts@.len(),
            texts(r@) == tables_texts(ts@.take(i as int)),
        decreases ts.len() - i,
    {
        let ghost before = r@;
        let t = ts[i].to_string();
        r.push(t);
        assert(texts(r@) =~= texts(before).push(t@));
        assert(ts@.take(i + 1) =~= ts@.take(i as int).push(ts@[i as int]));
        assert(tables_texts(ts@.take(i + 1)) =~= tables_texts(ts@.take(i as int)).push(table_text(ts@[i as int])));
        i = i + 1;
    }
    assert(ts@.take(ts@.len() as int) =~= ts@);
    r
}

impl StepInfo {
    /// The step as text.
    pub fn from_step(step: &Step) -> (r: Self)
        ensures
            r.device@ == step.device@,
            r.event@ == event_text(step.kind),
            texts(r.tables@) == tables_texts(step.tables@),
    {
        StepInfo {
            device: string_of(step.device.as_str()),
            event: step.kind.to_string(),
            tables: print_tables(&step.tables),
        }
    }
}

impl SimStepEvent {
    /// The step as text.
    pub fn from_step(step: &Step) -> (r: Self)
        ensures
            r.device@ == step.device@,
            r.event@ == event_text(step.kind),
            texts(r.tables@) == tables_texts(step.tables@),
    {
        SimStepEvent {
            device: string_of(step.device.as_str()),
            event: step.kind.to_string(),
            tables: print_tables(&step.tables),
        }
    }
}

impl AddIfaceResult {
    /// The result for interface `id` with MAC address `mac`, written as six two-digit
    /// lower-case hexadecimal bytes separated by `:`.
    pub fn new(id: usize, mac: [u8; 6]) -> (r: Self)
        ensures
            r.id == id,
            r.mac@ == mac_text(mac@),
    {
        let m = MacAddr::new(mac[0], mac[1], mac[2], mac[3], mac[4], mac[5]);
        assert(m@ =~= mac@);
        AddIfaceResult { id, mac: m.to_string() }
    }
}

/// The most interfaces of a device type; an unknown type is refused.
pub fn sim_max_interfaces(device_type: &str) -> (r: Result<usize, String>)
    ensures
        max_ifaces_of(device_type@) == 0 ==> (r matches Err(e) && e@ == "type inconnu: "@ + device_type@),
        max_ifaces_of(device_type@) != 0 ==> r == Ok::<usize, String>(max_ifaces_of(device_type@)),
{
    let max = SimulationManager::max_interfaces(device_type);
    if max == 0 {
        let mut m = string_of("type inconnu: ");
        push_str(&mut m, device_type);
        return Err(m);
    }
    Ok(max)
}

} // verus!
