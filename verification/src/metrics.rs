//! Host metrics: the two samples the collector publishes each round, and
//! their measurement form.  Reading the host and sending the batch are the
//! host program's side; the values and their shaping live here.
use vstd::prelude::*;

verus! {

/// Memory in use on the host, in kilobytes.
pub struct UsedMemory {
    pub kb: u64,
}

impl UsedMemory {
    pub fn new(kb: u64) -> (r: UsedMemory)
        ensures
            r.kb == kb,
    {
        UsedMemory { kb }
    }
}

/// The number of processes on the host.
pub struct Processes {
    pub count: u32,
}

impl Processes {
    pub fn new(count: u32) -> (r: Processes)
        ensures
            r.count == count,
    {
        Processes { count }
    }
}

/// One measurement bound for the time-series sink: its name, the name of
/// its single field, and the field's value.
pub struct Measurement {
    pub name: String,
    pub field_name: String,
    pub value: u128,
}

impl Measurement {
    /// The measurement a memory sample becomes.
    pub fn used_memory(v: UsedMemory) -> (r: Measurement)
        ensures
            r.name@ == "used_mem"@,
            r.field_name@ == "kb"@,
            r.value == v.kb as u128,
    {
        Measurement {
            name: "used_mem".to_owned(),
            field_name: "kb".to_owned(),
            value: v.kb as u128,
        }
    }

    /// The measurement a process-count sample becomes.
    pub fn number_of_processes(v: Processes) -> (r: Measurement)
        ensures
            r.name@ == "number_of_processes"@,
            r.field_name@ == "count"@,
            r.value == v.count as u128,
    {
        Measurement {
            name: "number_of_processes".to_owned(),
            field_name: "count".to_owned(),
            value: v.count as u128,
        }
    }
}

impl From<UsedMemory> for Measurement {
    fn from(v: UsedMemory) -> (r: Measurement)
        ensures
            r.name@ == "used_mem"@,
            r.field_name@ == "kb"@,
            r.value == v.kb as u128,
    {
        Measurement::used_memory(v)
    }
}

impl vstd::std_specs::convert::FromSpecImpl<UsedMemory> for Measurement {
    open spec fn obeys_from_spec() -> bool {
        false
    }

    open spec fn from_spec(v: UsedMemory) -> Measurement {
        arbitrary()
    }
}

impl From<Processes> for Measurement {
    fn from(v: Processes) -> (r: Measurement)
        ensures
            r.name@ == "number_of_processes"@,
            r.field_name@ == "count"@,
            r.value == v.count as u128,
    {
        Measurement::number_of_processes(v)
    }
}

impl vstd::std_specs::convert::FromSpecImpl<Processes> for Measurement {
    open spec fn obeys_from_spec() -> bool {
        false
    }

    open spec fn from_spec(v: Processes) -> Measurement {
        arbitrary()
    }
}

/// The batch one collection round publishes: the memory sample and the
/// process count, in that order.
pub fn measurements_of(used_kb: u64, process_count: u32) -> (r: Vec<Measurement>)
    ensures
        r@.len() == 2,
        r@[0].name@ == "used_mem"@ && r@[0].field_name@ == "kb"@ && r@[0].value == used_kb as u128,
        r@[1].name@ == "number_of_processes"@ && r@[1].field_name@ == "count"@ && r@[1].value
            == process_count as u128,
{
    let mut v: Vec<Measurement> = Vec::new();
    v.push(Measurement::used_memory(UsedMemory::new(used_kb)));
    v.push(Measurement::number_of_processes(Processes::new(process_count)));
    v
}

} // verus!
