use vstd::prelude::*;
use vstd::string::*;
use crate::numtext::str_eq;

verus! {

/// The kind of quantity a field-bus sensor measures.
#[derive(Clone, Copy, Debug, PartialEq, Eq, Structural)]
pub enum SensorType {
    Current,
    Voltage,
    Power,
    Energy,
    Frequency,
    Temperature,
    Pressure,
    StateOfCharge,
    Other,
}

/// One value read from a field-bus device. The value is held in thousandths of its unit.
#[derive(Debug)]
pub struct Reading {
    pub sensor_type: SensorType,
    pub unit: String,
    pub value_milli: i64,
    pub timestamp_ms: u64,
    pub metadata: Vec<(String, String)>,
}

/// Addresses of a DNP3 link.
#[derive(Clone, Copy, Debug, PartialEq, Eq, Structural)]
pub struct Dnp3Config {
    pub local_addr: u16,
    pub remote_addr: u16,
    pub integrity_interval_ms: u64,
}

pub open spec fn sensor_type_text(t: SensorType) -> Seq<char> {
    match t {
        SensorType::Current => "Current"@,
        SensorType::Voltage => "Voltage"@,
        SensorType::Power => "Power"@,
        SensorType::Energy => "Energy"@,
        SensorType::Frequency => "Frequency"@,
        SensorType::Temperature => "Temperature"@,
        SensorType::Pressure => "Pressure"@,
        SensorType::StateOfCharge => "StateOfCharge"@,
        SensorType::Other => "Other"@,
    }
}

pub fn sensor_type_name(t: SensorType) -> (r: &'static str)
    ensures
        r@ == sensor_type_text(t),
{
    match t {
        SensorType::Current => "Current",
        SensorType::Voltage => "Voltage",
        SensorType::Power => "Power",
        SensorType::Energy => "Energy",
        SensorType::Frequency => "Frequency",
        SensorType::Temperature => "Temperature",
        SensorType::Pressure => "Pressure",
        SensorType::StateOfCharge => "StateOfCharge",
        SensorType::Other => "Other",
    }
}

/// The value of the first metadata entry named `key`.
pub open spec fn meta_value(m: Seq<(String, String)>, key: Seq<char>) -> Option<Seq<char>>
    decreases m.len(),
{
    if m.len() == 0 {
        None
    } else if m[0].0@ == key {
        Some(m[0].1@)
    } else {
        meta_value(m.drop_first(), key)
    }
}

fn find_meta<'a>(m: &'a Vec<(String, String)>, key: &str) -> (r: Option<&'a String>)
    ensures
        match r {
            Some(v) => meta_value(m@, key@) == Some(v@),
            None => meta_value(m@, key@) is None,
        },
{
    let mut i: usize = 0;
    assert(m@.subrange(0, m@.len() as int) =~= m@);
    while i < m.len()
        invariant
            i <= m@.len(),
            meta_value(m@, key@) == meta_value(m@.subrange(i as int, m@.len() as int), key@),
        decreases m@.len() - i,
    {
        let ghost rest = m@.subrange(i as int, m@.len() as int);
        assert(rest[0] == m@[i as int]);
        if str_eq(m[i].0.as_str(), key) {
            return Some(&m[i].1);
        }
        assert(rest.drop_first() =~= m@.subrange(i + 1, m@.len() as int));
        i = i + 1;
    }
    assert(m@.subrange(i as int, m@.len() as int) =~= Seq::<(String, String)>::empty());
    None
}

/// The parameter label of a reading: its `register` metadata, else its `oid`, else
/// `unknown`.
pub open spec fn param_label(r: Reading) -> Seq<char> {
    match meta_value(r.metadata@, "register"@) {
        Some(v) => v,
        None => match meta_value(r.metadata@, "oid"@) {
            Some(v) => v,
            None => "unknown"@,
        },
    }
}

/// The label values under which a reading is published: driver id, sensor type, unit and
/// parameter.
pub fn sensor_series_labels(driver_id: &str, reading: &Reading) -> (r: Vec<String>)
    ensures
        r@.len() == 4,
        r@[0]@ == driver_id@,
        r@[1]@ == sensor_type_text(reading.sensor_type),
        r@[2]@ == reading.unit@,
        r@[3]@ == param_label(*reading),
{
    let param = match find_meta(&reading.metadata, "register") {
        Some(v) => v.clone(),
        None => match find_meta(&reading.metadata, "oid") {
            Some(v) => v.clone(),
            None => String::from_str("unknown"),
        },
    };
    let mut out: Vec<String> = Vec::new();
    out.push(String::from_str(driver_id));
    out.push(String::from_str(sensor_type_name(reading.sensor_type)));
    out.push(reading.unit.clone());
    out.push(param);
    out
}

} // verus!
