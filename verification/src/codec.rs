//! The self-describing key-value payload codec.
//!
//! Every event record serializes to an ordered mapping of field name to
//! typed value, so that two independently built endpoints that agree on the
//! field names and types interoperate without a shared schema file. The
//! payload identifies its own schema: the field count and the leading field
//! name distinguish the four event kinds, so decoding dispatches on the
//! payload alone.

use vstd::prelude::*;

use crate::errors::ServiceError;
use crate::events::BluetoothNotificationEvent;
use crate::events::Event;
use crate::events::HostMetricsNotificationEvent;
use crate::events::PowerNotificationEvent;
use crate::events::WirelessNotificationEvent;
use crate::events::eq_events;

verus! {

/// A typed value of a payload entry.
#[derive(Debug, PartialEq)]
pub enum Value {
    U32(u32),
    U64(u64),
    Bool(bool),
    Str(String),
}

impl Clone for Value {
    fn clone(&self) -> (r: Self)
        ensures
            r == *self,
    {
        match self {
            Value::U32(x) => Value::U32(*x),
            Value::U64(x) => Value::U64(*x),
            Value::Bool(x) => Value::Bool(*x),
            Value::Str(s) => Value::Str(s.clone()),
        }
    }
}

/// One entry of a payload: a field name and its typed value.
#[derive(Debug, PartialEq)]
pub struct Field {
    pub name: String,
    pub value: Value,
}

impl Clone for Field {
    fn clone(&self) -> (r: Self)
        ensures
            r == *self,
    {
        Field { name: self.name.clone(), value: self.value.clone() }
    }
}

/// A wire payload: the ordered field list of one event record.
pub type Payload = Vec<Field>;

/// Whether `p` is the payload of the host-metrics record `e`.
pub open spec fn is_host_metrics_payload(p: Seq<Field>, e: HostMetricsNotificationEvent) -> bool {
    &&& p.len() == 3
    &&& p[0].name@ == "cpu_usage"@
    &&& p[0].value matches Value::U32(c) && c == e.cpu_usage
    &&& p[1].name@ == "total_memory"@
    &&& p[1].value matches Value::U64(t) && t == e.total_memory
    &&& p[2].name@ == "available_memory"@
    &&& p[2].value matches Value::U64(a) && a == e.available_memory
}

/// Whether `p` is the payload of the power record `e`.
pub open spec fn is_power_payload(p: Seq<Field>, e: PowerNotificationEvent) -> bool {
    &&& p.len() == 2
    &&& p[0].name@ == "status"@
    &&& p[0].value matches Value::Str(s) && s@ == e.status@
    &&& p[1].name@ == "percentage"@
    &&& p[1].value matches Value::U32(c) && c == e.percentage
}

/// Whether `p` is the payload of the wireless record `e`.
pub open spec fn is_wireless_payload(p: Seq<Field>, e: WirelessNotificationEvent) -> bool {
    &&& p.len() == 5
    &&& p[0].name@ == "signal_strength"@
    &&& p[0].value matches Value::Str(s) && s@ == e.signal_strength@
    &&& p[1].name@ == "is_connected"@
    &&& p[1].value matches Value::Bool(c) && c == e.is_connected
    &&& p[2].name@ == "is_enabled"@
    &&& p[2].value matches Value::Bool(en) && en == e.is_enabled
    &&& p[3].name@ == "frequency"@
    &&& p[3].value matches Value::Str(f) && f@ == e.frequency@
    &&& p[4].name@ == "ssid"@
    &&& p[4].value matches Value::Str(sd) && sd@ == e.ssid@
}

/// Whether `p` is the payload of the bluetooth record `e`.
pub open spec fn is_bluetooth_payload(p: Seq<Field>, e: BluetoothNotificationEvent) -> bool {
    &&& p.len() == 2
    &&& p[0].name@ == "is_connected"@
    &&& p[0].value matches Value::Bool(c) && c == e.is_connected
    &&& p[1].name@ == "is_enabled"@
    &&& p[1].value matches Value::Bool(en) && en == e.is_enabled
}

/// Whether `p` is the payload of the event `ev`, of whichever kind.
pub open spec fn is_event_payload(p: Seq<Field>, ev: Event) -> bool {
    match ev {
        Event::HostMetrics(e) => is_host_metrics_payload(p, e),
        Event::Power(e) => is_power_payload(p, e),
        Event::Wireless(e) => is_wireless_payload(p, e),
        Event::Bluetooth(e) => is_bluetooth_payload(p, e),
    }
}

/// Builds one payload entry.
fn field(name: &str, value: Value) -> (f: Field)
    ensures
        f.name@ == name@,
        f.value == value,
{
    Field { name: name.to_owned(), value }
}

/// Whether the entry's field name reads `expected`.
fn name_is(f: &Field, expected: &str) -> (r: bool)
    ensures
        r == (f.name@ == expected@),
{
    f.name == expected.to_owned()
}

/// Encodes a host-metrics record as its key-value payload.
pub fn encode_host_metrics(e: &HostMetricsNotificationEvent) -> (p: Payload)
    ensures
        is_host_metrics_payload(p@, *e),
{
    let mut p: Payload = Vec::new();
    p.push(field("cpu_usage", Value::U32(e.cpu_usage)));
    p.push(field("total_memory", Value::U64(e.total_memory)));
    p.push(field("available_memory", Value::U64(e.available_memory)));
    p
}

/// Decodes a host-metrics record from a payload; fails exactly when the
/// payload is not the encoding of any host-metrics record.
pub fn decode_host_metrics(p: &Payload) -> (r: Result<HostMetricsNotificationEvent, ServiceError>)
    ensures
        r matches Ok(e) ==> is_host_metrics_payload(p@, e),
        r is Ok <==> (exists|e: HostMetricsNotificationEvent| is_host_metrics_payload(p@, e)),
        r matches Err(er) ==> er == ServiceError::Decode,
{
    if p.len() != 3 {
        return Err(ServiceError::Decode);
    }
    if !name_is(&p[0], "cpu_usage") || !name_is(&p[1], "total_memory") || !name_is(
        &p[2],
        "available_memory",
    ) {
        return Err(ServiceError::Decode);
    }
    let cpu_usage = match &p[0].value {
        Value::U32(c) => *c,
        _ => { return Err(ServiceError::Decode) },
    };
    let total_memory = match &p[1].value {
        Value::U64(t) => *t,
        _ => { return Err(ServiceError::Decode) },
    };
    let available_memory = match &p[2].value {
        Value::U64(a) => *a,
        _ => { return Err(ServiceError::Decode) },
    };
    let e = HostMetricsNotificationEvent { cpu_usage, total_memory, available_memory };
    assert(is_host_metrics_payload(p@, e));
    Ok(e)
}

/// Round trip for host metrics: a payload is the encoding of at most one
/// record, so decoding the encoding of `a` can yield nothing but `a`.
pub proof fn lemma_host_metrics_round_trip(
    p: Seq<Field>,
    a: HostMetricsNotificationEvent,
    b: HostMetricsNotificationEvent,
)
    requires
        is_host_metrics_payload(p, a),
        is_host_metrics_payload(p, b),
    ensures
        a == b,
{
}

/// Encodes a power record as its key-value payload.
pub fn encode_power(e: &PowerNotificationEvent) -> (p: Payload)
    ensures
        is_power_payload(p@, *e),
{
    let mut p: Payload = Vec::new();
    p.push(field("status", Value::Str(e.status.clone())));
    p.push(field("percentage", Value::U32(e.percentage)));
    p
}

/// Decodes a power record from a payload; fails exactly when the payload is
/// not the encoding of any power record.
pub fn decode_power(p: &Payload) -> (r: Result<PowerNotificationEvent, ServiceError>)
    ensures
        r matches Ok(e) ==> is_power_payload(p@, e),
        r is Ok <==> (exists|e: PowerNotificationEvent| is_power_payload(p@, e)),
        r matches Err(er) ==> er == ServiceError::Decode,
{
    if p.len() != 2 {
        return Err(ServiceError::Decode);
    }
    if !name_is(&p[0], "status") || !name_is(&p[1], "percentage") {
        return Err(ServiceError::Decode);
    }
    let status = match &p[0].value {
        Value::Str(s) => s.clone(),
        _ => { return Err(ServiceError::Decode) },
    };
    let percentage = match &p[1].value {
        Value::U32(c) => *c,
        _ => { return Err(ServiceError::Decode) },
    };
    let e = PowerNotificationEvent { status, percentage };
    assert(is_power_payload(p@, e));
    Ok(e)
}

/// Round trip for power records: a payload pins every field of the record
/// it encodes, so two records with the same payload agree field by field.
pub proof fn lemma_power_round_trip(
    p: Seq<Field>,
    a: PowerNotificationEvent,
    b: PowerNotificationEvent,
)
    requires
        is_power_payload(p, a),
        is_power_payload(p, b),
    ensures
        a.eq_fields(b),
{
}

/// Encodes a wireless record as its key-value payload.
pub fn encode_wireless(e: &WirelessNotificationEvent) -> (p: Payload)
    ensures
        is_wireless_payload(p@, *e),
{
    let mut p: Payload = Vec::new();
    p.push(field("signal_strength", Value::Str(e.signal_strength.clone())));
    p.push(field("is_connected", Value::Bool(e.is_connected)));
    p.push(field("is_enabled", Value::Bool(e.is_enabled)));
    p.push(field("frequency", Value::Str(e.frequency.clone())));
    p.push(field("ssid", Value::Str(e.ssid.clone())));
    p
}

/// Decodes a wireless record from a payload; fails exactly when the payload
/// is not the encoding of any wireless record.
pub fn decode_wireless(p: &Payload) -> (r: Result<WirelessNotificationEvent, ServiceError>)
    ensures
        r matches Ok(e) ==> is_wireless_payload(p@, e),
        r is Ok <==> (exists|e: WirelessNotificationEvent| is_wireless_payload(p@, e)),
        r matches Err(er) ==> er == ServiceError::Decode,
{
    if p.len() != 5 {
        return Err(ServiceError::Decode);
    }
    if !name_is(&p[0], "signal_strength") || !name_is(&p[1], "is_connected") || !name_is(
        &p[2],
        "is_enabled",
    ) || !name_is(&p[3], "frequency") || !name_is(&p[4], "ssid") {
        return Err(ServiceError::Decode);
    }
    let signal_strength = match &p[0].value {
        Value::Str(s) => s.clone(),
        _ => { return Err(ServiceError::Decode) },
    };
    let is_connected = match &p[1].value {
        Value::Bool(c) => *c,
        _ => { return Err(ServiceError::Decode) },
    };
    let is_enabled = match &p[2].value {
        Value::Bool(en) => *en,
        _ => { return Err(ServiceError::Decode) },
    };
    let frequency = match &p[3].value {
        Value::Str(f) => f.clone(),
        _ => { return Err(ServiceError::Decode) },
    };
    let ssid = match &p[4].value {
        Value::Str(sd) => sd.clone(),
        _ => { return Err(ServiceError::Decode) },
    };
    let e = WirelessNotificationEvent { signal_strength, is_connected, is_enabled, frequency, ssid };
    assert(is_wireless_payload(p@, e));
    Ok(e)
}

/// Round trip for wireless records: two records with the same payload agree
/// field by field.
pub proof fn lemma_wireless_round_trip(
    p: Seq<Field>,
    a: WirelessNotificationEvent,
    b: WirelessNotificationEvent,
)
    requires
        is_wireless_payload(p, a),
        is_wireless_payload(p, b),
    ensures
        a.eq_fields(b),
{
}

/// Encodes a bluetooth record as its key-value payload.
pub fn encode_bluetooth(e: &BluetoothNotificationEvent) -> (p: Payload)
    ensures
        is_bluetooth_payload(p@, *e),
{
    let mut p: Payload = Vec::new();
    p.push(field("is_connected", Value::Bool(e.is_connected)));
    p.push(field("is_enabled", Value::Bool(e.is_enabled)));
    p
}

/// Decodes a bluetooth record from a payload; fails exactly when the
/// payload is not the encoding of any bluetooth record.
pub fn decode_bluetooth(p: &Payload) -> (r: Result<BluetoothNotificationEvent, ServiceError>)
    ensures
        r matches Ok(e) ==> is_bluetooth_payload(p@, e),
        r is Ok <==> (exists|e: BluetoothNotificationEvent| is_bluetooth_payload(p@, e)),
        r matches Err(er) ==> er == ServiceError::Decode,
{
    if p.len() != 2 {
        return Err(ServiceError::Decode);
    }
    if !name_is(&p[0], "is_connected") || !name_is(&p[1], "is_enabled") {
        return Err(ServiceError::Decode);
    }
    let is_connected = match &p[0].value {
        Value::Bool(c) => *c,
        _ => { return Err(ServiceError::Decode) },
    };
    let is_enabled = match &p[1].value {
        Value::Bool(en) => *en,
        _ => { return Err(ServiceError::Decode) },
    };
    let e = BluetoothNotificationEvent { is_connected, is_enabled };
    assert(is_bluetooth_payload(p@, e));
    Ok(e)
}

/// Round trip for bluetooth records.
pub proof fn lemma_bluetooth_round_trip(
    p: Seq<Field>,
    a: BluetoothNotificationEvent,
    b: BluetoothNotificationEvent,
)
    requires
        is_bluetooth_payload(p, a),
        is_bluetooth_payload(p, b),
    ensures
        a == b,
{
}

/// Encodes an event of any kind as its key-value payload.
pub fn encode_event(ev: &Event) -> (p: Payload)
    ensures
        is_event_payload(p@, *ev),
{
    match ev {
        Event::HostMetrics(e) => encode_host_metrics(e),
        Event::Power(e) => encode_power(e),
        Event::Wireless(e) => encode_wireless(e),
        Event::Bluetooth(e) => encode_bluetooth(e),
    }
}

/// Decodes an event of whichever kind the payload describes: the field
/// count and the leading field name identify the schema. Fails exactly when
/// the payload is the encoding of no event at all.
pub fn decode_event(p: &Payload) -> (r: Result<Event, ServiceError>)
    ensures
        r matches Ok(ev) ==> is_event_payload(p@, ev),
        r is Ok <==> (exists|ev: Event| is_event_payload(p@, ev)),
        r matches Err(er) ==> er == ServiceError::Decode,
{
    if p.len() == 3 {
        match decode_host_metrics(p) {
            Ok(e) => {
                let ev = Event::HostMetrics(e);
                assert(is_event_payload(p@, ev));
                Ok(ev)
            },
            Err(er) => Err(er),
        }
    } else if p.len() == 5 {
        match decode_wireless(p) {
            Ok(e) => {
                let ev = Event::Wireless(e);
                assert(is_event_payload(p@, ev));
                Ok(ev)
            },
            Err(er) => Err(er),
        }
    } else if p.len() == 2 {
        if name_is(&p[0], "status") {
            proof {
                reveal_strlit("status");
                reveal_strlit("is_connected");
                assert("status"@.len() == 6);
                assert("is_connected"@.len() == 12);
                assert("status"@ != "is_connected"@);
            }
            match decode_power(p) {
                Ok(e) => {
                let ev = Event::Power(e);
                assert(is_event_payload(p@, ev));
                Ok(ev)
            },
                Err(er) => Err(er),
            }
        } else {
            match decode_bluetooth(p) {
                Ok(e) => {
                let ev = Event::Bluetooth(e);
                assert(is_event_payload(p@, ev));
                Ok(ev)
            },
                Err(er) => Err(er),
            }
        }
    } else {
        Err(ServiceError::Decode)
    }
}

/// Round trip at the binding layer: a payload identifies its own schema, so
/// it is the encoding of at most one event, up to field equality.
pub proof fn lemma_event_round_trip(p: Seq<Field>, a: Event, b: Event)
    requires
        is_event_payload(p, a),
        is_event_payload(p, b),
    ensures
        eq_events(a, b),
{
    reveal_strlit("status");
    reveal_strlit("is_connected");
    assert("status"@.len() == 6);
    assert("is_connected"@.len() == 12);
    assert("status"@ != "is_connected"@);
    match a {
        Event::HostMetrics(x) => {
            lemma_host_metrics_round_trip(p, x, b->HostMetrics_0);
        },
        Event::Power(x) => {
            lemma_power_round_trip(p, x, b->Power_0);
        },
        Event::Wireless(x) => {
            lemma_wireless_round_trip(p, x, b->Wireless_0);
        },
        Event::Bluetooth(x) => {
            lemma_bluetooth_round_trip(p, x, b->Bluetooth_0);
        },
    }
}

} // verus!


