//! The requests a client sends to the daemon and the interpretation of its
//! replies.
use crate::error::Error;
use crate::value::{dict_wf, get, is_string, lookup, message_type, Dictionary, Value};
use vstd::prelude::*;

verus! {

/// An attached device, as the daemon describes it.
#[derive(Debug, Clone, PartialEq, Eq)]
pub struct Device {
    pub device_id: u32,
    pub product_id: u32,
    pub location_id: u32,
    pub serial_number: String,
}

/// The integer held in `v`, if `v` is an integer.
pub open spec fn as_integer(v: Option<Value>) -> Option<i64> {
    match v {
        Some(Value::Integer(i)) => Some(i),
        _ => None,
    }
}

/// The string held in `v`, if `v` is a string.
pub open spec fn as_string(v: Option<Value>) -> Option<String> {
    match v {
        Some(Value::String(s)) => Some(s),
        _ => None,
    }
}

/// The device that a `Properties` dictionary describes: all four fields must be
/// present with the right kind; the integers are narrowed to 32 bits.
pub open spec fn device_of(v: Value) -> Option<Device> {
    match v {
        Value::Dictionary(d) => {
            let id = as_integer(lookup(d@, "DeviceID"@));
            let product = as_integer(lookup(d@, "ProductID"@));
            let location = as_integer(lookup(d@, "LocationID"@));
            let serial = as_string(lookup(d@, "SerialNumber"@));
            if id is Some && product is Some && location is Some && serial is Some {
                Some(
                    Device {
                        device_id: id->Some_0 as u32,
                        product_id: product->Some_0 as u32,
                        location_id: location->Some_0 as u32,
                        serial_number: serial->Some_0,
                    },
                )
            } else {
                None
            }
        },
        _ => None,
    }
}

/// The device that one entry of a device list describes, through its
/// `Properties` dictionary.
pub open spec fn entry_device(item: Value) -> Option<Device> {
    match item {
        Value::Dictionary(d) => match lookup(d@, "Properties"@) {
            Some(p) => device_of(p),
            None => None,
        },
        _ => None,
    }
}

/// The devices of the entries that describe one, in order; the others are
/// left out.
pub open spec fn parsed_devices(items: Seq<Value>) -> Seq<Device>
    decreases items.len(),
{
    if items.len() == 0 {
        Seq::empty()
    } else {
        let rest = parsed_devices(items.drop_last());
        match entry_device(items.last()) {
            Some(dev) => rest.push(dev),
            None => rest,
        }
    }
}

/// The devices that a reply to `ListDevices` reports, or `None` when the
/// reply is not a dictionary with an array under `DeviceList`.
pub open spec fn devices_of(reply: Value) -> Option<Seq<Device>> {
    match reply {
        Value::Dictionary(d) => match lookup(d@, "DeviceList"@) {
            Some(Value::Array(items)) => Some(parsed_devices(items@)),
            _ => None,
        },
        _ => None,
    }
}

fn integer_at(d: &Dictionary, key: &str) -> (r: Option<i64>)
    ensures
        r == as_integer(lookup(d@, key@)),
{
    match get(d, key) {
        Some(Value::Integer(i)) => Some(*i),
        _ => None,
    }
}

fn string_at(d: &Dictionary, key: &str) -> (r: Option<String>)
    ensures
        r == as_string(lookup(d@, key@)),
{
    match get(d, key) {
        Some(Value::String(s)) => Some(s.clone()),
        _ => None,
    }
}

fn device_from(v: &Value) -> (r: Option<Device>)
    ensures
        r == device_of(*v),
{
    match v {
        Value::Dictionary(d) => {
            let id = integer_at(d, "DeviceID");
            let product = integer_at(d, "ProductID");
            let location = integer_at(d, "LocationID");
            let serial = string_at(d, "SerialNumber");
            match (id, product, location, serial) {
                (Some(id), Some(product), Some(location), Some(serial)) => Some(
                    Device {
                        device_id: id as u32,
                        product_id: product as u32,
                        location_id: location as u32,
                        serial_number: serial,
                    },
                ),
                _ => None,
            }
        },
        _ => None,
    }
}

impl Device {
    /// The device that a `Properties` dictionary describes; `None` when `plist`
    /// is not a dictionary or any of the four fields is missing or of another
    /// kind.
    pub fn from_plist(plist: Value) -> (r: Option<Device>)
        ensures
            r == device_of(plist),
    {
        device_from(&plist)
    }
}

fn entry_from(item: &Value) -> (r: Option<Device>)
    ensures
        r == entry_device(*item),
{
    match item {
        Value::Dictionary(d) => match get(d, "Properties") {
            Some(p) => device_from(p),
            None => None,
        },
        _ => None,
    }
}

/// The devices listed in a reply to `ListDevices`. Entries that do not
/// describe a device are dropped; a reply without an array under
/// `DeviceList` is `UnexpectedFormat`.
pub fn devices_from_reply(reply: &Value) -> (r: Result<Vec<Device>, Error>)
    ensures
        match devices_of(*reply) {
            Some(s) => r is Ok && r->Ok_0@ == s,
            None => r is Err && r->Err_0 is UnexpectedFormat,
        },
{
    let items = match reply {
        Value::Dictionary(d) => match get(d, "DeviceList") {
            Some(Value::Array(items)) => items,
            _ => return Err(Error::UnexpectedFormat),
        },
        _ => return Err(Error::UnexpectedFormat),
    };
    let mut out: Vec<Device> = Vec::new();
    let mut i: usize = 0;
    while i < items.len()
        invariant
            i <= items@.len(),
            out@ == parsed_devices(items@.subrange(0, i as int)),
        decreases items@.len() - i,
    {
        let ghost prefix = items@.subrange(0, i + 1);
        assert(prefix.drop_last() == items@.subrange(0, i as int));
        assert(prefix.last() == items@[i as int]);
        match entry_from(&items[i]) {
            Some(dev) => out.push(dev),
            None => {},
        }
        i = i + 1;
    }
    assert(items@.subrange(0, items@.len() as int) == items@);
    Ok(out)
}

/// The devices of a concatenation are those of each part, in order.
pub proof fn lemma_parsed_devices_concat(a: Seq<Value>, b: Seq<Value>)
    ensures
        parsed_devices(a + b) == parsed_devices(a) + parsed_devices(b),
    decreases b.len(),
{
    if b.len() == 0 {
        assert(a + b == a);
        assert(parsed_devices(b) == Seq::<Device>::empty());
        assert(parsed_devices(a) + parsed_devices(b) == parsed_devices(a));
    } else {
        lemma_parsed_devices_concat(a, b.drop_last());
        assert((a + b).drop_last() == a + b.drop_last());
        assert((a + b).last() == b.last());
        match entry_device(b.last()) {
            Some(dev) => {
                assert(parsed_devices(a) + parsed_devices(b.drop_last()).push(dev) == (
                parsed_devices(a) + parsed_devices(b.drop_last())).push(dev));
            },
            None => {},
        }
    }
}

/// A device-list entry whose `Properties` dictionary has no `SerialNumber`
/// yields no device, and the list parsed with it, wherever it stands, equals
/// the list parsed without it.
pub proof fn lemma_entry_without_serial_dropped(
    before: Seq<Value>,
    item: Value,
    after: Seq<Value>,
)
    requires
        match item {
            Value::Dictionary(d) => match lookup(d@, "Properties"@) {
                Some(Value::Dictionary(p)) => lookup(p@, "SerialNumber"@) is None,
                _ => false,
            },
            _ => false,
        },
    ensures
        entry_device(item) is None,
        parsed_devices(before + seq![item] + after) == parsed_devices(before + after),
{
    lemma_parsed_devices_concat(before + seq![item], after);
    lemma_parsed_devices_concat(before, seq![item]);
    lemma_parsed_devices_concat(before, after);
    assert(seq![item].drop_last() == Seq::<Value>::empty());
    assert(parsed_devices(Seq::<Value>::empty()) == Seq::<Device>::empty());
    assert(parsed_devices(seq![item]) == Seq::<Device>::empty());
    assert(parsed_devices(before) + Seq::<Device>::empty() == parsed_devices(before));
}

/// `v` with its two bytes exchanged.
pub open spec fn swap16(v: u16) -> int {
    (v as int % 256) * 256 + v as int / 256
}

/// Exchanges the two bytes of `v`, turning a port number into network byte
/// order on a little-endian field.
pub fn byte_swap(v: u16) -> (r: u16)
    ensures
        r as int == swap16(v),
{
    let r: u16 = ((v & 0xFF) << 8) | ((v >> 8) & 0xFF);
    assert(r == ((v & 0xFF) << 8) | ((v >> 8) & 0xFF));
    assert(((v & 0xFF) << 8) | ((v >> 8) & 0xFF) == (v % 256) * 256 + v / 256) by (bit_vector);
    r
}

/// Whether `r` is the request that lists the attached devices.
pub open spec fn is_list_devices_request(r: Value) -> bool {
    match r {
        Value::Dictionary(d) => d@.len() == 1 && d@[0].0@ == "MessageType"@ && is_string(
            d@[0].1,
            "ListDevices"@,
        ),
        _ => false,
    }
}

/// The request that lists the attached devices.
pub fn list_devices_request() -> (r: Value)
    ensures
        is_list_devices_request(r),
{
    Value::Dictionary(message_type("ListDevices"))
}

/// Whether `r` is the request that opens a stream to `port` of device
/// `device_id`, the port's bytes exchanged.
pub open spec fn is_connect_request(r: Value, device_id: u32, port: u16) -> bool {
    match r {
        Value::Dictionary(d) => {
            &&& d@.len() == 3
            &&& d@[0].0@ == "MessageType"@
            &&& is_string(d@[0].1, "Connect"@)
            &&& d@[1].0@ == "DeviceID"@
            &&& d@[1].1 == Value::Integer(device_id as i64)
            &&& d@[2].0@ == "PortNumber"@
            &&& d@[2].1 == Value::Integer(swap16(port) as i64)
            &&& dict_wf(d@)
        },
        _ => false,
    }
}

/// The request that opens a stream to `port` of device `device_id`.
pub fn connect_request(device_id: u32, port: u16) -> (r: Value)
    ensures
        is_connect_request(r, device_id, port),
{
    let mut d = message_type("Connect");
    d.push(("DeviceID".to_owned(), Value::Integer(device_id as i64)));
    d.push(("PortNumber".to_owned(), Value::Integer(byte_swap(port) as i64)));
    proof {
        reveal_strlit("MessageType");
        reveal_strlit("DeviceID");
        reveal_strlit("PortNumber");
        assert("MessageType"@.len() == 11 && "DeviceID"@.len() == 8 && "PortNumber"@.len() == 10);
    }
    Value::Dictionary(d)
}

/// The status code of a reply to `Connect`: the integer under `Number`.
pub open spec fn reply_number(reply: Value) -> Option<i64> {
    match reply {
        Value::Dictionary(d) => as_integer(lookup(d@, "Number"@)),
        _ => None,
    }
}

/// The outcome that a reply to `Connect` reports: status 0 is success, 2 is
/// `DeviceIsNotConnected`, 3 is `PortIsNotAvailable`; any other status, or a
/// reply without an integer status, is `UnexpectedFormat`.
pub fn connect_status(reply: &Value) -> (r: Result<(), Error>)
    ensures
        r is Ok <==> reply_number(*reply) == Some(0i64),
        (r is Err && r->Err_0 is DeviceIsNotConnected) <==> reply_number(*reply) == Some(2i64),
        (r is Err && r->Err_0 is PortIsNotAvailable) <==> reply_number(*reply) == Some(3i64),
        (r is Err && r->Err_0 is UnexpectedFormat) <==> !(reply_number(*reply) == Some(0i64)
            || reply_number(*reply) == Some(2i64) || reply_number(*reply) == Some(3i64)),
{
    let number = match reply {
        Value::Dictionary(d) => integer_at(d, "Number"),
        _ => None,
    };
    match number {
        Some(0) => Ok(()),
        Some(2) => Err(Error::DeviceIsNotConnected),
        Some(3) => Err(Error::PortIsNotAvailable),
        _ => Err(Error::UnexpectedFormat),
    }
}

} // verus!
