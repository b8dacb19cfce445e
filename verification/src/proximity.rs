//! Bluetooth LE proximity advertisements. A nearby device advertises
//! manufacturer data holding its protocol version and kind, its port, its
//! id and (in the first protocol version) its name and IPv4 address; such a
//! device is added to the discovered devices unless it is this device.

use vstd::prelude::*;
use crate::device_type::DeviceType;
use crate::text::push_char;

verus! {

/// The manufacturer id under which the payload is advertised.
pub const MANUFACTURER_ID: u16 = 0xFFFF;

/// The oldest protocol version understood.
pub const MIN_COMPATIBLE_VERSION: u8 = 1;

/// Minimum payload length of protocol version 1: flags, port, id, name
/// length and address.
pub const PAYLOAD_MIN_LEN_V1: usize = 24;

/// Minimum payload length of protocol version 2: flags, port, id.
pub const PAYLOAD_MIN_LEN_V2: usize = 19;

/// Minimum payload length of protocol version 3 and later.
pub const PAYLOAD_MIN_LEN_V3: usize = 20;

/// The text of bytes decoded as UTF-8 with invalid sequences replaced by
/// U+FFFD (std `String::from_utf8_lossy`).
pub uninterp spec fn utf8_lossy(bytes: Seq<u8>) -> Seq<char>;

/// Decodes bytes as UTF-8, replacing invalid sequences (std
/// `String::from_utf8_lossy`). The result is named `utf8_lossy` of the bytes;
/// valid UTF-8 is decoded as it stands, as the documentation states.
#[verifier::external_body]
pub(crate) fn decode_utf8_lossy(bytes: &[u8]) -> (s: String)
    ensures
        s@ == utf8_lossy(bytes@),
        vstd::utf8::valid_utf8(bytes@) ==> s@ == vstd::utf8::decode_utf8(bytes@),
{
    String::from_utf8_lossy(bytes).into_owned()
}

/// Lowercase hexadecimal digit of a value below 16.
pub open spec fn hex_digit(n: int) -> char {
    if n < 10 {
        (n + 48) as char
    } else {
        (n - 10 + 97) as char
    }
}

/// The text form of a 16-byte id up to byte `i`: two lowercase hex digits
/// per byte, with a hyphen before bytes 4, 6, 8 and 10.
pub open spec fn uuid_prefix(b: Seq<u8>, i: int) -> Seq<char>
    decreases i,
{
    if i <= 0 {
        seq![]
    } else {
        let j = i - 1;
        uuid_prefix(b, j) + (if j == 4 || j == 6 || j == 8 || j == 10 {
            seq!['-']
        } else {
            seq![]
        }) + seq![hex_digit(b[j] as int / 16), hex_digit(b[j] as int % 16)]
    }
}

/// The hyphenated lowercase text of a 16-byte id (as the `uuid` crate
/// displays it).
pub open spec fn uuid_text(b: Seq<u8>) -> Seq<char> {
    uuid_prefix(b, 16)
}

fn hex_char(n: u8) -> (c: char)
    requires
        n < 16,
    ensures
        c == hex_digit(n as int),
{
    if n < 10 {
        (n + 48) as char
    } else {
        (n - 10 + 97) as char
    }
}

/// The hyphenated lowercase text of the 16 bytes at `data[start..start + 16]`.
pub fn uuid_string(data: &[u8], start: usize) -> (s: String)
    requires
        start + 16 <= data@.len(),
    ensures
        s@ == uuid_text(data@.subrange(start as int, start + 16)),
{
    let ghost b = data@.subrange(start as int, start + 16);
    let n = data.len();
    let mut s = String::new();
    let mut i: usize = 0;
    while i < 16
        invariant
            0 <= i <= 16,
            start + 16 <= data@.len(),
            n == data@.len(),
            b == data@.subrange(start as int, start + 16),
            s@ == uuid_prefix(b, i as int),
        decreases 16 - i,
    {
        if i == 4 || i == 6 || i == 8 || i == 10 {
            push_char(&mut s, '-');
        }
        let byte = data[start + i];
        assert(byte == b[i as int]);
        push_char(&mut s, hex_char(byte / 16));
        push_char(&mut s, hex_char(byte % 16));
        i = i + 1;
    }
    s
}

/// The device kind announced by the low four bits of the flags byte.
pub open spec fn device_type_of_code(code: u8) -> DeviceType {
    if code == 1 {
        DeviceType::Android
    } else if code == 2 {
        DeviceType::Linux
    } else if code == 3 {
        DeviceType::Windows
    } else if code == 4 {
        DeviceType::MacOS
    } else {
        DeviceType::Unknown
    }
}

/// The kind of a device announced with kind code `code` (the low four bits
/// of the flags byte): 1 Android, 2 Linux, 3 Windows, 4 macOS, any other
/// code an unknown kind.
pub proof fn lemma_device_kind_codes(code: u8)
    ensures
        code == 1 ==> device_type_of_code(code) == DeviceType::Android,
        code == 2 ==> device_type_of_code(code) == DeviceType::Linux,
        code == 3 ==> device_type_of_code(code) == DeviceType::Windows,
        code == 4 ==> device_type_of_code(code) == DeviceType::MacOS,
        !(1 <= code <= 4) ==> device_type_of_code(code) == DeviceType::Unknown,
{
}

fn device_type_from_code(code: u8) -> (t: DeviceType)
    ensures
        t == device_type_of_code(code),
        code == 1 ==> t == DeviceType::Android,
        code == 2 ==> t == DeviceType::Linux,
        code == 3 ==> t == DeviceType::Windows,
        code == 4 ==> t == DeviceType::MacOS,
        !(1 <= code <= 4) ==> t == DeviceType::Unknown,
{
    if code == 1 {
        DeviceType::Android
    } else if code == 2 {
        DeviceType::Linux
    } else if code == 3 {
        DeviceType::Windows
    } else if code == 4 {
        DeviceType::MacOS
    } else {
        DeviceType::Unknown
    }
}

/// The four octets of an IPv4 address.
#[derive(Debug, Clone, Copy, PartialEq, Eq, Structural)]
pub struct Ipv4Octets(pub u8, pub u8, pub u8, pub u8);

/// Where the fields of a payload lie.
#[derive(Debug, Clone, Copy)]
pub struct PayloadLayout {
    /// The protocol version (high four bits of the flags byte).
    pub protocol: u8,
    /// The device kind code (low four bits of the flags byte).
    pub device_type_code: u8,
    /// The big-endian port in bytes 1 and 2.
    pub port: u16,
    /// For protocol version 1, the name bytes `name_start..name_end` and the
    /// IPv4 address after them; `None` for later versions, which carry
    /// neither.
    pub name_and_ip: Option<(usize, usize, Ipv4Octets)>,
}

/// The layout of a payload, or `None` when it is too short or of an
/// incompatible version. The 16-byte device id always lies at bytes 3..19.
pub open spec fn payload_layout_spec(d: Seq<u8>) -> Option<PayloadLayout> {
    if d.len() < PAYLOAD_MIN_LEN_V2 {
        None
    } else {
        let protocol = (d[0] / 16) as u8;
        let code = (d[0] % 16) as u8;
        let port = (d[1] * 256 + d[2]) as u16;
        if protocol < MIN_COMPATIBLE_VERSION {
            None
        } else if protocol >= 2 {
            if protocol >= 3 && d.len() < PAYLOAD_MIN_LEN_V3 {
                None
            } else {
                Some(PayloadLayout { protocol, device_type_code: code, port, name_and_ip: None })
            }
        } else if d.len() < PAYLOAD_MIN_LEN_V1 {
            None
        } else {
            let name_end = 20 + d[19];
            if d.len() < name_end + 4 {
                None
            } else {
                Some(
                    PayloadLayout {
                        protocol,
                        device_type_code: code,
                        port,
                        name_and_ip: Some(
                            (
                                20usize,
                                name_end as usize,
                                Ipv4Octets(d[name_end], d[name_end + 1], d[name_end + 2], d[name_end + 3]),
                            ),
                        ),
                    },
                )
            }
        }
    }
}

/// Finds where the fields of an advertisement payload lie.
pub fn payload_layout(data: &[u8]) -> (r: Option<PayloadLayout>)
    ensures
        r == payload_layout_spec(data@),
{
    if data.len() < PAYLOAD_MIN_LEN_V2 {
        return None;
    }
    let flags = data[0];
    let protocol = flags / 16;
    let code = flags % 16;
    let port = (data[1] as u16) * 256 + data[2] as u16;
    if protocol < MIN_COMPATIBLE_VERSION {
        return None;
    }
    if protocol >= 2 {
        if protocol >= 3 && data.len() < PAYLOAD_MIN_LEN_V3 {
            return None;
        }
        return Some(PayloadLayout { protocol, device_type_code: code, port, name_and_ip: None });
    }
    if data.len() < PAYLOAD_MIN_LEN_V1 {
        return None;
    }
    let name_end = 20 + data[19] as usize;
    if data.len() < name_end + 4 {
        return None;
    }
    Some(
        PayloadLayout {
            protocol,
            device_type_code: code,
            port,
            name_and_ip: Some(
                (
                    20,
                    name_end,
                    Ipv4Octets(data[name_end], data[name_end + 1], data[name_end + 2], data[name_end + 3]),
                ),
            ),
        },
    )
}

/// A nearby device as announced by its advertisement.
#[derive(Debug, Clone)]
pub struct ProximityPayload {
    pub device_id: String,
    pub name: String,
    pub device_type: DeviceType,
    /// The IPv4 address; later protocol versions announce none.
    pub ip: Option<Ipv4Octets>,
    pub port: u16,
}

/// Reads an advertisement payload: the device id is the text form of bytes
/// 3..19; with protocol version 1 the name is decoded from its bytes and
/// the address follows it, later versions are named "Unknown" and carry no
/// address.
pub fn parse_payload(data: &[u8]) -> (r: Option<ProximityPayload>)
    ensures
        match payload_layout_spec(data@) {
            None => r is None,
            Some(l) => r matches Some(p) && {
                &&& p.device_id@ == uuid_text(data@.subrange(3, 19))
                &&& p.device_type == device_type_of_code(l.device_type_code)
                &&& p.port == l.port
                &&& match l.name_and_ip {
                    None => p.name@ == "Unknown"@ && p.ip is None,
                    Some((s, e, ip)) => p.name@ == utf8_lossy(data@.subrange(s as int, e as int))
                        && (vstd::utf8::valid_utf8(data@.subrange(s as int, e as int)) ==> p.name@
                        == vstd::utf8::decode_utf8(data@.subrange(s as int, e as int)))
                        && p.ip == Some(ip),
                }
            },
        },
        r matches Some(p) ==> {
            &&& data@[0] % 16 == 1 ==> p.device_type == DeviceType::Android
            &&& data@[0] % 16 == 2 ==> p.device_type == DeviceType::Linux
            &&& data@[0] % 16 == 3 ==> p.device_type == DeviceType::Windows
            &&& data@[0] % 16 == 4 ==> p.device_type == DeviceType::MacOS
            &&& !(1 <= data@[0] % 16 <= 4) ==> p.device_type == DeviceType::Unknown
        },
{
    let layout = match payload_layout(data) {
        Some(l) => l,
        None => return None,
    };
    let device_id = uuid_string(data, 3);
    let device_type = device_type_from_code(layout.device_type_code);
    match layout.name_and_ip {
        None => Some(
            ProximityPayload {
                device_id,
                name: String::from_str("Unknown"),
                device_type,
                ip: None,
                port: layout.port,
            },
        ),
        Some((s, e, ip)) => {
            let name = decode_utf8_lossy(&data[s..e]);
            Some(ProximityPayload { device_id, name, device_type, ip: Some(ip), port: layout.port })
        },
    }
}

/// A device to add to the discovered devices.
#[derive(Debug, Clone)]
pub struct ProximityInjection {
    pub device_id: String,
    pub name: String,
    pub device_type: DeviceType,
    pub ip: Ipv4Octets,
    pub port: u16,
}

/// What to do with an advertisement: nothing when it is this device's own;
/// otherwise add the device, at the unspecified address 0.0.0.0 when the
/// advertisement carries none (offline, Bluetooth-only mode).
pub fn proximity_injection(payload: ProximityPayload, local_device_id: &str) -> (r: Option<
    ProximityInjection,
>)
    ensures
        payload.device_id@ == local_device_id@ ==> r is None,
        payload.device_id@ != local_device_id@ ==> (r matches Some(i) && i.device_id
            == payload.device_id && i.name == payload.name && i.device_type == payload.device_type
            && i.port == payload.port && i.ip == match payload.ip {
            Some(ip) => ip,
            None => Ipv4Octets(0u8, 0u8, 0u8, 0u8),
        }),
{
    if payload.device_id == String::from_str(local_device_id) {
        return None;
    }
    let ip = match payload.ip {
        Some(ip) => ip,
        None => Ipv4Octets(0, 0, 0, 0),
    };
    Some(
        ProximityInjection {
            device_id: payload.device_id,
            name: payload.name,
            device_type: payload.device_type,
            ip,
            port: payload.port,
        },
    )
}

} // verus!
