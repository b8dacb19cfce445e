//! The kinds of device the application talks to, and their names on the
//! wire and in the bindings.

use vstd::prelude::*;

verus! {

/// A kind of device.
#[derive(Debug, Clone, Copy, PartialEq, Eq, Structural)]
pub enum DeviceType {
    Android,
    IOS,
    Linux,
    Windows,
    MacOS,
    Unknown,
}

/// The storage name of a device kind.
pub open spec fn device_type_name(t: DeviceType) -> Seq<char> {
    match t {
        DeviceType::Android => "android"@,
        DeviceType::IOS => "ios"@,
        DeviceType::Linux => "linux"@,
        DeviceType::Windows => "windows"@,
        DeviceType::MacOS => "macos"@,
        DeviceType::Unknown => "unknown"@,
    }
}

/// The kind named by a string: the storage names, and `"iphone"` for iOS.
pub open spec fn device_type_parse(s: Seq<char>) -> Option<DeviceType> {
    if s == "android"@ {
        Some(DeviceType::Android)
    } else if s == "ios"@ || s == "iphone"@ {
        Some(DeviceType::IOS)
    } else if s == "linux"@ {
        Some(DeviceType::Linux)
    } else if s == "windows"@ {
        Some(DeviceType::Windows)
    } else if s == "macos"@ {
        Some(DeviceType::MacOS)
    } else if s == "unknown"@ {
        Some(DeviceType::Unknown)
    } else {
        None
    }
}

fn str_is(s: &str, lit: &str) -> (b: bool)
    ensures
        b == (s@ == lit@),
{
    String::from_str(s) == String::from_str(lit)
}

impl DeviceType {
    /// The storage name.
    pub fn as_str(&self) -> (s: &'static str)
        ensures
            s@ == device_type_name(*self),
    {
        match self {
            DeviceType::Android => "android",
            DeviceType::IOS => "ios",
            DeviceType::Linux => "linux",
            DeviceType::Windows => "windows",
            DeviceType::MacOS => "macos",
            DeviceType::Unknown => "unknown",
        }
    }

    /// Parses a storage name; `Err(())` for any other string.
    pub fn from_str(s: &str) -> (r: Result<DeviceType, ()>)
        ensures
            match device_type_parse(s@) {
                Some(t) => r == Ok::<DeviceType, ()>(t),
                None => r == Err::<DeviceType, ()>(()),
            },
    {
        if str_is(s, "android") {
            Ok(DeviceType::Android)
        } else if str_is(s, "ios") || str_is(s, "iphone") {
            Ok(DeviceType::IOS)
        } else if str_is(s, "linux") {
            Ok(DeviceType::Linux)
        } else if str_is(s, "windows") {
            Ok(DeviceType::Windows)
        } else if str_is(s, "macos") {
            Ok(DeviceType::MacOS)
        } else if str_is(s, "unknown") {
            Ok(DeviceType::Unknown)
        } else {
            Err(())
        }
    }
}

/// Every kind's storage name parses back to that kind.
pub proof fn lemma_device_type_round_trip(t: DeviceType)
    ensures
        device_type_parse(device_type_name(t)) == Some(t),
{
    reveal_strlit("android");
    reveal_strlit("ios");
    reveal_strlit("iphone");
    reveal_strlit("linux");
    reveal_strlit("windows");
    reveal_strlit("macos");
    reveal_strlit("unknown");
    let a = "android"@;
    let i = "ios"@;
    let p = "iphone"@;
    let l = "linux"@;
    let w = "windows"@;
    let m = "macos"@;
    let u = "unknown"@;
    assert(i != a && i != p) by {
        assert(i.len() != a.len() && i.len() != p.len());
    }
    assert(l != a && l != i && l != p) by {
        assert(l.len() != a.len() && l.len() != i.len() && l.len() != p.len());
    }
    assert(w != a && w != i && w != p && w != l) by {
        assert(w[0] != a[0] && w.len() != i.len() && w.len() != p.len() && w.len() != l.len());
    }
    assert(m != a && m != i && m != p && m != l && m != w) by {
        assert(m.len() != a.len() && m.len() != i.len() && m.len() != p.len() && m[0] != l[0]
            && m.len() != w.len());
    }
    assert(u != a && u != i && u != p && u != l && u != w && u != m) by {
        assert(u[0] != a[0] && u.len() != i.len() && u.len() != p.len() && u.len() != l.len()
            && u[0] != w[0] && u.len() != m.len());
    }
}

/// The kind named by a string, `Unknown` when it names none (as the
/// bindings read a peer-supplied kind).
pub fn device_type_or_unknown(s: &str) -> (t: DeviceType)
    ensures
        t == match device_type_parse(s@) {
            Some(k) => k,
            None => DeviceType::Unknown,
        },
{
    match DeviceType::from_str(s) {
        Ok(t) => t,
        Err(()) => DeviceType::Unknown,
    }
}

} // verus!
