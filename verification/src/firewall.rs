//! The Windows firewall rules the application needs for discovery and
//! transfers, and whether the rules found on the system match them.
//! Reading and writing the rules is done by the application.

use vstd::prelude::*;
use crate::events::{ascii_lower, ascii_lower_chars};

verus! {

/// A rule the application needs.
#[derive(Debug, Clone, Copy)]
pub struct FirewallRuleDef {
    pub name: &'static str,
    /// Whether the rule is for incoming traffic (else outgoing).
    pub inbound: bool,
    pub description: &'static str,
    /// The local port the rule is limited to, if any.
    pub local_port: Option<u16>,
    /// The remote port the rule is limited to, if any.
    pub remote_port: Option<u16>,
}

/// A rule as found on the system.
#[derive(Debug, Clone)]
pub struct ObservedRule {
    pub enabled: bool,
    pub allows: bool,
    pub inbound: bool,
    pub udp: bool,
    pub application: Option<String>,
}

/// The rules: mDNS in and out on port 5353, and the transfer traffic in and
/// out.
pub fn firewall_rules() -> (r: [FirewallRuleDef; 4])
    ensures
        r[0].inbound && r[0].local_port == Some(5353u16) && r[0].remote_port is None,
        !r[1].inbound && r[1].local_port is None && r[1].remote_port == Some(5353u16),
        r[2].inbound && r[2].local_port is None && r[2].remote_port is None,
        !r[3].inbound && r[3].local_port is None && r[3].remote_port is None,
{
    [
        FirewallRuleDef {
            name: "Connected Desktop (mDNS) - Inbound",
            inbound: true,
            description: "Allow Connected Desktop to receive mDNS traffic for local network discovery.",
            local_port: Some(5353),
            remote_port: None,
        },
        FirewallRuleDef {
            name: "Connected Desktop (mDNS) - Outbound",
            inbound: false,
            description: "Allow Connected Desktop to send mDNS queries for local network discovery.",
            local_port: None,
            remote_port: Some(5353),
        },
        FirewallRuleDef {
            name: "Connected Desktop (QUIC) - Inbound",
            inbound: true,
            description: "Allow Connected Desktop to receive incoming connections from paired devices.",
            local_port: None,
            remote_port: None,
        },
        FirewallRuleDef {
            name: "Connected Desktop (QUIC) - Outbound",
            inbound: false,
            description: "Allow Connected Desktop to connect to paired devices.",
            local_port: None,
            remote_port: None,
        },
    ]
}

/// Whether a rule found on the system is the one needed: enabled, allowing,
/// in the right direction, for UDP, and for this program (its path compared
/// without regard to ASCII case).
pub open spec fn rule_ok_spec(def: FirewallRuleDef, found: ObservedRule, exe: Seq<char>) -> bool {
    &&& found.enabled
    &&& found.allows
    &&& found.inbound == def.inbound
    &&& found.udp
    &&& found.application is Some
    &&& ascii_lower(found.application->0@) == ascii_lower(exe)
}

fn same_chars(a: &Vec<char>, b: &Vec<char>) -> (r: bool)
    ensures
        r == (a@ == b@),
{
    if a.len() != b.len() {
        return false;
    }
    let mut i: usize = 0;
    while i < a.len()
        invariant
            0 <= i <= a@.len() == b@.len(),
            forall|k: int| 0 <= k < i ==> a@[k] == b@[k],
        decreases a@.len() - i,
    {
        if a[i] != b[i] {
            return false;
        }
        i = i + 1;
    }
    assert(a@ =~= b@);
    true
}

/// Whether a rule found on the system is the one needed.
pub fn rule_ok(def: &FirewallRuleDef, found: &ObservedRule, exe: &str) -> (b: bool)
    ensures
        b == rule_ok_spec(*def, *found, exe@),
{
    if !(found.enabled && found.allows && found.inbound == def.inbound && found.udp) {
        return false;
    }
    match &found.application {
        Some(app) => {
            let a = ascii_lower_chars(app.as_str());
            let e = ascii_lower_chars(exe);
            same_chars(&a, &e)
        },
        None => false,
    }
}

/// Whether every needed rule was found and matches; `found[i]` is what the
/// system has under the name of `defs[i]`.
pub open spec fn all_rules_ok_spec(
    defs: Seq<FirewallRuleDef>,
    found: Seq<Option<ObservedRule>>,
    exe: Seq<char>,
) -> bool {
    forall|i: int|
        0 <= i < defs.len() ==> i < found.len() && (#[trigger] found[i]) is Some && rule_ok_spec(
            defs[i],
            found[i]->0,
            exe,
        )
}

/// Whether every needed rule was found and matches.
pub fn all_rules_ok(defs: &[FirewallRuleDef], found: &[Option<ObservedRule>], exe: &str) -> (b: bool)
    ensures
        b == all_rules_ok_spec(defs@, found@, exe@),
{
    let mut i: usize = 0;
    while i < defs.len()
        invariant
            0 <= i <= defs@.len(),
            forall|k: int|
                0 <= k < i ==> k < found@.len() && (#[trigger] found@[k]) is Some && rule_ok_spec(
                    defs@[k],
                    found@[k]->0,
                    exe@,
                ),
        decreases defs@.len() - i,
    {
        if i >= found.len() {
            assert(!(i < found@.len() && found@[i as int] is Some));
            return false;
        }
        match &found[i] {
            Some(rule) => {
                if !rule_ok(&defs[i], rule, exe) {
                    return false;
                }
            },
            None => {
                return false;
            },
        }
        i = i + 1;
    }
    true
}

} // verus!
