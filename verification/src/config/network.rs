//! Networks, access rules, traffic marking and signalling servers.

use vstd::prelude::*;

use crate::address;
use crate::address::{IpAddr, Ipv4Addr, Ipv6Addr, SocketAddr};
use crate::config::error;
use crate::config::error::ConfigError;
use crate::config::policy::{AclAction, AclRule, Cos, Dscp, IpNetwork, QosClass, QosPolicy};
use crate::number;
use crate::station;
use crate::station::SignalingServerRoute;
use crate::text;

verus! {

// ---------------------------------------------------------------------------
// Addresses

/// An IPv4 or IPv6 address.
pub open spec fn ip_setting(
    key: text::Text,
    value: text::Text,
    raw: text::Text,
    expected: text::Text,
) -> Result<IpAddr, error::ErrorView> {
    match address::ip_of(value) {
        Some(a) => Ok(a),
        None => Err(error::invalid(key, raw, expected, false)),
    }
}

/// Reads an IPv4 or IPv6 address.
pub fn parse_ip(key: &str, value: &str, raw: &str, expected: &str) -> (r: Result<
    IpAddr,
    ConfigError,
>)
    ensures
        error::outcome(r) == ip_setting(key@, value@, raw@, expected@),
{
    match address::read_ip(value) {
        Some(a) => Ok(a),
        None => Err(error::invalid_option(key, raw, expected, false)),
    }
}

/// An address with a port that is not zero.
pub open spec fn socket_setting(
    key: text::Text,
    raw: text::Text,
    expected: text::Text,
    expected_port: text::Text,
) -> Result<SocketAddr, error::ErrorView> {
    match address::socket_of(raw) {
        Some(a) => if a.port == 0 {
            Err(error::invalid(key, raw, expected_port, false))
        } else {
            Ok(a)
        },
        None => Err(error::invalid(key, raw, expected, false)),
    }
}

/// Reads an address with a port that is not zero.
pub fn parse_socket(key: &str, raw: &str, expected: &str, expected_port: &str) -> (r: Result<
    SocketAddr,
    ConfigError,
>)
    ensures
        error::outcome(r) == socket_setting(key@, raw@, expected@, expected_port@),
{
    match address::read_socket(raw) {
        Some(a) => if a.port == 0 {
            Err(error::invalid_option(key, raw, expected_port, false))
        } else {
            Ok(a)
        },
        None => Err(error::invalid_option(key, raw, expected, false)),
    }
}

// ---------------------------------------------------------------------------
// Networks

/// The mask of an IPv4 prefix.
pub open spec fn mask4(prefix: u8) -> u32 {
    if prefix == 0 {
        0
    } else {
        0xffff_ffffu32 << ((32 - prefix) as u32)
    }
}

/// The mask of an IPv6 prefix.
pub open spec fn mask6(prefix: u8) -> u128 {
    if prefix == 0 {
        0
    } else {
        0xffff_ffff_ffff_ffff_ffff_ffff_ffff_ffffu128 << ((128 - prefix) as u128)
    }
}

/// The prefix, from `from` on, whose mask the bits are.
pub open spec fn prefix_of_mask(bits: u32, from: u8) -> Option<u8>
    decreases 33 - from,
{
    if from > 32 {
        None
    } else if mask4(from) == bits {
        Some(from)
    } else {
        prefix_of_mask(bits, (from + 1) as u8)
    }
}

/// A prefix length of at most `max`.
pub open spec fn length_of(mask: text::Text, max: u8) -> Option<u8> {
    match number::u8_of(mask) {
        Some(n) => if n <= max {
            Some(n)
        } else {
            None
        },
        None => None,
    }
}

/// The prefix behind the slash of a network: a length, or a contiguous mask of
/// an IPv4 network.
pub open spec fn prefix_of(address: IpAddr, mask: text::Text) -> Option<u8> {
    match address {
        IpAddr::V4(_) => match length_of(mask, 32) {
            Some(n) => Some(n),
            None => match address::ipv4_of(mask) {
                Some(m) => prefix_of_mask(m.bits, 0),
                None => None,
            },
        },
        IpAddr::V6(_) => length_of(mask, 128),
    }
}

/// The network of an address: the bits behind the prefix are zero.
pub open spec fn network(a: IpAddr, prefix: u8) -> IpNetwork {
    IpNetwork {
        address: match a {
            IpAddr::V4(a) => IpAddr::V4(Ipv4Addr { bits: a.bits & mask4(prefix) }),
            IpAddr::V6(a) => IpAddr::V6(Ipv6Addr { bits: a.bits & mask6(prefix) }),
        },
        prefix,
    }
}

/// The private IPv4 networks.
pub open spec fn internal() -> Seq<IpNetwork> {
    seq![
        IpNetwork { address: IpAddr::V4(Ipv4Addr { bits: 0x0a00_0000 }), prefix: 8 },
        IpNetwork { address: IpAddr::V4(Ipv4Addr { bits: 0xac10_0000 }), prefix: 12 },
        IpNetwork { address: IpAddr::V4(Ipv4Addr { bits: 0xc0a8_0000 }), prefix: 16 },
    ]
}

/// A network, or the private networks by the word `internal`.
pub open spec fn networks_setting(key: text::Text, raw: text::Text) -> Result<
    Seq<IpNetwork>,
    error::ErrorView,
> {
    let value = text::trimmed(raw);
    let form = error::invalid(
        key,
        value,
        "internal or an IPv4/IPv6 network in address/prefix form"@,
        false,
    );
    if text::same_fold(value, "internal"@) {
        Ok(internal())
    } else {
        match text::cut(value, '/') {
            None => Err(form),
            Some((a, mask)) => match address::ip_of(text::trimmed(a)) {
                None => Err(form),
                Some(a) => match prefix_of(a, text::trimmed(mask)) {
                    None => Err(
                        error::invalid(
                            key,
                            value,
                            "a contiguous IPv4 netmask/prefix 0..32 or IPv6 prefix 0..128"@,
                            false,
                        ),
                    ),
                    Some(prefix) => Ok(seq![network(a, prefix)]),
                },
            },
        }
    }
}

/// The mask of an IPv4 prefix.
fn to_mask4(prefix: u8) -> (r: u32)
    requires
        prefix <= 32,
    ensures
        r == mask4(prefix),
{
    if prefix == 0 {
        0
    } else {
        let shift: u32 = (32 - prefix) as u32;
        0xffff_ffffu32 << shift
    }
}

/// The mask of an IPv6 prefix.
fn to_mask6(prefix: u8) -> (r: u128)
    requires
        prefix <= 128,
    ensures
        r == mask6(prefix),
{
    if prefix == 0 {
        0
    } else {
        let shift: u128 = (128 - prefix) as u128;
        0xffff_ffff_ffff_ffff_ffff_ffff_ffff_ffffu128 << shift
    }
}

/// The prefix whose mask the bits are.
fn find_prefix(bits: u32) -> (r: Option<u8>)
    ensures
        r == prefix_of_mask(bits, 0),
        r is Some ==> r->0 <= 32,
{
    let mut p: u8 = 0;
    while p <= 32
        invariant
            p <= 33,
            prefix_of_mask(bits, 0) == prefix_of_mask(bits, p),
        decreases 33 - p,
    {
        if to_mask4(p) == bits {
            return Some(p);
        }
        p += 1;
    }
    None
}

/// Reads a prefix length of at most `max`.
fn read_length(mask: &str, max: u8) -> (r: Option<u8>)
    ensures
        r == length_of(mask@, max),
        r is Some ==> r->0 <= max,
{
    match number::read_u8(mask) {
        Some(n) => if n <= max {
            Some(n)
        } else {
            None
        },
        None => None,
    }
}

/// The private IPv4 networks.
pub fn internal_networks() -> (r: Vec<IpNetwork>)
    ensures
        r@ == internal(),
{
    let r = vec![
        IpNetwork { address: IpAddr::V4(Ipv4Addr { bits: 0x0a00_0000 }), prefix: 8 },
        IpNetwork { address: IpAddr::V4(Ipv4Addr { bits: 0xac10_0000 }), prefix: 12 },
        IpNetwork { address: IpAddr::V4(Ipv4Addr { bits: 0xc0a8_0000 }), prefix: 16 },
    ];
    assert(r@ =~= internal());
    r
}

/// Reads a network, or the private networks by the word `internal`.
pub fn parse_ip_networks(key: &str, raw: &str) -> (r: Result<Vec<IpNetwork>, ConfigError>)
    ensures
        match networks_setting(key@, raw@) {
            Ok(n) => r is Ok && r->Ok_0@ == n,
            Err(e) => r is Err && r->Err_0@ == e,
        },
{
    let value = text::trim(raw);
    let v = value.as_str();
    if text::eq_ignore_ascii_case(v, "internal") {
        return Ok(internal_networks());
    }
    let form = "internal or an IPv4/IPv6 network in address/prefix form";
    let (a, mask) = match text::split_once(v, '/') {
        Some(x) => x,
        None => return Err(error::invalid_option(key, v, form, false)),
    };
    let a = match address::read_ip(text::trim(a.as_str()).as_str()) {
        Some(a) => a,
        None => return Err(error::invalid_option(key, v, form, false)),
    };
    let mask = text::trim(mask.as_str());
    let prefix: Option<u8> = match a {
        IpAddr::V4(_) => match read_length(mask.as_str(), 32) {
            Some(n) => Some(n),
            None => match address::read_ipv4(mask.as_str()) {
                Some(m) => find_prefix(m.bits),
                None => None,
            },
        },
        IpAddr::V6(_) => read_length(mask.as_str(), 128),
    };
    match prefix {
        None => Err(
            error::invalid_option(
                key,
                v,
                "a contiguous IPv4 netmask/prefix 0..32 or IPv6 prefix 0..128",
                false,
            ),
        ),
        Some(prefix) => {
            let masked = match a {
                IpAddr::V4(a) => IpAddr::V4(Ipv4Addr { bits: a.bits & to_mask4(prefix) }),
                IpAddr::V6(a) => IpAddr::V6(Ipv6Addr { bits: a.bits & to_mask6(prefix) }),
            };
            let mut r: Vec<IpNetwork> = Vec::new();
            r.push(IpNetwork { address: masked, prefix });
            assert(r@ =~= seq![IpNetwork { address: masked, prefix }]);
            Ok(r)
        },
    }
}

/// The bits of a network behind its prefix are zero: a network of the network
/// address with the same prefix is the same network.
pub proof fn law_network_is_canonical(a: IpAddr, prefix: u8)
    ensures
        network(network(a, prefix).address, prefix) == network(a, prefix),
{
    match a {
        IpAddr::V4(a) => {
            let b: u32 = a.bits;
            let m: u32 = mask4(prefix);
            assert((b & m) & m == b & m) by (bit_vector);
        },
        IpAddr::V6(a) => {
            let b: u128 = a.bits;
            let m: u128 = mask6(prefix);
            assert((b & m) & m == b & m) by (bit_vector);
        },
    }
}

// ---------------------------------------------------------------------------
// Access rules

/// Rules of one action for networks.
pub open spec fn rules_for(action: AclAction, networks: Seq<IpNetwork>) -> Seq<AclRule> {
    Seq::new(networks.len(), |i: int| AclRule { action, network: networks[i] })
}

/// The rules after one more setting: empty text clears them.
pub open spec fn acl_after(
    rules: Seq<AclRule>,
    action: AclAction,
    key: text::Text,
    raw: text::Text,
) -> Result<Seq<AclRule>, error::ErrorView> {
    if text::trimmed(raw).len() == 0 {
        Ok(Seq::empty())
    } else {
        match networks_setting(key, raw) {
            Ok(n) => Ok(rules + rules_for(action, n)),
            Err(e) => Err(e),
        }
    }
}

/// Adds the rules of one more setting.
pub fn apply_acl_entry(rules: &mut Vec<AclRule>, action: AclAction, key: &str, raw: &str) -> (r:
    Option<ConfigError>)
    ensures
        match acl_after(old(rules)@, action, key@, raw@) {
            Ok(next) => r is None && final(rules)@ == next,
            Err(e) => r is Some && r->0@ == e && final(rules)@ == old(rules)@,
        },
{
    if text::trim(raw).as_str().is_empty() {
        rules.clear();
        return None;
    }
    let networks = match parse_ip_networks(key, raw) {
        Ok(n) => n,
        Err(e) => return Some(e),
    };
    let ghost start = rules@;
    let mut i: usize = 0;
    assert(start + rules_for(action, networks@.take(0)) =~= start);
    while i < networks.len()
        invariant
            i <= networks@.len(),
            rules@ == start + rules_for(action, networks@.take(i as int)),
        decreases networks.len() - i,
    {
        rules.push(AclRule { action, network: networks[i] });
        i += 1;
        assert(rules@ =~= start + rules_for(action, networks@.take(i as int)));
    }
    assert(networks@.take(i as int) =~= networks@);
    None
}

/// The local networks after one more setting: empty text clears them.
pub open spec fn local_after(networks: Seq<IpNetwork>, key: text::Text, raw: text::Text) -> Result<
    Seq<IpNetwork>,
    error::ErrorView,
> {
    if text::trimmed(raw).len() == 0 {
        Ok(Seq::empty())
    } else {
        match networks_setting(key, raw) {
            Ok(n) => Ok(networks + n),
            Err(e) => Err(e),
        }
    }
}

/// Adds the networks of one more setting.
pub fn apply_local_network(networks: &mut Vec<IpNetwork>, key: &str, raw: &str) -> (r: Option<
    ConfigError,
>)
    ensures
        match local_after(old(networks)@, key@, raw@) {
            Ok(next) => r is None && final(networks)@ == next,
            Err(e) => r is Some && r->0@ == e && final(networks)@ == old(networks)@,
        },
{
    if text::trim(raw).as_str().is_empty() {
        networks.clear();
        return None;
    }
    match parse_ip_networks(key, raw) {
        Ok(n) => {
            let mut n = n;
            networks.append(&mut n);
            None
        },
        Err(e) => Some(e),
    }
}

// ---------------------------------------------------------------------------
// Traffic marking

/// The value of a text of one digit.
pub open spec fn one_digit(c: char) -> Option<u8> {
    if text::is_digit(c) {
        Some((c as u32 - 48) as u8)
    } else {
        None
    }
}

/// The code point that a reduced name stands for.
pub open spec fn named_dscp(name: text::Text) -> Option<u8> {
    if name == "none"@ {
        Some(0)
    } else if name == "ef"@ {
        Some(46)
    } else if name == "lowdelay"@ {
        Some(4)
    } else if name == "throughput"@ {
        Some(2)
    } else if name == "reliability"@ {
        Some(1)
    } else if name == "mincost"@ {
        Some(0)
    } else if name.len() == 3 && name[0] == 'c' && name[1] == 's' {
        match one_digit(name[2]) {
            Some(class) => if class <= 7 {
                Some((class * 8) as u8)
            } else {
                None
            },
            None => None,
        }
    } else if name.len() == 4 && name[0] == 'a' && name[1] == 'f' {
        match (one_digit(name[2]), one_digit(name[3])) {
            (Some(class), Some(drop)) => if 1 <= class <= 4 && 1 <= drop <= 3 {
                Some((class * 8 + drop * 2) as u8)
            } else {
                None
            },
            _ => None,
        }
    } else {
        None
    }
}

/// The code point that a text stands for: a class name or a number.
pub open spec fn dscp_of(raw: text::Text) -> Option<Dscp> {
    let value = match named_dscp(text::name_of(raw)) {
        Some(v) => Some(v),
        None => number::u8_of(text::trimmed(raw)),
    };
    match value {
        Some(v) => if v <= 63 {
            Some(Dscp { value: v })
        } else {
            None
        },
        None => None,
    }
}

/// A code point.
pub open spec fn dscp_setting(key: text::Text, raw: text::Text) -> Result<Dscp, error::ErrorView> {
    match dscp_of(raw) {
        Some(d) => Ok(d),
        None => Err(
            error::invalid(key, raw, "DSCP 0..63, CS0..CS7, AF11..AF43, EF, or none"@, false),
        ),
    }
}

/// A code point, or the type-of-service byte that holds one.
pub open spec fn tos_setting(key: text::Text, raw: text::Text) -> Result<Dscp, error::ErrorView> {
    match dscp_of(raw) {
        Some(d) => Ok(d),
        None => match number::marked(text::trimmed(raw), 255) {
            Some(v) => Ok(Dscp { value: (v as u8) >> 2u8 }),
            None => Err(
                error::invalid(key, raw, "TOS byte 0..255/0x00..0xff or a DSCP name"@, false),
            ),
        },
    }
}

/// A class-of-service priority.
pub open spec fn cos_setting(key: text::Text, raw: text::Text) -> Result<Cos, error::ErrorView> {
    match number::u8_of(text::trimmed(raw)) {
        Some(v) => if v <= 7 {
            Ok(Cos { value: v })
        } else {
            Err(error::invalid(key, raw, "COS priority 0..7"@, false))
        },
        None => Err(error::invalid(key, raw, "COS priority 0..7"@, false)),
    }
}

/// The value of a digit.
fn read_one_digit(c: char) -> (r: Option<u8>)
    ensures
        r == one_digit(c),
        r is Some ==> r->0 <= 9,
{
    if text::digit(c) {
        Some((c as u32 - 48) as u8)
    } else {
        None
    }
}

/// The code point that a reduced name stands for.
fn read_named_dscp(name: &str) -> (r: Option<u8>)
    ensures
        r == named_dscp(name@),
{
    if text::same(name, "none") {
        return Some(0);
    }
    if text::same(name, "ef") {
        return Some(46);
    }
    if text::same(name, "lowdelay") {
        return Some(4);
    }
    if text::same(name, "throughput") {
        return Some(2);
    }
    if text::same(name, "reliability") {
        return Some(1);
    }
    if text::same(name, "mincost") {
        return Some(0);
    }
    let v = text::to_chars(name);
    if v.len() == 3 && v[0] == 'c' && v[1] == 's' {
        return match read_one_digit(v[2]) {
            Some(class) => if class <= 7 {
                Some(class * 8)
            } else {
                None
            },
            None => None,
        };
    }
    if v.len() == 4 && v[0] == 'a' && v[1] == 'f' {
        return match (read_one_digit(v[2]), read_one_digit(v[3])) {
            (Some(class), Some(drop)) => if 1 <= class && class <= 4 && 1 <= drop && drop <= 3 {
                Some(class * 8 + drop * 2)
            } else {
                None
            },
            _ => None,
        };
    }
    None
}

/// The code point that a text stands for.
fn read_dscp(raw: &str) -> (r: Option<Dscp>)
    ensures
        r == dscp_of(raw@),
{
    let value = match read_named_dscp(text::normalize_name(raw).as_str()) {
        Some(v) => Some(v),
        None => number::read_u8(text::trim(raw).as_str()),
    };
    match value {
        Some(v) => if v <= 63 {
            Some(Dscp { value: v })
        } else {
            None
        },
        None => None,
    }
}

/// Reads a code point.
pub fn parse_dscp(key: &str, raw: &str) -> (r: Result<Dscp, ConfigError>)
    ensures
        error::outcome(r) == dscp_setting(key@, raw@),
{
    match read_dscp(raw) {
        Some(d) => Ok(d),
        None => Err(
            error::invalid_option(
                key,
                raw,
                "DSCP 0..63, CS0..CS7, AF11..AF43, EF, or none",
                false,
            ),
        ),
    }
}

/// Reads a code point, or the type-of-service byte that holds one.
pub fn parse_tos_as_dscp(key: &str, raw: &str) -> (r: Result<Dscp, ConfigError>)
    ensures
        error::outcome(r) == tos_setting(key@, raw@),
{
    match read_dscp(raw) {
        Some(d) => return Ok(d),
        None => {},
    }
    match number::read_marked(text::trim(raw).as_str(), 255) {
        Some(v) => Ok(Dscp { value: (v as u8) >> 2u8 }),
        None => Err(
            error::invalid_option(key, raw, "TOS byte 0..255/0x00..0xff or a DSCP name", false),
        ),
    }
}

/// Reads a class-of-service priority.
pub fn parse_cos(key: &str, raw: &str) -> (r: Result<Cos, ConfigError>)
    ensures
        error::outcome(r) == cos_setting(key@, raw@),
{
    match number::read_u8(text::trim(raw).as_str()) {
        Some(v) => if v <= 7 {
            return Ok(Cos { value: v });
        },
        None => {},
    }
    Err(error::invalid_option(key, raw, "COS priority 0..7", false))
}

/// Every accepted marking fits its field: a code point is below sixty-four and
/// a priority below eight.
pub proof fn law_marking_is_bounded(key: text::Text, raw: text::Text)
    ensures
        dscp_setting(key, raw) matches Ok(d) ==> d.value <= 63,
        tos_setting(key, raw) matches Ok(d) ==> d.value <= 63,
        cos_setting(key, raw) matches Ok(c) ==> c.value <= 7,
{
    if dscp_of(raw) is None {
        if let Some(v) = number::marked(text::trimmed(raw), 255) {
            let b: u8 = v as u8;
            assert(b >> 2u8 <= 63) by (bit_vector);
        }
    }
}

/// Marking that a section sets; what it leaves out is inherited.
#[derive(Clone, Copy, Debug, PartialEq, Eq)]
pub struct QosPolicyPatch {
    pub signaling_dscp: Option<Dscp>,
    pub signaling_cos: Option<Cos>,
    pub audio_dscp: Option<Dscp>,
    pub audio_cos: Option<Cos>,
    pub video_dscp: Option<Dscp>,
    pub video_cos: Option<Cos>,
}

/// A value, or the inherited one.
pub open spec fn over<T>(patch: Option<T>, base: T) -> T {
    match patch {
        Some(v) => v,
        None => base,
    }
}

impl QosPolicyPatch {
    /// The marking that a section has.
    pub open spec fn resolved(self, base: QosPolicy) -> QosPolicy {
        QosPolicy {
            signaling: QosClass {
                dscp: over(self.signaling_dscp, base.signaling.dscp),
                cos: over(self.signaling_cos, base.signaling.cos),
            },
            audio: QosClass {
                dscp: over(self.audio_dscp, base.audio.dscp),
                cos: over(self.audio_cos, base.audio.cos),
            },
            video: QosClass {
                dscp: over(self.video_dscp, base.video.dscp),
                cos: over(self.video_cos, base.video.cos),
            },
        }
    }

    /// The marking that a section has.
    pub fn resolve(self, base: QosPolicy) -> (r: QosPolicy)
        ensures
            r == self.resolved(base),
    {
        QosPolicy {
            signaling: QosClass {
                dscp: self.signaling_dscp.unwrap_or(base.signaling.dscp),
                cos: self.signaling_cos.unwrap_or(base.signaling.cos),
            },
            audio: QosClass {
                dscp: self.audio_dscp.unwrap_or(base.audio.dscp),
                cos: self.audio_cos.unwrap_or(base.audio.cos),
            },
            video: QosClass {
                dscp: self.video_dscp.unwrap_or(base.video.dscp),
                cos: self.video_cos.unwrap_or(base.video.cos),
            },
        }
    }
}

// ---------------------------------------------------------------------------
// Signalling servers

/// A port of a signalling server, or a word for none.
pub open spec fn server_port(value: text::Text) -> Option<Option<u16>> {
    let name = text::name_of(value);
    if name == "none"@ || name == "off"@ || name == "disabled"@ {
        Some(None)
    } else {
        match number::u16_of(value) {
            Some(p) => if p != 0 {
                Some(Some(p))
            } else {
                None
            },
            None => None,
        }
    }
}

/// A signalling server: priority, name, address, clear port and secure port.
pub open spec fn server_of(raw: text::Text) -> Option<station::SignalingServerRouteView> {
    let f = text::fields_of(raw, ',');
    if f.len() != 5 {
        None
    } else {
        match (
            number::u8_of(f[0]),
            address::ip_of(f[2]),
            server_port(f[3]),
            server_port(f[4]),
        ) {
            (Some(priority), Some(a), Some(clear_port), Some(secure_port)) => if priority > 0
                && f[1].len() > 0 && text::byte_len(f[1]) < 48 && !text::any_control(f[1])
                && !a.unspecified() && !a.multicast() && !(clear_port is None
                && secure_port is None) {
                Some(
                    station::SignalingServerRouteView {
                        priority,
                        name: f[1],
                        address: a,
                        clear_port,
                        secure_port,
                    },
                )
            } else {
                None
            },
            _ => None,
        }
    }
}

/// A signalling server.
pub open spec fn server_setting(key: text::Text, raw: text::Text) -> Result<
    station::SignalingServerRouteView,
    error::ErrorView,
> {
    match server_of(raw) {
        Some(s) => Ok(s),
        None => Err(
            error::invalid(
                key,
                raw,
                "priority,name,address,clear-port-or-none,secure-port-or-none"@,
                false,
            ),
        ),
    }
}

/// Reads a port of a signalling server.
fn read_server_port(value: &str) -> (r: Option<Option<u16>>)
    ensures
        r == server_port(value@),
{
    let name = text::normalize_name(value);
    let n = name.as_str();
    if text::same(n, "none") || text::same(n, "off") || text::same(n, "disabled") {
        return Some(None);
    }
    match number::read_u16(value) {
        Some(p) => if p != 0 {
            Some(Some(p))
        } else {
            None
        },
        None => None,
    }
}

/// Reads a signalling server.
pub fn parse_signaling_server(key: &str, raw: &str) -> (r: Result<SignalingServerRoute, ConfigError>)
    ensures
        error::outcome(r) == server_setting(key@, raw@),
{
    let f = text::fields(raw, ',');
    let ghost all = f.deep_view();
    if f.len() == 5 {
        assert(all[0] == f@[0]@ && all[1] == f@[1]@ && all[2] == f@[2]@ && all[3] == f@[3]@
            && all[4] == f@[4]@);
        match (
            number::read_u8(f[0].as_str()),
            address::read_ip(f[2].as_str()),
            read_server_port(f[3].as_str()),
            read_server_port(f[4].as_str()),
        ) {
            (Some(priority), Some(a), Some(clear_port), Some(secure_port)) => {
                let name = f[1].as_str();
                if priority > 0 && !name.is_empty() && name.len() < 48 && !text::has_control(name)
                    && !a.is_unspecified() && !a.is_multicast() && !(clear_port.is_none()
                    && secure_port.is_none()) {
                    return Ok(
                        SignalingServerRoute {
                            priority,
                            name: text::copy(name),
                            address: a,
                            clear_port,
                            secure_port,
                        },
                    );
                }
            },
            _ => {},
        }
    }
    Err(
        error::invalid_option(
            key,
            raw,
            "priority,name,address,clear-port-or-none,secure-port-or-none",
            false,
        ),
    )
}

} // verus!
