//! Internet addresses, socket addresses and their text forms.

use vstd::prelude::*;

use crate::number;
use crate::text;

verus! {

/// An IPv4 address, its first octet in the highest bits.
#[derive(Clone, Copy, Debug, PartialEq, Eq, Structural)]
pub struct Ipv4Addr {
    pub bits: u32,
}

/// An IPv6 address, its first segment in the highest bits.
#[derive(Clone, Copy, Debug, PartialEq, Eq, Structural)]
pub struct Ipv6Addr {
    pub bits: u128,
}

#[derive(Clone, Copy, Debug, PartialEq, Eq, Structural)]
pub enum IpAddr {
    V4(Ipv4Addr),
    V6(Ipv6Addr),
}

/// An address with a port. The scope is zero but for a scoped IPv6 address.
#[derive(Clone, Copy, Debug, PartialEq, Eq, Structural)]
pub struct SocketAddr {
    pub ip: IpAddr,
    pub scope: u32,
    pub port: u16,
}

impl DeepView for Ipv4Addr {
    type V = Ipv4Addr;

    open spec fn deep_view(&self) -> Ipv4Addr {
        *self
    }
}

impl DeepView for Ipv6Addr {
    type V = Ipv6Addr;

    open spec fn deep_view(&self) -> Ipv6Addr {
        *self
    }
}

impl DeepView for IpAddr {
    type V = IpAddr;

    open spec fn deep_view(&self) -> IpAddr {
        *self
    }
}

impl DeepView for SocketAddr {
    type V = SocketAddr;

    open spec fn deep_view(&self) -> SocketAddr {
        *self
    }
}

/// The address `127.0.0.1`.
#[verifier::allow_in_spec]
pub fn localhost() -> Ipv4Addr
    returns
        (Ipv4Addr { bits: 0x7f00_0001 }),
{
    Ipv4Addr { bits: 0x7f00_0001 }
}

/// The address `0.0.0.0`.
#[verifier::allow_in_spec]
pub fn any_ipv4() -> IpAddr
    returns
        IpAddr::V4(Ipv4Addr { bits: 0 }),
{
    IpAddr::V4(Ipv4Addr { bits: 0 })
}

impl IpAddr {
    /// The address all of whose bits are zero.
    pub open spec fn unspecified(self) -> bool {
        match self {
            IpAddr::V4(a) => a.bits == 0,
            IpAddr::V6(a) => a.bits == 0,
        }
    }

    /// An address of the multicast range: `224.0.0.0/4` or `ff00::/8`.
    pub open spec fn multicast(self) -> bool {
        match self {
            IpAddr::V4(a) => a.bits >> 28u32 == 0xeu32,
            IpAddr::V6(a) => a.bits >> 120u128 == 0xffu128,
        }
    }

    /// Whether all bits of the address are zero.
    pub fn is_unspecified(&self) -> (r: bool)
        ensures
            r == self.unspecified(),
    {
        match self {
            IpAddr::V4(a) => a.bits == 0,
            IpAddr::V6(a) => a.bits == 0,
        }
    }

    /// Whether the address is a multicast address.
    pub fn is_multicast(&self) -> (r: bool)
        ensures
            r == self.multicast(),
    {
        match self {
            IpAddr::V4(a) => a.bits >> 28u32 == 0xeu32,
            IpAddr::V6(a) => a.bits >> 120u128 == 0xffu128,
        }
    }
}

// ---------------------------------------------------------------------------
// Reading

/// Digits alone, at least one, of a value of at most `max`.
pub open spec fn plain_number(s: text::Text, max: nat) -> Option<nat> {
    if s.len() == 0 {
        None
    } else {
        match number::digits_of(s, 10) {
            Some(v) => if v <= max {
                Some(v)
            } else {
                None
            },
            None => None,
        }
    }
}

/// One octet of a dotted address: one to three digits without a leading zero.
pub open spec fn octet_of(s: text::Text) -> Option<nat> {
    if s.len() > 3 || (s.len() > 1 && s[0] == '0') {
        None
    } else {
        plain_number(s, 255)
    }
}

/// The address of four octets.
pub open spec fn dotted(a: nat, b: nat, c: nat, d: nat) -> Ipv4Addr {
    Ipv4Addr { bits: (a * 0x100_0000 + b * 0x1_0000 + c * 0x100 + d) as u32 }
}

/// An IPv4 address in dotted decimal form.
pub open spec fn ipv4_of(s: text::Text) -> Option<Ipv4Addr> {
    let parts = text::pieces(s, '.');
    if parts.len() != 4 {
        None
    } else {
        match (octet_of(parts[0]), octet_of(parts[1]), octet_of(parts[2]), octet_of(parts[3])) {
            (Some(a), Some(b), Some(c), Some(d)) => Some(dotted(a, b, c, d)),
            _ => None,
        }
    }
}

/// One segment of an IPv6 address: one to four hexadecimal digits.
pub open spec fn segment_of(s: text::Text) -> Option<u16> {
    if s.len() == 0 || s.len() > 4 {
        None
    } else {
        match number::digits_of(s, 16) {
            Some(v) => if v <= u16::MAX {
                Some(v as u16)
            } else {
                None
            },
            None => None,
        }
    }
}

/// The two segments that an IPv4 address fills.
pub open spec fn embedded(a: Ipv4Addr) -> Seq<u16> {
    seq![(a.bits >> 16u32) as u16, (a.bits & 0xffffu32) as u16]
}

/// The segments of a list of pieces. The last piece may be an IPv4 address
/// where `dotted_end` says so.
pub open spec fn segments_of(parts: Seq<text::Text>, dotted_end: bool) -> Option<Seq<u16>>
    decreases parts.len(),
{
    if parts.len() == 0 {
        Some(Seq::empty())
    } else if parts.len() == 1 && dotted_end && ipv4_of(parts[0]) is Some {
        Some(embedded(ipv4_of(parts[0])->0))
    } else {
        match (segment_of(parts[0]), segments_of(parts.skip(1), dotted_end)) {
            (Some(g), Some(rest)) => Some(seq![g] + rest),
            _ => None,
        }
    }
}

/// The segments on one side of a double colon.
pub open spec fn side_of(s: text::Text, dotted_end: bool) -> Option<Seq<u16>> {
    if s.len() == 0 {
        Some(Seq::empty())
    } else {
        segments_of(text::pieces(s, ':'), dotted_end)
    }
}

/// The index of the first double colon, or the length where there is none.
pub open spec fn gap(s: text::Text) -> nat
    decreases s.len(),
{
    if s.len() < 2 {
        s.len()
    } else if s[0] == ':' && s[1] == ':' {
        0
    } else {
        1 + gap(s.skip(1))
    }
}

/// The address of eight segments.
pub open spec fn from_segments(g: Seq<u16>) -> u128
    decreases g.len(),
{
    if g.len() == 0 {
        0
    } else {
        (from_segments(g.drop_last()) << 16u128) | (g.last() as u128)
    }
}

/// `n` segments of zero.
pub open spec fn zeros(n: nat) -> Seq<u16> {
    Seq::new(n, |i: int| 0u16)
}

/// An IPv6 address: eight segments, or fewer around one double colon that
/// stands for one or more segments of zero.
pub open spec fn ipv6_of(s: text::Text) -> Option<Ipv6Addr> {
    let g = gap(s);
    if g + 1 < s.len() {
        match (side_of(s.take(g as int), false), side_of(s.skip(g as int + 2), true)) {
            (Some(a), Some(b)) => if a.len() + b.len() <= 7 {
                Some(Ipv6Addr { bits: from_segments(a + zeros((8 - a.len() - b.len()) as nat) + b) })
            } else {
                None
            },
            _ => None,
        }
    } else {
        match segments_of(text::pieces(s, ':'), true) {
            Some(a) => if a.len() == 8 {
                Some(Ipv6Addr { bits: from_segments(a) })
            } else {
                None
            },
            None => None,
        }
    }
}

/// An IPv4 or IPv6 address.
pub open spec fn ip_of(s: text::Text) -> Option<IpAddr> {
    match ipv4_of(s) {
        Some(a) => Some(IpAddr::V4(a)),
        None => match ipv6_of(s) {
            Some(a) => Some(IpAddr::V6(a)),
            None => None,
        },
    }
}

/// An IPv4 address and a port behind a colon.
pub open spec fn socket4_of(s: text::Text) -> Option<SocketAddr> {
    match text::cut_last(s, ':') {
        Some((a, p)) => match (ipv4_of(a), plain_number(p, 0xffff)) {
            (Some(a), Some(p)) => Some(SocketAddr { ip: IpAddr::V4(a), scope: 0, port: p as u16 }),
            _ => None,
        },
        None => None,
    }
}

/// An IPv6 address with an optional scope behind a percent sign.
pub open spec fn scoped_of(s: text::Text) -> Option<(Ipv6Addr, u32)> {
    match text::cut(s, '%') {
        Some((a, scope)) => match (ipv6_of(a), plain_number(scope, 0xffff_ffff)) {
            (Some(a), Some(n)) => Some((a, n as u32)),
            _ => None,
        },
        None => match ipv6_of(s) {
            Some(a) => Some((a, 0u32)),
            None => None,
        },
    }
}

/// An IPv6 address in square brackets and a port behind a colon.
pub open spec fn socket6_of(s: text::Text) -> Option<SocketAddr> {
    if s.len() == 0 || s[0] != '[' {
        None
    } else {
        match text::cut(s.skip(1), ']') {
            Some((inside, rest)) => if rest.len() == 0 || rest[0] != ':' {
                None
            } else {
                match (scoped_of(inside), plain_number(rest.skip(1), 0xffff)) {
                    (Some((a, scope)), Some(p)) => Some(
                        SocketAddr { ip: IpAddr::V6(a), scope, port: p as u16 },
                    ),
                    _ => None,
                }
            },
            None => None,
        }
    }
}

/// An address with a port: `a.b.c.d:port` or `[address]:port`.
pub open spec fn socket_of(s: text::Text) -> Option<SocketAddr> {
    match socket4_of(s) {
        Some(a) => Some(a),
        None => socket6_of(s),
    }
}

/// Reads digits alone.
fn read_plain(s: &str, max: u32) -> (r: Option<u32>)
    ensures
        r == (match plain_number(s@, max as nat) {
            Some(n) => Some(n as u32),
            None => None,
        }),
{
    let v = text::to_chars(s);
    if v.len() == 0 || v[0] == '+' {
        proof {
            if v@.len() > 0 {
                lemma_sign_spoils(s@);
            }
        }
        return None;
    }
    proof {
        assert(number::unsigned(s@, 10) == number::digits_of(s@, 10));
    }
    match number::read_u64(s) {
        Some(n) => if n <= max as u64 {
            Some(n as u32)
        } else {
            None
        },
        None => None,
    }
}

/// A text that begins with a plus sign is no sequence of digits.
proof fn lemma_sign_spoils(s: text::Text)
    requires
        s.len() > 0,
        s[0] == '+',
    ensures
        number::digits_of(s, 10) is None,
    decreases s.len(),
{
    if s.len() > 1 {
        lemma_sign_spoils(s.drop_last());
    } else {
        assert(s.last() == '+');
    }
}

/// Reads one octet.
fn read_octet(s: &str) -> (r: Option<u32>)
    ensures
        r == (match octet_of(s@) {
            Some(n) => Some(n as u32),
            None => None,
        }),
        r is Some ==> r->0 <= 255,
{
    let v = text::to_chars(s);
    if v.len() > 3 || (v.len() > 1 && v[0] == '0') {
        return None;
    }
    read_plain(s, 255)
}

/// Reads an IPv4 address.
pub fn read_ipv4(s: &str) -> (r: Option<Ipv4Addr>)
    ensures
        r == ipv4_of(s@),
{
    let parts = text::split(s, '.');
    proof {
        assert(parts.deep_view().len() == parts@.len());
        assert(forall|i: int| 0 <= i < parts@.len() ==> parts.deep_view()[i] == #[trigger] parts@[i]@);
    }
    if parts.len() != 4 {
        return None;
    }
    match (
        read_octet(parts[0].as_str()),
        read_octet(parts[1].as_str()),
        read_octet(parts[2].as_str()),
        read_octet(parts[3].as_str()),
    ) {
        (Some(a), Some(b), Some(c), Some(d)) => Some(
            Ipv4Addr { bits: a * 0x100_0000 + b * 0x1_0000 + c * 0x100 + d },
        ),
        _ => None,
    }
}

/// Reads one segment.
fn read_segment(s: &str) -> (r: Option<u16>)
    ensures
        r == segment_of(s@),
{
    let v = text::to_chars(s);
    if v.len() == 0 || v.len() > 4 {
        return None;
    }
    let mut total: u32 = 0;
    let mut i: usize = 0;
    assert(s@.take(0) =~= Seq::empty());
    while i < v.len()
        invariant
            v@ == s@,
            i <= v.len() <= 4,
            number::digits_of(s@.take(i as int), 16) == Some(total as nat),
            i == 0 ==> total == 0,
            i == 1 ==> total < 0x10,
            i == 2 ==> total < 0x100,
            i == 3 ==> total < 0x1000,
            i == 4 ==> total < 0x1_0000,
        decreases v.len() - i,
    {
        assert(s@.take(i + 1).drop_last() =~= s@.take(i as int));
        match hex_digit(v[i]) {
            Some(d) => {
                total = total * 16 + d;
            },
            None => {
                proof {
                    lemma_bad_digit(s@, i as int);
                }
                return None;
            },
        }
        i += 1;
    }
    assert(s@.take(i as int) =~= s@);
    Some(total as u16)
}

/// The value of a hexadecimal digit.
fn hex_digit(c: char) -> (r: Option<u32>)
    ensures
        r == (match number::digit_of(c, 16) {
            Some(d) => Some(d as u32),
            None => None,
        }),
        r is Some ==> r->0 < 16,
{
    let n: u32 = c as u32;
    if '0' <= c && c <= '9' {
        Some(n - 48)
    } else if 'a' <= c && c <= 'f' {
        Some(n - 87)
    } else if 'A' <= c && c <= 'F' {
        Some(n - 55)
    } else {
        None
    }
}

/// A character that is no digit spoils the number.
proof fn lemma_bad_digit(s: text::Text, i: int)
    requires
        0 <= i < s.len(),
        number::digit_of(s[i], 16) is None,
    ensures
        number::digits_of(s, 16) is None,
    decreases s.len(),
{
    if i < s.len() - 1 {
        lemma_bad_digit(s.drop_last(), i);
    }
}

/// Reads the segments of the pieces from index `from` on.
fn read_segments(parts: &Vec<String>, dotted_end: bool) -> (r: Option<Vec<u16>>)
    ensures
        match segments_of(parts.deep_view(), dotted_end) {
            Some(g) => r is Some && r->0@ == g,
            None => r is None,
        },
{
    let mut g: Vec<u16> = Vec::new();
    let mut i: usize = 0;
    let ghost all = parts.deep_view();
    assert(all.skip(0) =~= all);
    proof {
        if segments_of(all, dotted_end) is Some {
            assert(g@ + segments_of(all, dotted_end)->0 =~= segments_of(all, dotted_end)->0);
        }
    }
    while i < parts.len()
        invariant
            all == parts.deep_view(),
            i <= parts@.len(),
            segments_of(all, dotted_end) == (match segments_of(all.skip(i as int), dotted_end) {
                Some(rest) => Some(g@ + rest),
                None => None,
            }),
        decreases parts.len() - i,
    {
        let ghost rest = all.skip(i as int);
        assert(rest[0] == parts@[i as int]@);
        assert(rest.skip(1) =~= all.skip(i + 1));
        if i + 1 == parts.len() && dotted_end {
            match read_ipv4(parts[i].as_str()) {
                Some(a) => {
                    let ghost before = g@;
                    g.push((a.bits >> 16u32) as u16);
                    g.push((a.bits & 0xffffu32) as u16);
                    assert(g@ =~= before + embedded(a));
                    return Some(g);
                },
                None => {},
            }
        }
        match read_segment(parts[i].as_str()) {
            Some(n) => {
                let ghost before = g@;
                g.push(n);
                assert forall|t: Seq<u16>| before + (seq![n] + t) == #[trigger] (g@ + t) by {
                    assert(before + (seq![n] + t) =~= g@ + t);
                }
            },
            None => {
                return None;
            },
        }
        i += 1;
    }
    assert(g@ + Seq::<u16>::empty() =~= g@);
    assert(all.skip(i as int) =~= Seq::empty());
    Some(g)
}

/// Reads the segments on one side of a double colon.
fn read_side(s: &str, dotted_end: bool) -> (r: Option<Vec<u16>>)
    ensures
        match side_of(s@, dotted_end) {
            Some(g) => r is Some && r->0@ == g,
            None => r is None,
        },
{
    if s.is_empty() {
        let g: Vec<u16> = Vec::new();
        assert(g@ =~= Seq::empty());
        return Some(g);
    }
    let parts = text::split(s, ':');
    read_segments(&parts, dotted_end)
}

/// Finds the first double colon.
fn find_gap(v: &Vec<char>) -> (g: usize)
    ensures
        g == gap(v@),
{
    let mut i: usize = 0;
    assert(v@.skip(0) =~= v@);
    while v.len() - i >= 2 && !(v[i] == ':' && v[i + 1] == ':')
        invariant
            i <= v.len(),
            gap(v@) == i + gap(v@.skip(i as int)),
        decreases v.len() - i,
    {
        assert(v@.skip(i as int).skip(1) =~= v@.skip(i + 1));
        i += 1;
    }
    if v.len() - i >= 2 {
        i
    } else {
        v.len()
    }
}

/// Joins segments into an address.
fn join_segments(g: &Vec<u16>) -> (r: u128)
    ensures
        r == from_segments(g@),
{
    let mut total: u128 = 0;
    let mut i: usize = 0;
    assert(g@.take(0) =~= Seq::empty());
    while i < g.len()
        invariant
            i <= g@.len(),
            total == from_segments(g@.take(i as int)),
        decreases g.len() - i,
    {
        assert(g@.take(i + 1).drop_last() =~= g@.take(i as int));
        total = (total << 16u128) | (g[i] as u128);
        i += 1;
    }
    assert(g@.take(i as int) =~= g@);
    total
}

/// Reads an IPv6 address.
pub fn read_ipv6(s: &str) -> (r: Option<Ipv6Addr>)
    ensures
        r == ipv6_of(s@),
{
    let v = text::to_chars(s);
    let g = find_gap(&v);
    if g < v.len() && v.len() - g >= 2 {
        let head = text::from_chars(&v, 0, g);
        let tail = text::from_chars(&v, g + 2, v.len());
        assert(head@ =~= s@.take(g as int));
        assert(tail@ =~= s@.skip(g as int + 2));
        match (read_side(head.as_str(), false), read_side(tail.as_str(), true)) {
            (Some(a), Some(b)) => {
                if a.len() > 7 || b.len() > 7 || a.len() + b.len() > 7 {
                    return None;
                }
                let n: usize = 8 - a.len() - b.len();
                let ghost head = a@;
                let mut all = a;
                let mut i: usize = 0;
                while i < n
                    invariant
                        i <= n,
                        all@ == head + zeros(i as nat),
                    decreases n - i,
                {
                    all.push(0);
                    i += 1;
                    assert(all@ =~= head + zeros(i as nat));
                }
                let mut j: usize = 0;
                while j < b.len()
                    invariant
                        j <= b@.len(),
                        all@ == head + zeros(n as nat) + b@.take(j as int),
                    decreases b.len() - j,
                {
                    all.push(b[j]);
                    j += 1;
                    assert(all@ =~= head + zeros(n as nat) + b@.take(j as int));
                }
                assert(b@.take(j as int) =~= b@);
                Some(Ipv6Addr { bits: join_segments(&all) })
            },
            _ => None,
        }
    } else {
        let parts = text::split(s, ':');
        match read_segments(&parts, true) {
            Some(a) => if a.len() == 8 {
                Some(Ipv6Addr { bits: join_segments(&a) })
            } else {
                None
            },
            None => None,
        }
    }
}

/// Reads an IPv4 or IPv6 address.
pub fn read_ip(s: &str) -> (r: Option<IpAddr>)
    ensures
        r == ip_of(s@),
{
    match read_ipv4(s) {
        Some(a) => Some(IpAddr::V4(a)),
        None => match read_ipv6(s) {
            Some(a) => Some(IpAddr::V6(a)),
            None => None,
        },
    }
}

/// Reads an IPv4 address with a port.
fn read_socket4(s: &str) -> (r: Option<SocketAddr>)
    ensures
        r == socket4_of(s@),
{
    match text::rsplit_once(s, ':') {
        Some((a, p)) => match (read_ipv4(a.as_str()), read_plain(p.as_str(), 0xffff)) {
            (Some(a), Some(p)) => Some(SocketAddr { ip: IpAddr::V4(a), scope: 0, port: p as u16 }),
            _ => None,
        },
        None => None,
    }
}

/// Reads an IPv6 address with an optional scope.
fn read_scoped(s: &str) -> (r: Option<(Ipv6Addr, u32)>)
    ensures
        r == scoped_of(s@),
{
    match text::split_once(s, '%') {
        Some((a, scope)) => match (read_ipv6(a.as_str()), read_plain(scope.as_str(), 0xffff_ffff)) {
            (Some(a), Some(n)) => Some((a, n)),
            _ => None,
        },
        None => match read_ipv6(s) {
            Some(a) => Some((a, 0)),
            None => None,
        },
    }
}

/// Reads an IPv6 address in square brackets with a port.
fn read_socket6(s: &str) -> (r: Option<SocketAddr>)
    ensures
        r == socket6_of(s@),
{
    let v = text::to_chars(s);
    if v.len() == 0 || v[0] != '[' {
        return None;
    }
    let body = text::from_chars(&v, 1, v.len());
    assert(body@ =~= s@.skip(1));
    match text::split_once(body.as_str(), ']') {
        Some((inside, rest)) => {
            let w = text::to_chars(rest.as_str());
            if w.len() == 0 || w[0] != ':' {
                return None;
            }
            let port = text::from_chars(&w, 1, w.len());
            assert(port@ =~= rest@.skip(1));
            match (read_scoped(inside.as_str()), read_plain(port.as_str(), 0xffff)) {
                (Some((a, scope)), Some(p)) => Some(
                    SocketAddr { ip: IpAddr::V6(a), scope, port: p as u16 },
                ),
                _ => None,
            }
        },
        None => None,
    }
}

/// Reads an address with a port.
pub fn read_socket(s: &str) -> (r: Option<SocketAddr>)
    ensures
        r == socket_of(s@),
{
    match read_socket4(s) {
        Some(a) => Some(a),
        None => read_socket6(s),
    }
}

// ---------------------------------------------------------------------------
// Writing

/// Segment `i` of an address, counted from the first.
pub open spec fn segment_at(bits: u128, i: int) -> u16 {
    ((bits >> ((112 - 16 * i) as u128)) & 0xffffu128) as u16
}

/// The segments of an address.
pub open spec fn segments(bits: u128) -> Seq<u16> {
    Seq::new(8, |i: int| segment_at(bits, i))
}

/// A dotted address.
pub open spec fn ipv4_text(a: Ipv4Addr) -> text::Text {
    number::decimal((a.bits >> 24u32) as nat) + "."@ + number::decimal(
        ((a.bits >> 16u32) & 0xffu32) as nat,
    ) + "."@ + number::decimal(((a.bits >> 8u32) & 0xffu32) as nat) + "."@ + number::decimal(
        (a.bits & 0xffu32) as nat,
    )
}

/// A run of segments of zero: where it starts and how long it is.
pub struct Run {
    pub start: nat,
    pub len: nat,
}

/// The longest run of zeros among the segments, the first of the longest, and
/// the run that ends at the last segment.
pub open spec fn zero_runs(g: Seq<u16>) -> (Run, Run)
    decreases g.len(),
{
    if g.len() == 0 {
        (Run { start: 0, len: 0 }, Run { start: 0, len: 0 })
    } else {
        let (longest, current) = zero_runs(g.drop_last());
        if g.last() != 0 {
            (longest, Run { start: 0, len: 0 })
        } else {
            let next = Run {
                start: if current.len == 0 {
                    (g.len() - 1) as nat
                } else {
                    current.start
                },
                len: current.len + 1,
            };
            (if next.len > longest.len {
                next
            } else {
                longest
            }, next)
        }
    }
}

/// Segments in hexadecimal with colons between them.
pub open spec fn colon_text(g: Seq<u16>) -> text::Text
    decreases g.len(),
{
    if g.len() == 0 {
        Seq::empty()
    } else if g.len() == 1 {
        number::written(g[0] as nat, 16)
    } else {
        colon_text(g.drop_last()) + ":"@ + number::written(g.last() as nat, 16)
    }
}

/// An IPv6 address: the first longest run of two or more zeros is written as a
/// double colon, and an IPv4-mapped address ends in dotted form.
pub open spec fn ipv6_text(a: Ipv6Addr) -> text::Text {
    let g = segments(a.bits);
    let run = zero_runs(g).0;
    if a.bits >> 32u128 == 0xffffu128 {
        "::ffff:"@ + ipv4_text(Ipv4Addr { bits: (a.bits & 0xffff_ffffu128) as u32 })
    } else if run.len > 1 {
        colon_text(g.take(run.start as int)) + "::"@ + colon_text(g.skip((run.start + run.len) as int))
    } else {
        colon_text(g)
    }
}

/// An address with a port.
pub open spec fn socket_text(a: SocketAddr) -> text::Text {
    match a.ip {
        IpAddr::V4(ip) => ipv4_text(ip) + ":"@ + number::decimal(a.port as nat),
        IpAddr::V6(ip) => if a.scope == 0 {
            "["@ + ipv6_text(ip) + "]:"@ + number::decimal(a.port as nat)
        } else {
            "["@ + ipv6_text(ip) + "%"@ + number::decimal(a.scope as nat) + "]:"@ + number::decimal(
                a.port as nat,
            )
        },
    }
}

/// Writes a dotted address.
pub fn ipv4_to_string(a: Ipv4Addr) -> (r: String)
    ensures
        r@ == ipv4_text(a),
{
    let mut r = number::to_decimal((a.bits >> 24u32) as u64);
    r.append(".");
    r.append(number::to_decimal(((a.bits >> 16u32) & 0xffu32) as u64).as_str());
    r.append(".");
    r.append(number::to_decimal(((a.bits >> 8u32) & 0xffu32) as u64).as_str());
    r.append(".");
    r.append(number::to_decimal((a.bits & 0xffu32) as u64).as_str());
    r
}

/// Writes the segments `from..to` with colons between them.
fn write_segments(g: &Vec<u16>, from: usize, to: usize) -> (r: String)
    requires
        from <= to <= g@.len(),
    ensures
        r@ == colon_text(g@.subrange(from as int, to as int)),
{
    let mut r = String::new();
    let mut i: usize = from;
    while i < to
        invariant
            from <= i <= to <= g@.len(),
            r@ == colon_text(g@.subrange(from as int, i as int)),
        decreases to - i,
    {
        let ghost next = g@.subrange(from as int, i + 1);
        assert(next.drop_last() =~= g@.subrange(from as int, i as int));
        assert(next.last() == g@[i as int]);
        if i > from {
            r.append(":");
        }
        let ghost before = r@;
        let h = number::to_hex(g[i]);
        r.append(h.as_str());
        if i == from {
            assert(r@ =~= h@);
        }
        i += 1;
    }
    r
}

/// The segments of an address.
fn split_segments(bits: u128) -> (g: Vec<u16>)
    ensures
        g@ == segments(bits),
{
    let mut g: Vec<u16> = Vec::new();
    let mut i: usize = 0;
    while i < 8
        invariant
            i <= 8,
            g@ == segments(bits).take(i as int),
        decreases 8 - i,
    {
        let shift: u128 = 112 - 16 * (i as u128);
        g.push(((bits >> shift) & 0xffffu128) as u16);
        i += 1;
        assert(g@ =~= segments(bits).take(i as int));
    }
    assert(segments(bits).take(8) =~= segments(bits));
    g
}

/// Writes an IPv6 address.
pub fn ipv6_to_string(a: Ipv6Addr) -> (r: String)
    ensures
        r@ == ipv6_text(a),
{
    if a.bits >> 32u128 == 0xffffu128 {
        let mut r = text::copy("::ffff:");
        r.append(ipv4_to_string(Ipv4Addr { bits: (a.bits & 0xffff_ffffu128) as u32 }).as_str());
        return r;
    }
    let g = split_segments(a.bits);
    let mut longest_start: usize = 0;
    let mut longest: usize = 0;
    let mut current_start: usize = 0;
    let mut current: usize = 0;
    let mut i: usize = 0;
    assert(g@.take(0) =~= Seq::empty());
    while i < g.len()
        invariant
            i <= g@.len(),
            g@.len() == 8,
            zero_runs(g@.take(i as int)) == (
                Run { start: longest_start as nat, len: longest as nat },
                Run { start: current_start as nat, len: current as nat },
            ),
            longest_start + longest <= i,
            current > 0 ==> current_start + current == i,
            current <= i,
        decreases g.len() - i,
    {
        assert(g@.take(i + 1).drop_last() =~= g@.take(i as int));
        if g[i] == 0 {
            if current == 0 {
                current_start = i;
            }
            current += 1;
            if current > longest {
                longest = current;
                longest_start = current_start;
            }
        } else {
            current = 0;
            current_start = 0;
        }
        i += 1;
    }
    assert(g@.take(i as int) =~= g@);
    if longest > 1 {
        let mut r = write_segments(&g, 0, longest_start);
        r.append("::");
        r.append(write_segments(&g, longest_start + longest, g.len()).as_str());
        assert(g@.subrange(0, longest_start as int) =~= g@.take(longest_start as int));
        assert(g@.subrange(longest_start + longest, g@.len() as int) =~= g@.skip(
            longest_start + longest,
        ));
        r
    } else {
        assert(g@.subrange(0, g@.len() as int) =~= g@);
        write_segments(&g, 0, g.len())
    }
}

/// Writes an address with a port.
pub fn socket_to_string(a: SocketAddr) -> (r: String)
    ensures
        r@ == socket_text(a),
{
    let port = number::to_decimal(a.port as u64);
    match a.ip {
        IpAddr::V4(ip) => {
            let mut r = ipv4_to_string(ip);
            r.append(":");
            r.append(port.as_str());
            r
        },
        IpAddr::V6(ip) => {
            let mut r = text::copy("[");
            r.append(ipv6_to_string(ip).as_str());
            if a.scope != 0 {
                r.append("%");
                r.append(number::to_decimal(a.scope as u64).as_str());
            }
            r.append("]:");
            r.append(port.as_str());
            r
        },
    }
}

} // verus!
