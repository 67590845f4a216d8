//! Internet socket addresses: an IP address and a port.
//!
//! The texts that are read:
//!
//! ```text
//! socket = ipv4 ":" port
//!        | "[" ipv6 "]:" port
//!        | "[" ipv6 "%" scope "]:" port
//! ipv4   = octet "." octet "." octet "." octet
//! ipv6   = eight segments with ":" between them
//!        | segments "::" segments       fewer than eight in all
//! ```
//!
//! An octet is a decimal number up to 255 without a leading zero. A segment
//! is one to four hexadecimal digits in either case. The last two segments
//! of an IPv6 address may be written as an IPv4 address, but not before a
//! `::`. Port and scope are decimal numbers, up to 65535 and up to
//! 4294967295, and may begin with zeros. Nothing may stand before or behind
//! the address.
//!
//! One of these texts is written for each address, in lower case: see
//! [`inet_text`].

use vstd::prelude::*;
use crate::text::chars_of;
use crate::text::is_char;
use crate::text::number_at;
use crate::text::number_text;
use crate::text::push_char;
use crate::text::push_number;
use crate::text::read_number;
use crate::text::Form;

verus! {

/// An IPv4 address, as its four octets in network order.
#[derive(Clone, Copy, Debug, PartialEq, Eq, Hash, Structural)]
pub struct Ipv4 {
    pub a: u8,
    pub b: u8,
    pub c: u8,
    pub d: u8,
}

/// An IPv6 address, as its eight 16-bit segments in network order.
#[derive(Clone, Copy, Debug, PartialEq, Eq, Hash, Structural)]
pub struct Ipv6 {
    pub a: u16,
    pub b: u16,
    pub c: u16,
    pub d: u16,
    pub e: u16,
    pub f: u16,
    pub g: u16,
    pub h: u16,
}

/// An internet socket address.
#[derive(Clone, Copy, Debug, PartialEq, Eq, Hash, Structural)]
#[allow(inconsistent_fields)]
pub enum InetAddr {
    V4 { ip: Ipv4, port: u16 },
    V6 { ip: Ipv6, port: u16, flowinfo: u32, scope_id: u32 },
}

/// How an octet of an IPv4 address is spelled: decimal, at most three
/// digits, no leading zero, at most 255.
pub open spec fn octet_form() -> Form {
    Form { hex: false, limit: Some(3usize), zero_prefix: false, max: 255 }
}

/// How a segment of an IPv6 address is spelled: one to four hexadecimal
/// digits.
pub open spec fn group_form() -> Form {
    Form { hex: true, limit: Some(4usize), zero_prefix: true, max: 0xffff }
}

/// How a port is spelled: decimal, at most 65535.
pub open spec fn port_form() -> Form {
    Form { hex: false, limit: None, zero_prefix: true, max: 0xffff }
}

/// How a scope identifier is spelled: decimal, at most `u32::MAX`.
pub open spec fn scope_form() -> Form {
    Form { hex: false, limit: None, zero_prefix: true, max: 0xffff_ffff }
}

/// The number that stands behind the character `lead` at `pos`.
pub open spec fn led_number_at(s: Seq<char>, pos: int, lead: char, form: Form) -> Option<
    (int, int),
> {
    if is_char(s, pos, lead) {
        number_at(s, pos + 1, form)
    } else {
        None
    }
}

impl Ipv4 {
    /// The first two octets as one 16-bit segment.
    pub open spec fn high(self) -> u16 {
        (self.a * 256 + self.b) as u16
    }

    /// The last two octets as one 16-bit segment.
    pub open spec fn low(self) -> u16 {
        (self.c * 256 + self.d) as u16
    }

    /// The address whose octets are the halves of the two segments.
    pub open spec fn of_segments(high: u16, low: u16) -> Ipv4 {
        Ipv4 {
            a: (high / 256) as u8,
            b: (high % 256) as u8,
            c: (low / 256) as u8,
            d: (low % 256) as u8,
        }
    }
}

impl Ipv6 {
    /// The eight segments, in order.
    pub open spec fn spec_segments(self) -> Seq<u16> {
        seq![self.a, self.b, self.c, self.d, self.e, self.f, self.g, self.h]
    }

    /// The address with the given eight segments.
    pub open spec fn of(g: Seq<u16>) -> Ipv6 {
        Ipv6 { a: g[0], b: g[1], c: g[2], d: g[3], e: g[4], f: g[5], g: g[6], h: g[7] }
    }
}

/// The IPv4 address that stands in `s` at `pos`, with the place behind it:
/// four octets with a dot between them.
pub open spec fn ipv4_at(s: Seq<char>, pos: int) -> Option<(Ipv4, int)> {
    match number_at(s, pos, octet_form()) {
        None => None,
        Some((a, pa)) => match led_number_at(s, pa, '.', octet_form()) {
            None => None,
            Some((b, pb)) => match led_number_at(s, pb, '.', octet_form()) {
                None => None,
                Some((c, pc)) => match led_number_at(s, pc, '.', octet_form()) {
                    None => None,
                    Some((d, pd)) => Some(
                        (Ipv4 { a: a as u8, b: b as u8, c: c as u8, d: d as u8 }, pd),
                    ),
                },
            },
        },
    }
}

/// A run of segments read from a text.
pub struct Run {
    /// The segments, in order.
    pub groups: Seq<u16>,
    /// The place behind the last of them.
    pub next: int,
    /// Whether the last two were spelled as an IPv4 address.
    pub dotted: bool,
}

/// Where a segment begins that is read at `pos` after `count` others: the
/// first at `pos` itself, each other one behind a colon.
pub open spec fn group_start(s: Seq<char>, pos: int, count: nat) -> Option<int> {
    if count == 0 {
        Some(pos)
    } else if is_char(s, pos, ':') {
        Some(pos + 1)
    } else {
        None
    }
}

/// The run of at most `limit` segments that stands in `s` at `pos`, behind
/// the segments `acc` that were read already. Segments are separated by
/// colons. Where at least two more segments may follow and an IPv4 address
/// stands there, it gives the last two segments and ends the run. The run
/// ends before the first place where no segment can be read.
pub open spec fn groups_at(s: Seq<char>, pos: int, limit: nat, acc: Seq<u16>) -> Run
    decreases limit - acc.len(),
{
    let start = group_start(s, pos, acc.len());
    if acc.len() >= limit || start is None {
        Run { groups: acc, next: pos, dotted: false }
    } else if acc.len() + 1 < limit && ipv4_at(s, start->0) is Some {
        let (ip, next) = ipv4_at(s, start->0)->0;
        Run { groups: acc.push(ip.high()).push(ip.low()), next, dotted: true }
    } else {
        match number_at(s, start->0, group_form()) {
            Some((g, next)) => groups_at(s, next, limit, acc.push(g as u16)),
            None => Run { groups: acc, next: pos, dotted: false },
        }
    }
}

/// `n` segments that are zero.
pub open spec fn zeros(n: int) -> Seq<u16> {
    Seq::new(n as nat, |i: int| 0u16)
}

/// The IPv6 address that stands in `s` at `pos`, as its eight segments, with
/// the place behind it: either eight segments, or fewer with one `::` that
/// stands for the segments left out, which are zero. No IPv4 address may
/// stand before the `::`.
pub open spec fn ipv6_at(s: Seq<char>, pos: int) -> Option<(Seq<u16>, int)> {
    let head = groups_at(s, pos, 8, Seq::empty());
    if head.groups.len() == 8 {
        Some((head.groups, head.next))
    } else if head.dotted || !is_char(s, head.next, ':') || !is_char(s, head.next + 1, ':') {
        None
    } else {
        let tail = groups_at(s, head.next + 2, (7 - head.groups.len()) as nat, Seq::empty());
        Some(
            (
                head.groups + zeros(8 - head.groups.len() - tail.groups.len()) + tail.groups,
                tail.next,
            ),
        )
    }
}

/// The scope identifier that stands in `s` at `pos` behind a `%`, with the
/// place behind it. Where none stands there, the scope is 0 and nothing is
/// read.
pub open spec fn scope_at(s: Seq<char>, pos: int) -> (int, int) {
    match led_number_at(s, pos, '%', scope_form()) {
        Some(r) => r,
        None => (0, pos),
    }
}

/// The IPv4 socket address that stands in `s` at `pos`: an address, a
/// colon and a port.
pub open spec fn v4_socket_at(s: Seq<char>, pos: int) -> Option<(InetAddr, int)> {
    match ipv4_at(s, pos) {
        None => None,
        Some((ip, p)) => match led_number_at(s, p, ':', port_form()) {
            None => None,
            Some((port, next)) => Some((InetAddr::V4 { ip, port: port as u16 }, next)),
        },
    }
}

/// The IPv6 socket address that stands in `s` at `pos`: in square brackets
/// an address and, if there is one, a scope identifier; then a colon and a
/// port. The flow information is 0.
pub open spec fn v6_socket_at(s: Seq<char>, pos: int) -> Option<(InetAddr, int)> {
    if !is_char(s, pos, '[') {
        None
    } else {
        match ipv6_at(s, pos + 1) {
            None => None,
            Some((g, p)) => {
                let (scope, q) = scope_at(s, p);
                if !is_char(s, q, ']') {
                    None
                } else {
                    match led_number_at(s, q + 1, ':', port_form()) {
                        None => None,
                        Some((port, next)) => Some(
                            (
                                InetAddr::V6 {
                                    ip: Ipv6::of(g),
                                    port: port as u16,
                                    flowinfo: 0,
                                    scope_id: scope as u32,
                                },
                                next,
                            ),
                        ),
                    }
                }
            },
        }
    }
}

/// The internet socket address that the whole of `s` spells, if it spells
/// one.
pub open spec fn parse_inet(s: Seq<char>) -> Option<InetAddr> {
    let found = if v4_socket_at(s, 0) is Some {
        v4_socket_at(s, 0)
    } else {
        v6_socket_at(s, 0)
    };
    match found {
        Some((addr, next)) => if next == s.len() {
            Some(addr)
        } else {
            None
        },
        None => None,
    }
}

fn octet() -> (f: Form)
    ensures
        f == octet_form(),
{
    Form { hex: false, limit: Some(3), zero_prefix: false, max: 255 }
}

fn group() -> (f: Form)
    ensures
        f == group_form(),
{
    Form { hex: true, limit: Some(4), zero_prefix: true, max: 0xffff }
}

fn port() -> (f: Form)
    ensures
        f == port_form(),
{
    Form { hex: false, limit: None, zero_prefix: true, max: 0xffff }
}

fn scope() -> (f: Form)
    ensures
        f == scope_form(),
{
    Form { hex: false, limit: None, zero_prefix: true, max: 0xffff_ffff }
}

fn has_char(text: &Vec<char>, pos: usize, c: char) -> (r: bool)
    requires
    ensures
        r == is_char(text@, pos as int, c),
        r ==> pos < text@.len() <= usize::MAX,
{
    pos < text.len() && text[pos] == c
}

fn read_led_number(text: &Vec<char>, pos: usize, lead: char, form: &Form) -> (r: Option<
    (u32, usize),
>)
    requires
        pos <= text@.len(),
    ensures
        match r {
            Some((v, next)) => led_number_at(text@, pos as int, lead, *form) == Some(
                (v as int, next as int),
            ) && pos < next <= text@.len() && v <= form.max,
            None => led_number_at(text@, pos as int, lead, *form) is None,
        },
{
    if has_char(text, pos, lead) {
        read_number(text, pos + 1, form)
    } else {
        None
    }
}

fn read_ipv4(text: &Vec<char>, pos: usize) -> (r: Option<(Ipv4, usize)>)
    requires
        pos <= text@.len(),
    ensures
        match r {
            Some((ip, next)) => ipv4_at(text@, pos as int) == Some((ip, next as int)) && pos
                < next <= text@.len(),
            None => ipv4_at(text@, pos as int) is None,
        },
{
    let form = octet();
    let (a, pa) = match read_number(text, pos, &form) {
        Some(r) => r,
        None => {
            return None;
        },
    };
    let (b, pb) = match read_led_number(text, pa, '.', &form) {
        Some(r) => r,
        None => {
            return None;
        },
    };
    let (c, pc) = match read_led_number(text, pb, '.', &form) {
        Some(r) => r,
        None => {
            return None;
        },
    };
    let (d, pd) = match read_led_number(text, pc, '.', &form) {
        Some(r) => r,
        None => {
            return None;
        },
    };
    Some((Ipv4 { a: a as u8, b: b as u8, c: c as u8, d: d as u8 }, pd))
}

fn read_groups(text: &Vec<char>, pos: usize, limit: usize) -> (r: (Vec<u16>, usize, bool))
    requires
        pos <= text@.len(),
        limit <= 8,
    ensures
        groups_at(text@, pos as int, limit as nat, Seq::empty()) == (Run {
            groups: r.0@,
            next: r.1 as int,
            dotted: r.2,
        }),
        pos <= r.1 <= text@.len(),
        r.0@.len() <= limit,
{
    let ghost s = text@;
    let form = group();
    let mut acc: Vec<u16> = Vec::new();
    let mut at: usize = pos;
    loop
        invariant
            s == text@,
            limit <= 8,
            form == group_form(),
            pos <= at <= text@.len(),
            acc@.len() <= limit,
            groups_at(s, pos as int, limit as nat, Seq::empty()) == groups_at(
                s,
                at as int,
                limit as nat,
                acc@,
            ),
        decreases limit - acc@.len(),
    {
        if acc.len() >= limit {
            return (acc, at, false);
        }
        let start: usize = if acc.len() == 0 {
            at
        } else if has_char(text, at, ':') {
            at + 1
        } else {
            return (acc, at, false);
        };
        if acc.len() + 1 < limit {
            match read_ipv4(text, start) {
                Some((ip, next)) => {
                    acc.push(ip.a as u16 * 256 + ip.b as u16);
                    acc.push(ip.c as u16 * 256 + ip.d as u16);
                    return (acc, next, true);
                },
                None => {},
            }
        }
        match read_number(text, start, &form) {
            Some((g, next)) => {
                acc.push(g as u16);
                at = next;
            },
            None => {
                return (acc, at, false);
            },
        }
    }
}

fn segment_of(head: &Vec<u16>, tail: &Vec<u16>, k: usize) -> (r: u16)
    requires
        head@.len() + tail@.len() <= 8,
        k < 8,
    ensures
        r == (head@ + zeros(8 - head@.len() - tail@.len()) + tail@)[k as int],
{
    if k < head.len() {
        head[k]
    } else if k >= 8 - tail.len() {
        tail[k - (8 - tail.len())]
    } else {
        0
    }
}

fn read_ipv6(text: &Vec<char>, pos: usize) -> (r: Option<(Ipv6, usize)>)
    requires
        pos <= text@.len(),
    ensures
        match r {
            Some((ip, next)) => match ipv6_at(text@, pos as int) {
                Some((g, p)) => ip == Ipv6::of(g) && next == p && pos <= next <= text@.len(),
                None => false,
            },
            None => ipv6_at(text@, pos as int) is None,
        },
{
    let (head, p, dotted) = read_groups(text, pos, 8);
    let tail: Vec<u16>;
    let next: usize;
    if head.len() == 8 {
        tail = Vec::new();
        next = p;
        assert(head@ + zeros(0) + tail@ =~= head@);
    } else if dotted || !has_char(text, p, ':') || !has_char(text, p + 1, ':') {
        return None;
    } else {
        let (t, q, _) = read_groups(text, p + 2, 7 - head.len());
        tail = t;
        next = q;
    }
    let ip = Ipv6 {
        a: segment_of(&head, &tail, 0),
        b: segment_of(&head, &tail, 1),
        c: segment_of(&head, &tail, 2),
        d: segment_of(&head, &tail, 3),
        e: segment_of(&head, &tail, 4),
        f: segment_of(&head, &tail, 5),
        g: segment_of(&head, &tail, 6),
        h: segment_of(&head, &tail, 7),
    };
    Some((ip, next))
}

fn read_v4_socket(text: &Vec<char>) -> (r: Option<(InetAddr, usize)>)
    requires
    ensures
        match r {
            Some((addr, next)) => v4_socket_at(text@, 0) == Some((addr, next as int)),
            None => v4_socket_at(text@, 0) is None,
        },
{
    let (ip, p) = match read_ipv4(text, 0) {
        Some(r) => r,
        None => {
            return None;
        },
    };
    match read_led_number(text, p, ':', &port()) {
        Some((port, next)) => Some((InetAddr::V4 { ip, port: port as u16 }, next)),
        None => None,
    }
}

fn read_v6_socket(text: &Vec<char>) -> (r: Option<(InetAddr, usize)>)
    requires
    ensures
        match r {
            Some((addr, next)) => v6_socket_at(text@, 0) == Some((addr, next as int)),
            None => v6_socket_at(text@, 0) is None,
        },
{
    if !has_char(text, 0, '[') {
        return None;
    }
    let (ip, p) = match read_ipv6(text, 1) {
        Some(r) => r,
        None => {
            return None;
        },
    };
    let (scope_id, q) = match read_led_number(text, p, '%', &scope()) {
        Some(r) => r,
        None => (0, p),
    };
    if !has_char(text, q, ']') {
        return None;
    }
    match read_led_number(text, q + 1, ':', &port()) {
        Some((port, next)) => Some(
            (InetAddr::V6 { ip, port: port as u16, flowinfo: 0, scope_id }, next),
        ),
        None => None,
    }
}

impl InetAddr {
    /// Reads an internet socket address: `a.b.c.d:port`, or
    /// `[ipv6]:port` with an optional `%scope` behind the IPv6 address.
    /// `None` where the text as a whole is no such address.
    pub fn parse(text: &str) -> (r: Option<InetAddr>)
        ensures
            r == parse_inet(text@),
    {
        InetAddr::parse_chars(&chars_of(text))
    }

    /// Reads an internet socket address from the characters of a text.
    pub(crate) fn parse_chars(text: &Vec<char>) -> (r: Option<InetAddr>)
        ensures
            r == parse_inet(text@),
    {
        let found = match read_v4_socket(text) {
            Some(r) => Some(r),
            None => read_v6_socket(text),
        };
        match found {
            Some((addr, next)) => if next == text.len() {
                Some(addr)
            } else {
                None
            },
            None => None,
        }
    }
}

/// The usual spelling of an IPv4 address: the four octets in decimal, with
/// a dot between them.
pub open spec fn ipv4_text(ip: Ipv4) -> Seq<char> {
    number_text(ip.a as int, false) + seq!['.'] + number_text(ip.b as int, false) + seq!['.']
        + number_text(ip.c as int, false) + seq!['.'] + number_text(ip.d as int, false)
}

/// The segments of `g` from `from` up to `to`, each behind a colon.
pub open spec fn led_groups_text(g: Seq<u16>, from: int, to: int) -> Seq<char>
    decreases to - from,
{
    if from >= to {
        Seq::empty()
    } else {
        seq![':'] + number_text(g[from] as int, true) + led_groups_text(g, from + 1, to)
    }
}

/// The segments of `g` from `from` up to `to`, with a colon between them.
pub open spec fn groups_text(g: Seq<u16>, from: int, to: int) -> Seq<char> {
    if from >= to {
        Seq::empty()
    } else {
        number_text(g[from] as int, true) + led_groups_text(g, from + 1, to)
    }
}

/// The number of segments from `i` on that are zero, one after the other.
pub open spec fn zeros_from(g: Seq<u16>, i: int) -> int
    decreases g.len() - i,
{
    if 0 <= i < g.len() && g[i] == 0 {
        1 + zeros_from(g, i + 1)
    } else {
        0
    }
}

/// Some segments that follow one another.
pub struct Span {
    pub start: int,
    pub len: int,
}

/// Among the places from `i` on, the first at which the longest run of zero
/// segments begins, with the length of that run. Where no segment from `i`
/// on is zero, the span is empty and begins at 0.
pub open spec fn longest_zeros(g: Seq<u16>, i: int) -> Span
    decreases g.len() - i,
{
    if i < 0 || i >= g.len() {
        Span { start: 0, len: 0 }
    } else {
        let later = longest_zeros(g, i + 1);
        if zeros_from(g, i) > 0 && zeros_from(g, i) >= later.len {
            Span { start: i, len: zeros_from(g, i) }
        } else {
            later
        }
    }
}

/// Whether the segments are those of an IPv4 address mapped into IPv6:
/// five zero segments, then `ffff`.
pub open spec fn is_mapped(g: Seq<u16>) -> bool {
    g[0] == 0 && g[1] == 0 && g[2] == 0 && g[3] == 0 && g[4] == 0 && g[5] == 0xffff
}

/// The usual spelling of the IPv6 address with the eight segments `g`: a
/// mapped IPv4 address as `::ffff:` and the IPv4 address; any other with
/// its segments in hexadecimal, where the first longest run of two or more
/// zero segments is written as `::`.
pub open spec fn ipv6_text(g: Seq<u16>) -> Seq<char> {
    let span = longest_zeros(g, 0);
    if is_mapped(g) {
        seq![':', ':', 'f', 'f', 'f', 'f', ':'] + ipv4_text(Ipv4::of_segments(g[6], g[7]))
    } else if span.len > 1 {
        groups_text(g, 0, span.start) + seq![':', ':'] + groups_text(
            g,
            span.start + span.len,
            8,
        )
    } else {
        groups_text(g, 0, 8)
    }
}

/// The scope identifier as it stands behind the address: nothing for 0.
pub open spec fn scope_text(scope_id: u32) -> Seq<char> {
    if scope_id == 0 {
        Seq::empty()
    } else {
        seq!['%'] + number_text(scope_id as int, false)
    }
}

/// The usual spelling of an internet socket address. The flow information
/// of an IPv6 socket address is not written.
pub open spec fn inet_text(addr: InetAddr) -> Seq<char> {
    match addr {
        InetAddr::V4 { ip, port } => ipv4_text(ip) + seq![':'] + number_text(port as int, false),
        InetAddr::V6 { ip, port, flowinfo, scope_id } => seq!['['] + ipv6_text(
            ip.spec_segments(),
        ) + scope_text(scope_id) + seq![']', ':'] + number_text(port as int, false),
    }
}

impl Ipv4 {
    /// Appends the usual spelling of the address.
    pub fn push_text(&self, out: &mut String)
        ensures
            final(out)@ == old(out)@ + ipv4_text(*self),
    {
        push_number(out, self.a as u32, false);
        push_char(out, '.');
        push_number(out, self.b as u32, false);
        push_char(out, '.');
        push_number(out, self.c as u32, false);
        push_char(out, '.');
        push_number(out, self.d as u32, false);
        assert(final(out)@ =~= old(out)@ + ipv4_text(*self));
    }
}

fn push_groups(out: &mut String, g: &[u16; 8], from: usize, to: usize)
    requires
        from <= to <= 8,
    ensures
        final(out)@ == old(out)@ + groups_text(g@, from as int, to as int),
{
    if from >= to {
        assert(final(out)@ =~= old(out)@ + groups_text(g@, from as int, to as int));
        return ;
    }
    push_number(out, g[from] as u32, true);
    let mut i: usize = from + 1;
    while i < to
        invariant
            from < i <= to <= 8,
            out@ + led_groups_text(g@, i as int, to as int) == old(out)@ + groups_text(
                g@,
                from as int,
                to as int,
            ),
        decreases to - i,
    {
        let ghost before = out@;
        push_char(out, ':');
        push_number(out, g[i] as u32, true);
        assert(before + led_groups_text(g@, i as int, to as int) =~= out@ + led_groups_text(
            g@,
            i + 1,
            to as int,
        ));
        i = i + 1;
    }
    assert(out@ + led_groups_text(g@, to as int, to as int) =~= out@);
}

fn count_zeros(g: &[u16; 8], i: usize) -> (n: usize)
    requires
        i <= 8,
    ensures
        n == zeros_from(g@, i as int),
        i + n <= 8,
{
    let mut j: usize = i;
    while j < 8 && g[j] == 0
        invariant
            i <= j <= 8,
            zeros_from(g@, i as int) == (j - i) + zeros_from(g@, j as int),
        decreases 8 - j,
    {
        j = j + 1;
    }
    j - i
}

fn find_zeros(g: &[u16; 8]) -> (r: (usize, usize))
    ensures
        longest_zeros(g@, 0) == (Span { start: r.0 as int, len: r.1 as int }),
        r.0 + r.1 <= 8,
{
    let mut start: usize = 0;
    let mut len: usize = 0;
    let mut i: usize = 8;
    while i > 0
        invariant
            i <= 8,
            start + len <= 8,
            longest_zeros(g@, i as int) == (Span { start: start as int, len: len as int }),
        decreases i,
    {
        i = i - 1;
        let n = count_zeros(g, i);
        if n > 0 && n >= len {
            start = i;
            len = n;
        }
    }
    (start, len)
}

impl Ipv6 {
    /// The eight segments, in order.
    pub fn segments(&self) -> (g: [u16; 8])
        ensures
            g@ == self.spec_segments(),
    {
        let g = [self.a, self.b, self.c, self.d, self.e, self.f, self.g, self.h];
        assert(g@ =~= self.spec_segments());
        g
    }

    /// Appends the usual spelling of the address.
    pub fn push_text(&self, out: &mut String)
        ensures
            final(out)@ == old(out)@ + ipv6_text(self.spec_segments()),
    {
        let g = self.segments();
        if g[0] == 0 && g[1] == 0 && g[2] == 0 && g[3] == 0 && g[4] == 0 && g[5] == 0xffff {
            push_char(out, ':');
            push_char(out, ':');
            push_char(out, 'f');
            push_char(out, 'f');
            push_char(out, 'f');
            push_char(out, 'f');
            push_char(out, ':');
            let ip = Ipv4 {
                a: (g[6] / 256) as u8,
                b: (g[6] % 256) as u8,
                c: (g[7] / 256) as u8,
                d: (g[7] % 256) as u8,
            };
            ip.push_text(out);
            assert(final(out)@ =~= old(out)@ + ipv6_text(self.spec_segments()));
            return ;
        }
        let (start, len) = find_zeros(&g);
        if len > 1 {
            push_groups(out, &g, 0, start);
            push_char(out, ':');
            push_char(out, ':');
            push_groups(out, &g, start + len, 8);
        } else {
            push_groups(out, &g, 0, 8);
        }
        assert(final(out)@ =~= old(out)@ + ipv6_text(self.spec_segments()));
    }
}

impl InetAddr {
    /// Appends the usual spelling of the address.
    pub fn push_text(&self, out: &mut String)
        ensures
            final(out)@ == old(out)@ + inet_text(*self),
    {
        match self {
            InetAddr::V4 { ip, port } => {
                ip.push_text(out);
                push_char(out, ':');
                push_number(out, *port as u32, false);
            },
            InetAddr::V6 { ip, port, flowinfo: _, scope_id } => {
                push_char(out, '[');
                ip.push_text(out);
                if *scope_id != 0 {
                    push_char(out, '%');
                    push_number(out, *scope_id, false);
                }
                push_char(out, ']');
                push_char(out, ':');
                push_number(out, *port as u32, false);
            },
        }
        assert(final(out)@ =~= old(out)@ + inet_text(*self));
    }

    /// The usual spelling of the address: `a.b.c.d:port`, or
    /// `[ipv6]:port` with `%scope` behind the IPv6 address where the scope
    /// identifier is not 0.
    pub fn to_string(&self) -> (r: String)
        ensures
            r@ == inet_text(*self),
    {
        let mut out = String::new();
        self.push_text(&mut out);
        assert(out@ =~= inet_text(*self));
        out
    }
}

} // verus!
