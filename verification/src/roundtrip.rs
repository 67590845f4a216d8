//! Reading back what was written: the usual spelling of an address spells
//! that address and no other.

use vstd::prelude::*;
use crate::inet::group_form;
use crate::inet::group_start;
use crate::inet::groups_at;
use crate::inet::groups_text;
use crate::inet::ipv4_at;
use crate::inet::ipv4_text;
use crate::inet::led_groups_text;
use crate::inet::octet_form;
use crate::inet::ipv6_at;
use crate::inet::ipv6_text;
use crate::inet::is_mapped;
use crate::inet::longest_zeros;
use crate::inet::zeros;
use crate::inet::zeros_from;
use crate::inet::inet_text;
use crate::inet::parse_inet;
use crate::inet::port_form;
use crate::inet::scope_at;
use crate::inet::scope_form;
use crate::inet::scope_text;
use crate::inet::v4_socket_at;
use crate::inet::v6_socket_at;
use crate::inet::InetAddr;
use crate::inet::Ipv4;
use crate::inet::Ipv6;
use crate::addr::has_unix_prefix;
use crate::addr::spec_parse;
use crate::addr::spec_text;
use crate::addr::unix_prefix;
use crate::addr::AddrModel;
use crate::inet::Run;
use crate::text::digits_from;
use crate::text::holds;
use crate::text::is_char;
use crate::text::is_digit;
use crate::text::lemma_holds_both;
use crate::text::lemma_number_at_text;
use crate::text::lemma_number_text;
use crate::text::lemma_run_holds_digits;
use crate::text::number_at;
use crate::text::number_text;

verus! {

/// Where a text holds a single character, that character stands there.
pub proof fn lemma_holds_char(s: Seq<char>, pos: int, c: char)
    ensures
        holds(s, pos, seq![c]) <==> is_char(s, pos, c),
{
    let t = seq![c];
    if holds(s, pos, t) {
        assert(s[pos + 0] == t[0]);
    }
}

/// Where a text holds the usual spelling of an IPv4 address, and no digit
/// behind it, that address stands there.
pub proof fn lemma_ipv4_at_text(s: Seq<char>, pos: int, ip: Ipv4)
    requires
        holds(s, pos, ipv4_text(ip)),
        !is_digit(s, pos + ipv4_text(ip).len(), false),
    ensures
        ipv4_at(s, pos) == Some((ip, pos + ipv4_text(ip).len())),
{
    let a = number_text(ip.a as int, false);
    let b = number_text(ip.b as int, false);
    let c = number_text(ip.c as int, false);
    let d = number_text(ip.d as int, false);
    let dot = seq!['.'];
    lemma_holds_both(s, pos, a + dot + b + dot + c + dot, d);
    lemma_holds_both(s, pos, a + dot + b + dot + c, dot);
    lemma_holds_both(s, pos, a + dot + b + dot, c);
    lemma_holds_both(s, pos, a + dot + b, dot);
    lemma_holds_both(s, pos, a + dot, b);
    lemma_holds_both(s, pos, a, dot);
    let pa = pos + a.len();
    let pb = pa + 1 + b.len();
    let pc = pb + 1 + c.len();
    lemma_holds_char(s, pa, '.');
    lemma_holds_char(s, pb, '.');
    lemma_holds_char(s, pc, '.');
    lemma_number_text(ip.a as int, false);
    lemma_number_text(ip.b as int, false);
    lemma_number_text(ip.c as int, false);
    lemma_number_text(ip.d as int, false);
    lemma_number_at_text(s, pos, ip.a as int, octet_form());
    lemma_number_at_text(s, pa + 1, ip.b as int, octet_form());
    lemma_number_at_text(s, pb + 1, ip.c as int, octet_form());
    lemma_number_at_text(s, pc + 1, ip.d as int, octet_form());
}

/// No IPv4 address stands where a text holds a hexadecimal number that is
/// followed neither by a dot nor by a digit.
pub proof fn lemma_group_is_no_ipv4(s: Seq<char>, pos: int, n: int)
    requires
        0 <= n,
        holds(s, pos, number_text(n, true)),
        !is_digit(s, pos + number_text(n, true).len(), false),
        !is_char(s, pos + number_text(n, true).len(), '.'),
    ensures
        ipv4_at(s, pos) is None,
{
    let t = number_text(n, true);
    let run = digits_from(s, pos, false);
    lemma_run_holds_digits(s, pos, false);
    lemma_number_text(n, true);
    if run > t.len() {
        assert(is_digit(s, pos + t.len(), false));
    }
    if run < t.len() {
        assert(s[pos + run] == t[run as int]);
    }
    assert(!is_char(s, pos + run, '.'));
}

/// Whether no further segment can be read at `pos` behind `count` others.
pub open spec fn run_ends(s: Seq<char>, pos: int, count: nat) -> bool {
    if count == 0 {
        !is_digit(s, pos, true)
    } else {
        !is_char(s, pos, ':') || !is_digit(s, pos + 1, true)
    }
}

/// Where no further segment can be read, the run is what was read before.
pub proof fn lemma_groups_end(s: Seq<char>, pos: int, limit: nat, acc: Seq<u16>)
    requires
        run_ends(s, pos, acc.len()),
    ensures
        groups_at(s, pos, limit, acc) == (Run { groups: acc, next: pos, dotted: false }),
{
}

/// The text of the segments of `g` from `from` up to `to` as it stands
/// behind `count` segments: with a colon before the first too, unless
/// `count` is 0.
pub open spec fn more_groups_text(g: Seq<u16>, from: int, to: int, count: nat) -> Seq<char> {
    if count == 0 {
        groups_text(g, from, to)
    } else {
        led_groups_text(g, from, to)
    }
}

/// Where a text holds segments in their usual spelling, and behind them
/// nothing that goes on with the last segment or begins a further one,
/// those segments are the run that stands there.
pub proof fn lemma_groups_at_text(
    s: Seq<char>,
    pos: int,
    limit: nat,
    acc: Seq<u16>,
    g: Seq<u16>,
    from: int,
    to: int,
)
    requires
        0 <= from <= to <= g.len(),
        acc.len() + (to - from) <= limit,
        holds(s, pos, more_groups_text(g, from, to, acc.len())),
        !is_digit(s, pos + more_groups_text(g, from, to, acc.len()).len(), true),
        !is_char(s, pos + more_groups_text(g, from, to, acc.len()).len(), '.'),
        acc.len() + (to - from) == limit || run_ends(
            s,
            pos + more_groups_text(g, from, to, acc.len()).len(),
            (acc.len() + (to - from)) as nat,
        ),
    ensures
        groups_at(s, pos, limit, acc) == (Run {
            groups: acc + g.subrange(from, to),
            next: pos + more_groups_text(g, from, to, acc.len()).len(),
            dotted: false,
        }),
    decreases to - from,
{
    let text = more_groups_text(g, from, to, acc.len());
    if from == to {
        assert(acc + g.subrange(from, to) =~= acc);
        assert(text.len() == 0);
        if acc.len() < limit {
            lemma_groups_end(s, pos, limit, acc);
        }
    } else {
        let token = number_text(g[from] as int, true);
        let rest = led_groups_text(g, from + 1, to);
        let colon = seq![':'];
        let start = if acc.len() == 0 {
            pos
        } else {
            pos + 1
        };
        if acc.len() == 0 {
            assert(text == token + rest);
            lemma_holds_both(s, pos, token, rest);
        } else {
            assert(text == colon + token + rest);
            lemma_holds_both(s, pos, colon + token, rest);
            lemma_holds_both(s, pos, colon, token);
            lemma_holds_char(s, pos, ':');
        }
        let behind = start + token.len();
        assert(holds(s, start, token));
        assert(holds(s, behind, rest));
        assert(behind + rest.len() == pos + text.len());
        if from + 1 < to {
            let next_token = number_text(g[from + 1] as int, true);
            let last = led_groups_text(g, from + 2, to);
            assert(rest == colon + next_token + last);
            lemma_holds_both(s, behind, colon + next_token, last);
            lemma_holds_both(s, behind, colon, next_token);
            lemma_holds_char(s, behind, ':');
        } else {
            assert(rest.len() == 0);
        }
        assert(!is_digit(s, behind, true));
        assert(!is_char(s, behind, '.'));
        lemma_number_text(g[from] as int, true);
        lemma_group_is_no_ipv4(s, start, g[from] as int);
        lemma_number_at_text(s, start, g[from] as int, group_form());
        let more = acc.push(g[from]);
        assert(more_groups_text(g, from + 1, to, more.len()) == rest);
        lemma_groups_at_text(s, behind, limit, more, g, from + 1, to);
        assert(more + g.subrange(from + 1, to) =~= acc + g.subrange(from, to));
    }
}

/// A run of zero segments lies within the segments and holds zeros only.
pub proof fn lemma_zeros_from(g: Seq<u16>, i: int)
    requires
        0 <= i <= g.len(),
    ensures
        0 <= zeros_from(g, i) <= g.len() - i,
        forall|k: int| i <= k < i + zeros_from(g, i) ==> g[k] == 0,
        i + zeros_from(g, i) < g.len() ==> g[i + zeros_from(g, i)] != 0,
    decreases g.len() - i,
{
    if i < g.len() && g[i] == 0 {
        lemma_zeros_from(g, i + 1);
    }
}

/// The span that [`longest_zeros`] gives is a run of zero segments, no run
/// from `i` on is longer, and every run that begins before it is shorter.
pub proof fn lemma_longest_zeros(g: Seq<u16>, i: int)
    requires
        0 <= i <= g.len(),
    ensures
        ({
            let span = longest_zeros(g, i);
            &&& span.len >= 0
            &&& span.len == 0 ==> span.start == 0
            &&& span.len > 0 ==> i <= span.start < g.len() && span.len == zeros_from(
                g,
                span.start,
            )
            &&& forall|j: int| i <= j < g.len() ==> zeros_from(g, j) <= span.len
            &&& forall|j: int| i <= j < span.start ==> zeros_from(g, j) < span.len
        }),
    decreases g.len() - i,
{
    if i < g.len() {
        lemma_longest_zeros(g, i + 1);
        lemma_zeros_from(g, i);
    }
}

/// Where a text holds the usual spelling of an IPv6 address, and behind it
/// the `]` or `%` that ends the address, that address stands there.
pub proof fn lemma_ipv6_at_text(s: Seq<char>, pos: int, g: Seq<u16>)
    requires
        g.len() == 8,
        holds(s, pos, ipv6_text(g)),
        is_char(s, pos + ipv6_text(g).len(), ']') || is_char(s, pos + ipv6_text(g).len(), '%'),
    ensures
        ipv6_at(s, pos) == Some((g, pos + ipv6_text(g).len())),
{
    let none = Seq::<u16>::empty();
    let end = pos + ipv6_text(g).len();
    let span = longest_zeros(g, 0);
    lemma_longest_zeros(g, 0);
    if is_mapped(g) {
        let lead = seq![':', ':', 'f', 'f', 'f', 'f', ':'];
        let ip = Ipv4::of_segments(g[6], g[7]);
        lemma_holds_both(s, pos, lead, ipv4_text(ip));
        assert(s[pos + 0] == lead[0] && s[pos + 1] == lead[1] && s[pos + 2] == lead[2] && s[pos
            + 3] == lead[3] && s[pos + 4] == lead[4] && s[pos + 5] == lead[5] && s[pos + 6]
            == lead[6]);
        lemma_groups_end(s, pos, 8, none);
        let ffff = number_text(0xffff, true);
        assert(ffff =~= seq!['f', 'f', 'f', 'f']) by {
            reveal_with_fuel(number_text, 4);
        }
        assert(holds(s, pos + 2, ffff));
        lemma_group_is_no_ipv4(s, pos + 2, 0xffff);
        lemma_number_at_text(s, pos + 2, 0xffff, group_form());
        lemma_ipv4_at_text(s, pos + 7, ip);
        let first = none.push(0xffffu16);
        assert(first.len() == 1);
        assert(groups_at(s, pos + 6, 7, first) == (Run {
            groups: first.push(ip.high()).push(ip.low()),
            next: end,
            dotted: true,
        }));
        assert(groups_at(s, pos + 2, 7, none) == groups_at(s, pos + 6, 7, first));
        assert(ip.high() == g[6] && ip.low() == g[7]);
        assert(none + zeros(5) + first.push(ip.high()).push(ip.low()) =~= g);
    } else if span.len > 1 {
        lemma_zeros_from(g, span.start);
        let head = groups_text(g, 0, span.start);
        let tail = groups_text(g, span.start + span.len, 8);
        let gap = seq![':', ':'];
        lemma_holds_both(s, pos, head + gap, tail);
        lemma_holds_both(s, pos, head, gap);
        let mid = pos + head.len();
        assert(s[mid + 0] == gap[0] && s[mid + 1] == gap[1]);
        lemma_groups_at_text(s, pos, 8, none, g, 0, span.start);
        lemma_groups_at_text(s, mid + 2, (7 - span.start) as nat, none, g, span.start + span.len, 8);
        assert(none + g.subrange(0, span.start) =~= g.subrange(0, span.start));
        assert(none + g.subrange(span.start + span.len, 8) =~= g.subrange(
            span.start + span.len,
            8,
        ));
        assert(g.subrange(0, span.start) + zeros(span.len) + g.subrange(span.start + span.len, 8)
            =~= g);
    } else {
        lemma_groups_at_text(s, pos, 8, none, g, 0, 8);
        assert(none + g.subrange(0, 8) =~= g);
    }
}

/// Whether an address can be told from its text: the text does not hold
/// the flow information of an IPv6 socket address, so only one whose flow
/// information is 0 can.
pub open spec fn is_written_whole(addr: InetAddr) -> bool {
    match addr {
        InetAddr::V4 { ip, port } => true,
        InetAddr::V6 { ip, port, flowinfo, scope_id } => flowinfo == 0,
    }
}

/// Where a text holds a scope identifier as it is written, and `]` behind
/// it, that scope identifier stands there.
pub proof fn lemma_scope_at_text(s: Seq<char>, pos: int, scope_id: u32)
    requires
        holds(s, pos, scope_text(scope_id)),
        is_char(s, pos + scope_text(scope_id).len(), ']'),
    ensures
        scope_at(s, pos) == (scope_id as int, pos + scope_text(scope_id).len()),
{
    if scope_id != 0 {
        let number = number_text(scope_id as int, false);
        lemma_holds_both(s, pos, seq!['%'], number);
        lemma_holds_char(s, pos, '%');
        lemma_number_at_text(s, pos + 1, scope_id as int, scope_form());
    }
}

/// The usual spelling of an IPv4 socket address spells that address.
pub proof fn lemma_v4_socket_text(ip: Ipv4, port: u16)
    ensures
        v4_socket_at(inet_text(InetAddr::V4 { ip, port }), 0) == Some(
            (InetAddr::V4 { ip, port }, inet_text(InetAddr::V4 { ip, port }).len() as int),
        ),
{
    let s = inet_text(InetAddr::V4 { ip, port });
    assert(holds(s, 0, s));
    let colon = seq![':'];
    let host = ipv4_text(ip);
    let digits = number_text(port as int, false);
    lemma_holds_both(s, 0, host + colon, digits);
    lemma_holds_both(s, 0, host, colon);
    lemma_holds_char(s, host.len() as int, ':');
    lemma_ipv4_at_text(s, 0, ip);
    lemma_number_at_text(s, host.len() as int + 1, port as int, port_form());
}

/// Where the parts of a bracketed address stand in its text.
proof fn lemma_bracketed(s: Seq<char>, host: Seq<char>, zone: Seq<char>, digits: Seq<char>)
    requires
        s == seq!['['] + host + zone + seq![']', ':'] + digits,
    ensures
        is_char(s, 0, '['),
        holds(s, 1, host),
        holds(s, host.len() as int + 1, zone),
        is_char(s, host.len() as int + zone.len() + 1, ']'),
        is_char(s, host.len() as int + zone.len() + 2, ':'),
        holds(s, host.len() as int + zone.len() + 3, digits),
        s.len() == 3 + host.len() + zone.len() + digits.len(),
{
    let open = seq!['['];
    let close = seq![']', ':'];
    assert(holds(s, 0, s));
    lemma_holds_both(s, 0, open + host + zone + close, digits);
    lemma_holds_both(s, 0, open + host + zone, close);
    lemma_holds_both(s, 0, open + host, zone);
    lemma_holds_both(s, 0, open, host);
    lemma_holds_char(s, 0, '[');
    let q: int = host.len() as int + zone.len() + 1;
    assert(s[q + 0] == close[0] && s[q + 1] == close[1]);
}

/// The usual spelling of an IPv6 socket address spells that address, with
/// no flow information.
pub proof fn lemma_v6_socket_text(ip: Ipv6, port: u16, scope_id: u32)
    ensures
        v6_socket_at(inet_text(InetAddr::V6 { ip, port, flowinfo: 0, scope_id }), 0) == Some(
            (
                InetAddr::V6 { ip, port, flowinfo: 0, scope_id },
                inet_text(InetAddr::V6 { ip, port, flowinfo: 0, scope_id }).len() as int,
            ),
        ),
{
    let s = inet_text(InetAddr::V6 { ip, port, flowinfo: 0, scope_id });
    let g = ip.spec_segments();
    let host = ipv6_text(g);
    let zone = scope_text(scope_id);
    let digits = number_text(port as int, false);
    lemma_bracketed(s, host, zone, digits);
    let p: int = host.len() as int + 1;
    let q: int = p + zone.len();
    lemma_scope_at_text(s, p, scope_id);
    assert(is_char(s, p, ']') || is_char(s, p, '%')) by {
        if scope_id != 0 {
            lemma_holds_both(s, p, seq!['%'], number_text(scope_id as int, false));
            lemma_holds_char(s, p, '%');
        }
    }
    lemma_ipv6_at_text(s, 1, g);
    lemma_number_at_text(s, q + 2, port as int, port_form());
    assert(Ipv6::of(g) == ip);
}

/// The usual spelling of an internet socket address spells that address.
pub proof fn lemma_parse_inet_text(addr: InetAddr)
    requires
        is_written_whole(addr),
    ensures
        parse_inet(inet_text(addr)) == Some(addr),
{
    match addr {
        InetAddr::V4 { ip, port } => {
            lemma_v4_socket_text(ip, port);
        },
        InetAddr::V6 { ip, port, flowinfo, scope_id } => {
            lemma_v6_socket_text(ip, port, scope_id);
        },
    }
}

/// Reading the text of an address gives the address back. The one
/// exception is an IPv6 socket address with flow information, which its
/// text does not hold.
pub proof fn lemma_parse_text(addr: AddrModel)
    requires
        addr is Inet ==> is_written_whole(addr->Inet_0),
    ensures
        spec_parse(spec_text(addr)) == Some(addr),
{
    match addr {
        AddrModel::Inet(a) => {
            lemma_parse_inet_text(a);
        },
        AddrModel::Unix(p) => {
            let s = unix_prefix() + p;
            assert(has_unix_prefix(s));
            assert(s.skip(5) =~= p);
        },
    }
}

/// Whether a text is the text of some address.
pub open spec fn is_canonical(s: Seq<char>) -> bool {
    exists|addr: AddrModel|
        (addr is Inet ==> is_written_whole(addr->Inet_0)) && #[trigger] spec_text(addr) == s
}

/// Writing the address that a text spells gives the text back, where the
/// text is the text of an address. Other spellings are read too, and
/// written differently: `[0:0::1]:80` is read and written as `[::1]:80`.
pub proof fn lemma_text_of_parsed(s: Seq<char>)
    requires
        is_canonical(s),
    ensures
        spec_parse(s) is Some,
        spec_text(spec_parse(s)->0) == s,
{
    let addr = choose|addr: AddrModel|
        (addr is Inet ==> is_written_whole(addr->Inet_0)) && #[trigger] spec_text(addr) == s;
    lemma_parse_text(addr);
}

/// Two addresses with the same text are the same address, flow information
/// apart.
pub proof fn lemma_text_tells_addresses_apart(a: AddrModel, b: AddrModel)
    requires
        a is Inet ==> is_written_whole(a->Inet_0),
        b is Inet ==> is_written_whole(b->Inet_0),
        spec_text(a) == spec_text(b),
    ensures
        a == b,
{
    lemma_parse_text(a);
    lemma_parse_text(b);
}

/// A text spells a socket path exactly if it begins with `unix:`; the text
/// of an address begins with `unix:` exactly if the address is a socket
/// path.
pub proof fn lemma_prefix_marks_paths(s: Seq<char>, addr: AddrModel)
    ensures
        spec_parse(s) is Some ==> (spec_parse(s)->0 is Unix <==> has_unix_prefix(s)),
        has_unix_prefix(s) ==> spec_parse(s) is Some,
        has_unix_prefix(spec_text(addr)) <==> addr is Unix,
{
    match addr {
        AddrModel::Inet(a) => {
            lemma_first_char(a);
        },
        AddrModel::Unix(p) => {
            assert(has_unix_prefix(unix_prefix() + p));
        },
    }
}

/// The text of an internet socket address begins with a decimal digit or
/// with `[`.
pub proof fn lemma_first_char(addr: InetAddr)
    ensures
        inet_text(addr).len() > 0,
        is_digit(inet_text(addr), 0, false) || inet_text(addr)[0] == '[',
{
    match addr {
        InetAddr::V4 { ip, port } => {
            lemma_number_text(ip.a as int, false);
            assert(inet_text(addr)[0] == number_text(ip.a as int, false)[0]);
        },
        InetAddr::V6 { ip, port, flowinfo, scope_id } => {
            assert(inet_text(addr)[0] == '[');
        },
    }
}

/// A text that begins with anything but a decimal digit, `[`, or the
/// prefix `unix:` is no address. A path without the prefix is such a text,
/// be it absolute or relative, unless it begins with a digit or `[`.
pub proof fn lemma_bare_path_is_no_address(s: Seq<char>)
    requires
        !has_unix_prefix(s),
        !is_digit(s, 0, false),
        !is_char(s, 0, '['),
    ensures
        spec_parse(s) is None,
{
}

/// A run of segments is never longer than its limit.
pub proof fn lemma_groups_within_limit(s: Seq<char>, pos: int, limit: nat, acc: Seq<u16>)
    requires
        acc.len() <= limit,
    ensures
        acc.len() <= groups_at(s, pos, limit, acc).groups.len() <= limit,
    decreases limit - acc.len(),
{
    let start = group_start(s, pos, acc.len());
    if acc.len() < limit && start is Some && !(acc.len() + 1 < limit && ipv4_at(s, start->0)
        is Some) {
        match number_at(s, start->0, group_form()) {
            Some((g, next)) => {
                lemma_groups_within_limit(s, next, limit, acc.push(g as u16));
            },
            None => {},
        }
    }
}

/// Every IPv6 address that is read has eight segments.
pub proof fn lemma_ipv6_at_is_whole(s: Seq<char>, pos: int)
    requires
        ipv6_at(s, pos) is Some,
    ensures
        ({
            let (g, next) = ipv6_at(s, pos)->0;
            g.len() == 8
        }),
{
    let none = Seq::<u16>::empty();
    lemma_groups_within_limit(s, pos, 8, none);
    let head = groups_at(s, pos, 8, none);
    if head.groups.len() < 8 {
        lemma_groups_within_limit(s, head.next + 2, (7 - head.groups.len()) as nat, none);
    }
}

} // verus!
