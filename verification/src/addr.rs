//! The unified socket address: an internet endpoint or a socket path.

use vstd::prelude::*;
use crate::inet::inet_text;
use crate::inet::parse_inet;
use crate::inet::InetAddr;
use crate::text::chars_of;
use crate::text::push_char;

verus! {

/// The address of a socket: an internet endpoint, or the path of a UNIX
/// domain socket.
#[derive(Debug, Eq, Hash)]
pub enum SocketAddr {
    Inet(InetAddr),
    Unix(String),
}

/// What a [`SocketAddr`] stands for in contracts: the path is taken as the
/// sequence of its characters.
pub enum AddrModel {
    Inet(InetAddr),
    Unix(Seq<char>),
}

/// The text is not an address.
#[derive(Clone, Copy, Debug, PartialEq, Eq, Structural)]
pub struct AddrParseError;

impl View for SocketAddr {
    type V = AddrModel;

    open spec fn view(&self) -> AddrModel {
        match self {
            SocketAddr::Inet(a) => AddrModel::Inet(*a),
            SocketAddr::Unix(p) => AddrModel::Unix(p@),
        }
    }
}

impl Clone for SocketAddr {
    fn clone(&self) -> (r: SocketAddr)
        ensures
            r == *self,
    {
        match self {
            SocketAddr::Inet(a) => SocketAddr::Inet(*a),
            SocketAddr::Unix(p) => SocketAddr::Unix(p.clone()),
        }
    }
}

impl PartialEq for SocketAddr {
    fn eq(&self, other: &SocketAddr) -> (r: bool) {
        match (self, other) {
            (SocketAddr::Inet(a), SocketAddr::Inet(b)) => *a == *b,
            (SocketAddr::Unix(p), SocketAddr::Unix(q)) => *p == *q,
            _ => false,
        }
    }
}

impl vstd::std_specs::cmp::PartialEqSpecImpl for SocketAddr {
    open spec fn obeys_eq_spec() -> bool {
        true
    }

    open spec fn eq_spec(&self, other: &SocketAddr) -> bool {
        self@ == other@
    }
}

/// Whether the text begins with `unix:`, which marks a socket path.
pub open spec fn has_unix_prefix(s: Seq<char>) -> bool {
    s.len() >= 5 && s[0] == 'u' && s[1] == 'n' && s[2] == 'i' && s[3] == 'x' && s[4] == ':'
}

/// The prefix that marks a socket path: `unix:`.
pub open spec fn unix_prefix() -> Seq<char> {
    seq!['u', 'n', 'i', 'x', ':']
}

/// The path that stands for a UNIX domain socket that has none: `unnamed`.
/// It names no file.
pub open spec fn unnamed() -> Seq<char> {
    seq!['u', 'n', 'n', 'a', 'm', 'e', 'd']
}

/// The address that a text spells. A text that begins with `unix:` spells
/// the socket path that follows the prefix, whatever it is, the empty path
/// too. Any other text spells an internet socket address or nothing: a path
/// without the prefix is no address.
pub open spec fn spec_parse(s: Seq<char>) -> Option<AddrModel> {
    if has_unix_prefix(s) {
        Some(AddrModel::Unix(s.skip(5)))
    } else {
        match parse_inet(s) {
            Some(a) => Some(AddrModel::Inet(a)),
            None => None,
        }
    }
}

/// The text of an address: an internet socket address in its usual
/// spelling, a socket path behind `unix:`.
pub open spec fn spec_text(addr: AddrModel) -> Seq<char> {
    match addr {
        AddrModel::Inet(a) => inet_text(a),
        AddrModel::Unix(p) => unix_prefix() + p,
    }
}

fn starts_with_unix(text: &Vec<char>) -> (r: bool)
    ensures
        r == has_unix_prefix(text@),
{
    text.len() >= 5 && text[0] == 'u' && text[1] == 'n' && text[2] == 'i' && text[3] == 'x'
        && text[4] == ':'
}

impl SocketAddr {
    /// Reads an address: `unix:` and a path, or an internet socket address.
    pub fn parse(text: &str) -> (r: Result<SocketAddr, AddrParseError>)
        ensures
            match r {
                Ok(addr) => spec_parse(text@) == Some(addr@),
                Err(_) => spec_parse(text@) is None,
            },
    {
        let chars = chars_of(text);
        if starts_with_unix(&chars) {
            Ok(SocketAddr::Unix(text.substring_char(5, chars.len()).to_owned()))
        } else {
            match InetAddr::parse_chars(&chars) {
                Some(a) => Ok(SocketAddr::Inet(a)),
                None => Err(AddrParseError),
            }
        }
    }

    /// The text of the address. [`SocketAddr::parse`] reads it back.
    pub fn to_string(&self) -> (r: String)
        ensures
            r@ == spec_text(self@),
    {
        match self {
            SocketAddr::Inet(a) => a.to_string(),
            SocketAddr::Unix(p) => {
                let mut out = String::new();
                push_char(&mut out, 'u');
                push_char(&mut out, 'n');
                push_char(&mut out, 'i');
                push_char(&mut out, 'x');
                push_char(&mut out, ':');
                out.append(p.as_str());
                assert(out@ =~= unix_prefix() + p@);
                out
            },
        }
    }

    /// The address of a UNIX domain socket as the system reports it: its
    /// path, or `unnamed` where the socket has no path.
    pub fn from_pathname(path: Option<&str>) -> (r: SocketAddr)
        ensures
            r@ == AddrModel::Unix(
                match path {
                    Some(p) => p@,
                    None => unnamed(),
                },
            ),
    {
        match path {
            Some(p) => SocketAddr::Unix(p.to_owned()),
            None => {
                proof {
                    reveal_strlit("unnamed");
                }
                assert("unnamed"@ =~= unnamed());
                SocketAddr::Unix("unnamed".to_owned())
            },
        }
    }

    /// Whether the address is the path of a UNIX domain socket.
    pub fn is_unix(&self) -> (r: bool)
        ensures
            r == (self@ is Unix),
    {
        match self {
            SocketAddr::Unix(_) => true,
            _ => false,
        }
    }
}

impl std::str::FromStr for SocketAddr {
    type Err = AddrParseError;

    fn from_str(text: &str) -> (r: Result<SocketAddr, AddrParseError>)
        ensures
            match r {
                Ok(addr) => spec_parse(text@) == Some(addr@),
                Err(_) => spec_parse(text@) is None,
            },
    {
        SocketAddr::parse(text)
    }
}

impl From<InetAddr> for SocketAddr {
    fn from(a: InetAddr) -> (r: SocketAddr) {
        SocketAddr::Inet(a)
    }
}

impl vstd::std_specs::convert::FromSpecImpl<InetAddr> for SocketAddr {
    open spec fn obeys_from_spec() -> bool {
        true
    }

    open spec fn from_spec(a: InetAddr) -> SocketAddr {
        SocketAddr::Inet(a)
    }
}

} // verus!
