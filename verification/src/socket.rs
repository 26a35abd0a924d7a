//! A port/protocol pair: parsed from the runtime's `"<port>/<protocol>"`
//! text, and rendered back for the runtime's port-publish syntax.

use vstd::prelude::*;
use vstd::string::*;
use crate::error::DockerError;
use crate::error::DockerErrorKind;
use crate::protocol::parse_protocol;
use crate::protocol::Protocol;
use crate::protocol::ProtocolView;
use crate::text::ci_eq;
use crate::text::count_char;
use crate::text::dec_str;
use crate::text::lemma_split_on_len;
use crate::text::parse_u16;
use crate::text::parse_u16_spec;
use crate::text::split_on;
use crate::text::split_str;
use crate::text::u16_to_string;

verus! {

/// A socket as the runtime reports it: a 16-bit port plus a protocol.
#[derive(Debug, PartialEq, Eq)]
pub struct Socket {
    pub port: u16,
    pub protocol: Protocol,
}

pub ghost struct SocketView {
    pub port: u16,
    pub protocol: ProtocolView,
}

impl View for Socket {
    type V = SocketView;

    open spec fn view(&self) -> SocketView {
        SocketView { port: self.port, protocol: self.protocol@ }
    }
}

impl Clone for Socket {
    fn clone(&self) -> (res: Self)
        ensures
            res == *self,
    {
        Socket { port: self.port, protocol: self.protocol.clone() }
    }
}

/// What parsing a `"<port>/<protocol>"` fragment yields: `InvalidInput`
/// unless the text splits into exactly two `/`-delimited parts whose first
/// part is a decimal 16-bit port; the protocol token is interpreted by
/// `parse_protocol`.
pub open spec fn parse_socket(s: Seq<char>) -> Result<SocketView, DockerErrorKind> {
    let parts = split_on(s, '/');
    if parts.len() != 2 {
        Err(DockerErrorKind::InvalidInput)
    } else {
        match parse_u16_spec(parts[0]) {
            Option::None => Err(DockerErrorKind::InvalidInput),
            Option::Some(port) => Ok(SocketView { port, protocol: parse_protocol(parts[1]) }),
        }
    }
}

/// The socket's publish-syntax text: the bare decimal port, with a
/// `/tcp` or `/udp` suffix only for an explicit TCP or UDP protocol.
pub open spec fn format_socket(s: SocketView) -> Seq<char> {
    match s.protocol {
        ProtocolView::TCP => dec_str(s.port as int) + "/tcp"@,
        ProtocolView::UDP => dec_str(s.port as int) + "/udp"@,
        _ => dec_str(s.port as int),
    }
}

impl Socket {
    pub fn new(port: u16, protocol: Protocol) -> (r: Self)
        ensures
            r.port == port,
            r.protocol == protocol,
    {
        Socket { port, protocol }
    }

    /// Parses one `"<port>/<protocol>"` fragment of runtime output.
    pub fn try_from(value: String) -> (r: Result<Socket, DockerError>)
        ensures
            match r {
                Ok(sock) => parse_socket(value@) == Ok::<SocketView, DockerErrorKind>(sock@),
                Err(e) => parse_socket(value@) == Err::<SocketView, DockerErrorKind>(e.kind),
            },
    {
        let parts = split_str(value.as_str(), '/');
        proof {
            assert(parts.deep_view().len() == parts@.len());
        }
        if parts.len() != 2 {
            return Err(DockerError::new(DockerErrorKind::InvalidInput, "Invalid socket format"));
        }
        proof {
            assert(parts.deep_view()[0] == parts@[0]@);
            assert(parts.deep_view()[1] == parts@[1]@);
        }
        let port = match parse_u16(parts[0].as_str()) {
            Option::Some(p) => p,
            Option::None => {
                return Err(DockerError::new(DockerErrorKind::InvalidInput, "Invalid port"));
            },
        };
        let protocol = Protocol::parse(parts[1].as_str());
        Ok(Socket { port, protocol })
    }

    /// Renders the socket for the runtime's port-publish syntax.
    pub fn format_protocol(&self) -> (r: String)
        ensures
            r@ == format_socket(self@),
    {
        let mut r = u16_to_string(self.port);
        match &self.protocol {
            Protocol::TCP => {
                r.append("/tcp");
            },
            Protocol::UDP => {
                r.append("/udp");
            },
            _ => {},
        }
        r
    }
}

/// Case-insensitive port parsing: any `"<port>/<protocol>"` text whose
/// protocol token is some ASCII spelling of "tcp" parses to `TCP`.
pub proof fn lemma_parse_socket_tcp_case_insensitive(s: Seq<char>)
    requires
        split_on(s, '/').len() == 2,
        parse_u16_spec(split_on(s, '/')[0]) is Some,
        ci_eq(split_on(s, '/')[1], "tcp"@),
    ensures
        parse_socket(s) is Ok,
        parse_socket(s)->Ok_0.protocol == ProtocolView::TCP,
        parse_u16_spec(split_on(s, '/')[0]) == Option::Some(parse_socket(s)->Ok_0.port),
{
}

/// A socket without an explicit protocol formats as the bare decimal port,
/// with no suffix.
pub proof fn lemma_format_socket_all_bare(s: SocketView)
    requires
        s.protocol == ProtocolView::All,
    ensures
        format_socket(s) == dec_str(s.port as int),
{
}

/// An explicit TCP socket formats as the decimal port followed by `/tcp`.
pub proof fn lemma_format_socket_tcp_suffix(s: SocketView)
    requires
        s.protocol == ProtocolView::TCP,
    ensures
        format_socket(s) == dec_str(s.port as int) + "/tcp"@,
{
}

/// Socket parsing demands exactly one `/` in its input: any text with
/// fewer or more fails with `InvalidInput`.
pub proof fn lemma_parse_socket_needs_single_slash(s: Seq<char>)
    requires
        count_char(s, '/') != 1,
    ensures
        parse_socket(s) == Err::<SocketView, DockerErrorKind>(DockerErrorKind::InvalidInput),
{
    lemma_split_on_len(s, '/');
}

} // verus!
