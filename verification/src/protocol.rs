//! The transport protocol of a published socket, as the runtime reports it.

use vstd::prelude::*;
use vstd::string::*;
use crate::text::ci_eq;
use crate::text::eq_ignore_case;

verus! {

/// A closed protocol vocabulary with an open-world escape hatch: tokens the
/// runtime reports that are neither `tcp` nor `udp` are preserved verbatim in
/// `Other`, and `All` stands for "no explicit protocol".
#[derive(Debug, PartialEq, Eq)]
pub enum Protocol {
    All,
    Other(String),
    TCP,
    UDP,
}

pub ghost enum ProtocolView {
    All,
    Other(Seq<char>),
    TCP,
    UDP,
}

impl View for Protocol {
    type V = ProtocolView;

    open spec fn view(&self) -> ProtocolView {
        match self {
            Protocol::All => ProtocolView::All,
            Protocol::Other(s) => ProtocolView::Other(s@),
            Protocol::TCP => ProtocolView::TCP,
            Protocol::UDP => ProtocolView::UDP,
        }
    }
}

impl Clone for Protocol {
    fn clone(&self) -> (res: Self)
        ensures
            res == *self,
    {
        match self {
            Protocol::All => Protocol::All,
            Protocol::Other(s) => Protocol::Other(s.clone()),
            Protocol::TCP => Protocol::TCP,
            Protocol::UDP => Protocol::UDP,
        }
    }
}

/// How a protocol token from the runtime is interpreted: `tcp` and `udp` in
/// any ASCII case, any other non-empty token preserved verbatim, and an
/// empty token meaning "no explicit protocol".
pub open spec fn parse_protocol(s: Seq<char>) -> ProtocolView {
    if ci_eq(s, "tcp"@) {
        ProtocolView::TCP
    } else if ci_eq(s, "udp"@) {
        ProtocolView::UDP
    } else if s.len() > 0 {
        ProtocolView::Other(s)
    } else {
        ProtocolView::All
    }
}

/// The textual form a runtime command expects: `tcp`/`udp`, an `Other` token
/// verbatim, and nothing at all for `All`.
pub open spec fn protocol_str(p: ProtocolView) -> Seq<char> {
    match p {
        ProtocolView::UDP => "udp"@,
        ProtocolView::TCP => "tcp"@,
        ProtocolView::Other(s) => s,
        ProtocolView::All => Seq::<char>::empty(),
    }
}

impl Protocol {
    /// Interprets one protocol token reported by the runtime.
    pub fn parse(token: &str) -> (r: Protocol)
        ensures
            r@ == parse_protocol(token@),
    {
        if eq_ignore_case(token, "tcp") {
            Protocol::TCP
        } else if eq_ignore_case(token, "udp") {
            Protocol::UDP
        } else if token.unicode_len() > 0 {
            Protocol::Other(token.to_owned())
        } else {
            Protocol::All
        }
    }

    /// Renders the protocol for a runtime command line.
    pub fn format(&self) -> (r: String)
        ensures
            r@ == protocol_str(self@),
    {
        match self {
            Protocol::UDP => String::from_str("udp"),
            Protocol::TCP => String::from_str("tcp"),
            Protocol::Other(s) => s.clone(),
            Protocol::All => String::new(),
        }
    }
}

/// Protocol tokens are matched up to ASCII case: every spelling of "tcp"
/// is interpreted as `TCP`.
pub proof fn lemma_parse_protocol_case_insensitive(s: Seq<char>)
    requires
        ci_eq(s, "tcp"@),
    ensures
        parse_protocol(s) == ProtocolView::TCP,
{
}

} // verus!
