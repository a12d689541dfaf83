//! The rule model: actions, protocols, targets, port ranges and rules, with
//! the text forms that users write for them.

use vstd::prelude::*;

use crate::error::Error;
use crate::error::ErrorView;
use crate::error::Result;
use crate::error::result_view;
use crate::net::IpAddress;
use crate::net::IpNetwork;
use crate::net::ip_addr_parse;
use crate::net::ip_net_parse;
use crate::net::parse_ip_addr;
use crate::net::parse_ip_net;
use crate::text::dec_text;
use crate::text::decimal_string;
use crate::text::lemma_dec_text;
use crate::text::lemma_parse_dec_text_u16;
use crate::text::is_digit;
use crate::text::is_first_index;
use crate::text::lower_ascii;
use crate::text::lower_char;
use crate::text::parse_u16;
use crate::text::spec_parse_u16;
use crate::text::spec_split_once;
use crate::text::split_once;
use crate::text::str_eq;
use crate::text::to_ascii_lowercase;

verus! {

/// What a rule does with the traffic it matches.
#[derive(Clone, Copy, Debug, PartialEq, Eq, Structural)]
pub enum Action {
    Allow,
    Deny,
    /// Rate-limit new connections (pf `max-src-conn-rate` + overload table).
    Limit,
}

/// The transport protocol a rule matches.
#[derive(Clone, Copy, Debug, PartialEq, Eq, Structural)]
pub enum Proto {
    Tcp,
    Udp,
    Any,
}

/// What `Proto::parse` gives for a text.
pub open spec fn spec_proto_parse(s: Seq<char>) -> std::result::Result<Proto, ErrorView> {
    let l = lower_ascii(s);
    if l == "tcp"@ {
        Ok(Proto::Tcp)
    } else if l == "udp"@ {
        Ok(Proto::Udp)
    } else if l.len() == 0 || l == "any"@ {
        Ok(Proto::Any)
    } else {
        Err(ErrorView::InvalidRule("unknown proto `"@ + l + "`"@))
    }
}

/// The name of an action, in small letters.
pub open spec fn action_name(a: Action) -> Seq<char> {
    match a {
        Action::Allow => "allow"@,
        Action::Deny => "deny"@,
        Action::Limit => "limit"@,
    }
}

/// The name of a protocol, in small letters.
pub open spec fn proto_name(p: Proto) -> Seq<char> {
    match p {
        Proto::Tcp => "tcp"@,
        Proto::Udp => "udp"@,
        Proto::Any => "any"@,
    }
}

impl Action {
    /// The name of this action in small letters: `allow`, `deny` or `limit`.
    pub fn name(&self) -> (s: String)
        ensures
            s@ == action_name(*self),
            *self == Action::Allow ==> s@ == "allow"@,
            *self == Action::Deny ==> s@ == "deny"@,
            *self == Action::Limit ==> s@ == "limit"@,
    {
        match self {
            Action::Allow => "allow".to_owned(),
            Action::Deny => "deny".to_owned(),
            Action::Limit => "limit".to_owned(),
        }
    }
}

impl Proto {
    /// Reads a protocol, ignoring ASCII case: `tcp`, `udp`, and `any` or
    /// nothing for any protocol.
    pub fn parse(s: &str) -> (r: Result<Proto>)
        ensures
            result_view(r) == spec_proto_parse(s@),
    {
        let lower = to_ascii_lowercase(s);
        if str_eq(lower.as_str(), "tcp") {
            Ok(Proto::Tcp)
        } else if str_eq(lower.as_str(), "udp") {
            Ok(Proto::Udp)
        } else if lower.as_str().unicode_len() == 0 || str_eq(lower.as_str(), "any") {
            Ok(Proto::Any)
        } else {
            let mut m = "unknown proto `".to_owned();
            m.append(lower.as_str());
            m.append("`");
            Err(Error::InvalidRule(m))
        }
    }

    /// The name of this protocol in small letters: `tcp`, `udp` or `any`.
    pub fn name(&self) -> (s: String)
        ensures
            s@ == proto_name(*self),
            *self == Proto::Tcp ==> s@ == "tcp"@,
            *self == Proto::Udp ==> s@ == "udp"@,
            *self == Proto::Any ==> s@ == "any"@,
    {
        match self {
            Proto::Tcp => "tcp".to_owned(),
            Proto::Udp => "udp".to_owned(),
            Proto::Any => "any".to_owned(),
        }
    }
}

/// The protocol that a rule without one matches: any.
pub fn default_proto() -> (p: Proto)
    ensures
        p == Proto::Any,
{
    Proto::Any
}

/// The value a rule's `enabled` flag takes when it is not given: true.
pub fn yes() -> (b: bool)
    ensures
        b,
{
    true
}

/// Folding the ASCII case twice is folding it once.
proof fn lemma_lower_ascii_idempotent(s: Seq<char>)
    ensures
        lower_ascii(lower_ascii(s)) == lower_ascii(s),
{
    assert forall|i: int| 0 <= i < s.len() implies lower_char(lower_char(s[i])) == lower_char(s[i]) by {}
    assert(lower_ascii(lower_ascii(s)) =~= lower_ascii(s));
}

/// Reading a protocol ignores the ASCII case of the text: the text and its
/// small-letter form read the same.
pub proof fn law_proto_parse_ignores_case(s: Seq<char>)
    ensures
        spec_proto_parse(s) == spec_proto_parse(lower_ascii(s)),
{
    lemma_lower_ascii_idempotent(s);
}

/// The source or destination that a rule matches.
#[derive(Clone, Copy, Debug, PartialEq, Eq, Structural)]
pub enum Target {
    Any,
    Cidr(IpNetwork),
    Host(IpAddress),
}

impl Target {
    /// A network target has a prefix that fits its address.
    pub open spec fn wf(&self) -> bool {
        match self {
            Target::Cidr(n) => n.wf(),
            _ => true,
        }
    }
}

/// What a target text gives, from what the network reader (`net`) and the
/// address reader (`host`) made of it: `any` in any ASCII case first, then a
/// network, then a single address.
pub open spec fn spec_target_from(
    s: Seq<char>,
    net: Option<IpNetwork>,
    host: Option<IpAddress>,
) -> std::result::Result<Target, ErrorView> {
    if lower_ascii(s) == "any"@ {
        Ok(Target::Any)
    } else if net is Some {
        Ok(Target::Cidr(net->0))
    } else if host is Some {
        Ok(Target::Host(host->0))
    } else {
        Err(ErrorView::InvalidRule("invalid target `"@ + s + "`"@))
    }
}

/// What `Target::parse` gives for a text.
pub open spec fn spec_target_parse(s: Seq<char>) -> std::result::Result<Target, ErrorView> {
    spec_target_from(s, ip_net_parse(s), ip_addr_parse(s))
}

impl Target {
    /// Decides a target from its text and from what the network reader and
    /// the address reader made of that text.
    pub fn from_parsed(s: &str, net: Option<IpNetwork>, host: Option<IpAddress>) -> (r: Result<Target>)
        ensures
            result_view(r) == spec_target_from(s@, net, host),
    {
        let lower = to_ascii_lowercase(s);
        if str_eq(lower.as_str(), "any") {
            return Ok(Target::Any);
        }
        match net {
            Some(n) => Ok(Target::Cidr(n)),
            None => match host {
                Some(a) => Ok(Target::Host(a)),
                None => {
                    let mut m = "invalid target `".to_owned();
                    m.append(s);
                    m.append("`");
                    Err(Error::InvalidRule(m))
                },
            },
        }
    }

    /// Reads a target: `any` (in any ASCII case), a network such as
    /// `10.0.0.0/8`, or a single address such as `1.2.3.4`.
    pub fn parse(s: &str) -> (r: Result<Target>)
        ensures
            result_view(r) == spec_target_parse(s@),
            r matches Ok(t) ==> t.wf(),
    {
        let lower = to_ascii_lowercase(s);
        if str_eq(lower.as_str(), "any") {
            return Ok(Target::Any);
        }
        let net = parse_ip_net(s);
        if net.is_some() {
            return Target::from_parsed(s, net, None);
        }
        let host = parse_ip_addr(s);
        Target::from_parsed(s, net, host)
    }
}

/// A destination port, or an inclusive range of them.
#[derive(Clone, Copy, Debug, PartialEq, Eq, Structural)]
pub struct PortSpec {
    pub from: u16,
    pub to: u16,
}

/// The error for a port text that is no number.
pub open spec fn bad_port(s: Seq<char>) -> ErrorView {
    ErrorView::InvalidRule("bad port `"@ + s + "`"@)
}

/// What `PortSpec::parse` gives for a text: `from:to`, or a single port.
pub open spec fn spec_port_parse(s: Seq<char>) -> std::result::Result<PortSpec, ErrorView> {
    match spec_split_once(s, ':') {
        Some((a, b)) => match spec_parse_u16(a) {
            None => Err(bad_port(a)),
            Some(from) => match spec_parse_u16(b) {
                None => Err(bad_port(b)),
                Some(to) => if from > to {
                    Err(ErrorView::InvalidRule("port range reversed"@))
                } else {
                    Ok(PortSpec { from, to })
                },
            },
        },
        None => match spec_parse_u16(s) {
            Some(p) => Ok(PortSpec { from: p, to: p }),
            None => Err(bad_port(s)),
        },
    }
}

/// The text of a port range: one number if it holds a single port, else
/// `from:to`.
pub open spec fn port_text(p: PortSpec) -> Seq<char> {
    if p.from == p.to {
        dec_text(p.from as nat)
    } else {
        dec_text(p.from as nat) + seq![':'] + dec_text(p.to as nat)
    }
}

impl PortSpec {
    /// The range that holds the one port `p`.
    pub fn single(p: u16) -> (r: Self)
        ensures
            r == (PortSpec { from: p, to: p }),
    {
        Self { from: p, to: p }
    }

    /// Reads a port (`22`) or a range of ports (`8000:9000`).
    pub fn parse(s: &str) -> (r: Result<Self>)
        ensures
            result_view(r) == spec_port_parse(s@),
    {
        match split_once(s, ':') {
            Some((a, b)) => {
                let from = match parse_u16(a) {
                    Some(v) => v,
                    None => {
                        let mut m = "bad port `".to_owned();
                        m.append(a);
                        m.append("`");
                        return Err(Error::InvalidRule(m));
                    },
                };
                let to = match parse_u16(b) {
                    Some(v) => v,
                    None => {
                        let mut m = "bad port `".to_owned();
                        m.append(b);
                        m.append("`");
                        return Err(Error::InvalidRule(m));
                    },
                };
                if from > to {
                    return Err(Error::InvalidRule("port range reversed".to_owned()));
                }
                Ok(Self { from, to })
            },
            None => match parse_u16(s) {
                Some(p) => Ok(Self::single(p)),
                None => {
                    let mut m = "bad port `".to_owned();
                    m.append(s);
                    m.append("`");
                    Err(Error::InvalidRule(m))
                },
            },
        }
    }

    /// The text of this range: `22`, or `8000:9000`.
    pub fn to_string(&self) -> (s: String)
        ensures
            s@ == port_text(*self),
    {
        let mut s = decimal_string(self.from as u32);
        if self.from != self.to {
            proof {
                reveal_strlit(":");
            }
            s.append(":");
            let t = decimal_string(self.to as u32);
            s.append(t.as_str());
        }
        s
    }
}

/// A range read from text never runs backwards.
pub proof fn law_parsed_port_range_ordered(s: Seq<char>)
    ensures
        spec_port_parse(s) matches Ok(p) ==> p.from <= p.to,
{
}

/// Reading back the text of a port range gives the range, for every range
/// that does not run backwards.
pub proof fn law_port_text_roundtrip(p: PortSpec)
    requires
        p.from <= p.to,
    ensures
        spec_port_parse(port_text(p)) == Ok::<PortSpec, ErrorView>(p),
{
    let a = dec_text(p.from as nat);
    let b = dec_text(p.to as nat);
    lemma_dec_text(p.from as nat);
    lemma_dec_text(p.to as nat);
    lemma_parse_dec_text_u16(p.from);
    lemma_parse_dec_text_u16(p.to);
    if p.from == p.to {
        assert(!a.contains(':')) by {
            if a.contains(':') {
                let i = choose|i: int| 0 <= i < a.len() && a[i] == ':';
                assert(is_digit(a[i]));
            }
        }
    } else {
        let t = a + seq![':'] + b;
        let k = a.len() as int;
        assert(t[k] == ':');
        assert forall|j: int| 0 <= j < k implies t[j] != ':' by {
            assert(t[j] == a[j]);
            assert(is_digit(a[j]));
        }
        assert(is_first_index(t, ':', k));
        let c = choose|i: int| is_first_index(t, ':', i);
        assert(is_first_index(t, ':', c));
        if c < k {
            assert(t[c] != ':');
        }
        if k < c {
            assert(t[k] != ':');
        }
        assert(t.take(k) =~= a);
        assert(t.skip(k + 1) =~= b);
    }
}

/// A user-facing firewall rule.
#[derive(Clone, Debug)]
pub struct Rule {
    /// Stable id, assigned by the store on insertion.
    pub id: u32,
    pub action: Action,
    pub proto: Proto,
    pub src: Option<Target>,
    pub dst: Option<Target>,
    pub port: Option<PortSpec>,
    pub interface: Option<String>,
    pub comment: Option<String>,
    pub enabled: bool,
}

/// A rule with its texts as characters.
pub struct RuleView {
    pub id: u32,
    pub action: Action,
    pub proto: Proto,
    pub src: Option<Target>,
    pub dst: Option<Target>,
    pub port: Option<PortSpec>,
    pub interface: Option<Seq<char>>,
    pub comment: Option<Seq<char>>,
    pub enabled: bool,
}

/// An optional text as characters.
pub open spec fn opt_text(s: Option<String>) -> Option<Seq<char>> {
    match s {
        Some(t) => Some(t@),
        None => None,
    }
}

impl View for Rule {
    type V = RuleView;

    open spec fn view(&self) -> RuleView {
        RuleView {
            id: self.id,
            action: self.action,
            proto: self.proto,
            src: self.src,
            dst: self.dst,
            port: self.port,
            interface: opt_text(self.interface),
            comment: opt_text(self.comment),
            enabled: self.enabled,
        }
    }
}

impl RuleView {
    /// The source and destination targets are well formed.
    pub open spec fn wf(&self) -> bool {
        &&& (self.src matches Some(t) ==> t.wf())
        &&& (self.dst matches Some(t) ==> t.wf())
    }
}

/// What `Rule::validate` gives for a rule: a rate limit needs a port.
pub open spec fn spec_validate(r: RuleView) -> std::result::Result<(), ErrorView> {
    if r.action == Action::Limit && r.port is None {
        Err(ErrorView::InvalidRule("limit rules require a port"@))
    } else {
        Ok(())
    }
}

impl Rule {
    /// Checks that the rule can be applied: a rate limit needs a port.
    pub fn validate(&self) -> (r: Result<()>)
        ensures
            result_view(r) == spec_validate(self@),
    {
        if self.action == Action::Limit && self.port.is_none() {
            return Err(Error::InvalidRule("limit rules require a port".to_owned()));
        }
        Ok(())
    }
}


/// The listed names of actions are their lowercase variant names, and so
/// tell every two actions apart.
pub proof fn law_action_names_distinct(a: Action, b: Action)
    ensures
        action_name(Action::Allow) == "allow"@,
        action_name(Action::Deny) == "deny"@,
        action_name(Action::Limit) == "limit"@,
        action_name(a) == action_name(b) ==> a == b,
{
    reveal_strlit("allow");
    reveal_strlit("deny");
    reveal_strlit("limit");
    if a != b {
        assert(action_name(a)[0] != action_name(b)[0] || action_name(a).len() != action_name(b).len());
    }
}

/// The listed names of protocols are their lowercase variant names, and so
/// tell every two protocols apart.
pub proof fn law_proto_names_distinct(a: Proto, b: Proto)
    ensures
        proto_name(Proto::Tcp) == "tcp"@,
        proto_name(Proto::Udp) == "udp"@,
        proto_name(Proto::Any) == "any"@,
        proto_name(a) == proto_name(b) ==> a == b,
{
    reveal_strlit("tcp");
    reveal_strlit("udp");
    reveal_strlit("any");
    if a != b {
        assert(proto_name(a)[0] != proto_name(b)[0]);
    }
}

}
