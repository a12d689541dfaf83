//! The decisions of the command-line front end: which commands need root,
//! how command arguments become a rule, and how rules are listed.

use vstd::prelude::*;

use crate::error::Error;
use crate::error::ErrorView;
use crate::error::Result;
use crate::error::result_view;
use crate::net::ip_addr_to_string;
use crate::net::addr_text;
use crate::net::ip_net_text;
use crate::net::ip_net_to_string;
use crate::rule::Action;
use crate::rule::PortSpec;
use crate::rule::Proto;
use crate::rule::Rule;
use crate::rule::RuleView;
use crate::rule::Target;
use crate::rule::action_name;
use crate::rule::opt_text;
use crate::rule::port_text;
use crate::rule::proto_name;
use crate::rule::spec_port_parse;
use crate::rule::spec_proto_parse;
use crate::rule::spec_target_parse;
use crate::rule::spec_validate;
use crate::store::rules_view;
use crate::store::StoreView;
use crate::store::ids_below_next;
use crate::store::law_add_assigns_fresh_id;
use crate::store::law_ordered_contains_enabled;
use crate::store::spec_add;
use crate::store::spec_ordered;
use crate::store::with_id;
use crate::text::dec_text;
use crate::text::decimal_string;
use crate::text::spec_split_once;
use crate::text::split_once;

verus! {

/// The arguments of `allow` and `deny`, as the user typed them.
#[derive(Debug, Default)]
pub struct RuleArgs {
    /// Shorthand: `<port>[/tcp|/udp]`.
    pub target: Option<String>,
    /// Source (IP, CIDR, or `any`).
    pub from: Option<String>,
    /// Destination (IP, CIDR, or `any`).
    pub to: Option<String>,
    /// Destination port or `from:to` range.
    pub port: Option<String>,
    /// Protocol: tcp, udp, any.
    pub proto: String,
    /// Interface to bind the rule to (e.g. en0).
    pub interface: Option<String>,
    /// Free-form comment.
    pub comment: Option<String>,
}

/// The arguments of a rule command, with their texts as characters.
pub struct RuleArgsView {
    pub target: Option<Seq<char>>,
    pub from: Option<Seq<char>>,
    pub to: Option<Seq<char>>,
    pub port: Option<Seq<char>>,
    pub proto: Seq<char>,
    pub interface: Option<Seq<char>>,
    pub comment: Option<Seq<char>>,
}

impl View for RuleArgs {
    type V = RuleArgsView;

    open spec fn view(&self) -> RuleArgsView {
        RuleArgsView {
            target: opt_text(self.target),
            from: opt_text(self.from),
            to: opt_text(self.to),
            port: opt_text(self.port),
            proto: self.proto@,
            interface: opt_text(self.interface),
            comment: opt_text(self.comment),
        }
    }
}

/// A command of the front end.
#[derive(Debug)]
pub enum Cmd {
    /// Enable pf and load the rules.
    Enable,
    /// Disable pf.
    Disable,
    /// Reload the rules from disk.
    Reload,
    /// Remove all rules.
    Reset,
    /// Show the rule list and the pf status.
    Status { numbered: bool, verbose: bool },
    /// Allow traffic.
    Allow(RuleArgs),
    /// Deny traffic.
    Deny(RuleArgs),
    /// Rate-limit inbound connections on a port.
    Limit { port: u16 },
    /// Delete a rule by its id.
    Delete { id: u32 },
    /// List the rules.
    List,
}

/// Whether a command changes the firewall and so must run as root: all but
/// `status` and `list`.
pub fn needs_root(cmd: &Cmd) -> (r: bool)
    ensures
        r == !(cmd is Status || cmd is List),
{
    !matches!(cmd, Cmd::Status { .. } | Cmd::List)
}

/// The port text and the optional protocol text of a `<port>[/proto]` shorthand.
pub open spec fn shorthand_parts(t: Seq<char>) -> (Seq<char>, Option<Seq<char>>) {
    match spec_split_once(t, '/') {
        Some((p, s)) => (p, Some(s)),
        None => (t, None),
    }
}

/// The port and protocol after the shorthand argument, given the protocol
/// read so far.
pub open spec fn spec_shorthand(
    target: Option<Seq<char>>,
    proto: Proto,
) -> std::result::Result<(Option<PortSpec>, Proto), ErrorView> {
    match target {
        None => Ok((None, proto)),
        Some(t) => match spec_port_parse(shorthand_parts(t).0) {
            Err(e) => Err(e),
            Ok(port) => match shorthand_parts(t).1 {
                None => Ok((Some(port), proto)),
                Some(s) => match spec_proto_parse(s) {
                    Err(e) => Err(e),
                    Ok(p) => Ok((Some(port), p)),
                },
            },
        },
    }
}

/// The port after the `--port` argument, given the port read so far.
pub open spec fn spec_port_arg(
    arg: Option<Seq<char>>,
    current: Option<PortSpec>,
) -> std::result::Result<Option<PortSpec>, ErrorView> {
    match arg {
        None => Ok(current),
        Some(p) => match spec_port_parse(p) {
            Err(e) => Err(e),
            Ok(port) => Ok(Some(port)),
        },
    }
}

/// The target of a `--from` or `--to` argument.
pub open spec fn spec_target_arg(arg: Option<Seq<char>>) -> std::result::Result<Option<Target>, ErrorView> {
    match arg {
        None => Ok(None),
        Some(s) => match spec_target_parse(s) {
            Err(e) => Err(e),
            Ok(t) => Ok(Some(t)),
        },
    }
}

/// The error for a shorthand given together with `--from`, `--to` or `--port`.
pub open spec fn shorthand_conflict() -> ErrorView {
    ErrorView::InvalidRule("the `<port>[/proto]` shorthand cannot be combined with --from, --to or --port"@)
}

/// The shorthand is given together with one of the options it excludes.
pub open spec fn shorthand_conflicts(a: RuleArgsView) -> bool {
    a.target is Some && (a.from is Some || a.to is Some || a.port is Some)
}

/// The rule that `allow` or `deny` builds from its arguments. The shorthand
/// excludes `--from`, `--to` and `--port`; the protocol comes from `--proto`,
/// overridden by the shorthand's; the port from the shorthand or from
/// `--port`; the first error in that order.
pub open spec fn spec_build_rule(action: Action, a: RuleArgsView) -> std::result::Result<RuleView, ErrorView> {
    if shorthand_conflicts(a) {
        Err(shorthand_conflict())
    } else {
    match spec_proto_parse(a.proto) {
        Err(e) => Err(e),
        Ok(proto0) => match spec_shorthand(a.target, proto0) {
            Err(e) => Err(e),
            Ok((port0, proto)) => match spec_port_arg(a.port, port0) {
                Err(e) => Err(e),
                Ok(port) => match spec_target_arg(a.from) {
                    Err(e) => Err(e),
                    Ok(src) => match spec_target_arg(a.to) {
                        Err(e) => Err(e),
                        Ok(dst) => Ok(
                            RuleView {
                                id: 0,
                                action,
                                proto,
                                src,
                                dst,
                                port,
                                interface: a.interface,
                                comment: a.comment,
                                enabled: true,
                            },
                        ),
                    },
                },
            },
        },
    }
    }
}

/// A rule result with its rule and error taken by their views.
pub open spec fn rule_result_view(r: Result<Rule>) -> std::result::Result<RuleView, ErrorView> {
    match r {
        Ok(rule) => Ok(rule@),
        Err(e) => Err(e@),
    }
}

/// Reads the target of a `--from` or `--to` argument.
fn target_arg(arg: Option<String>) -> (r: Result<Option<Target>>)
    ensures
        result_view(r) == spec_target_arg(opt_text(arg)),
        r matches Ok(Some(t)) ==> t.wf(),
{
    match arg {
        None => Ok(None),
        Some(s) => match Target::parse(s.as_str()) {
            Err(e) => Err(e),
            Ok(t) => Ok(Some(t)),
        },
    }
}

/// Builds the rule of an `allow` or `deny` command from its arguments.
pub fn build_rule(action: Action, a: RuleArgs) -> (r: Result<Rule>)
    ensures
        rule_result_view(r) == spec_build_rule(action, a@),
        r matches Ok(rule) ==> rule@.wf(),
        r matches Ok(rule) ==> rule@.interface == a@.interface && rule@.comment == a@.comment
            && rule@.action == action && rule@.enabled && rule@.id == 0,
{
    if a.target.is_some() && (a.from.is_some() || a.to.is_some() || a.port.is_some()) {
        return Err(
            Error::InvalidRule(
                "the `<port>[/proto]` shorthand cannot be combined with --from, --to or --port".to_owned(),
            ),
        );
    }
    let mut proto = match Proto::parse(a.proto.as_str()) {
        Ok(p) => p,
        Err(e) => return Err(e),
    };
    let mut port: Option<PortSpec> = None;
    if let Some(shorthand) = a.target {
        let (p, proto_s) = match split_once(shorthand.as_str(), '/') {
            Some((p, s)) => (p, Some(s)),
            None => (shorthand.as_str(), None),
        };
        port = match PortSpec::parse(p) {
            Ok(v) => Some(v),
            Err(e) => return Err(e),
        };
        if let Some(s) = proto_s {
            proto = match Proto::parse(s) {
                Ok(v) => v,
                Err(e) => return Err(e),
            };
        }
    }
    if let Some(p) = a.port {
        port = match PortSpec::parse(p.as_str()) {
            Ok(v) => Some(v),
            Err(e) => return Err(e),
        };
    }
    let src = match target_arg(a.from) {
        Ok(t) => t,
        Err(e) => return Err(e),
    };
    let dst = match target_arg(a.to) {
        Ok(t) => t,
        Err(e) => return Err(e),
    };
    Ok(Rule {
        id: 0,
        action,
        proto,
        src,
        dst,
        port,
        interface: a.interface,
        comment: a.comment,
        enabled: true,
    })
}

/// The rule of a `limit` command: rate-limit TCP connections to `port`.
pub open spec fn spec_limit_rule(port: u16) -> RuleView {
    RuleView {
        id: 0,
        action: Action::Limit,
        proto: Proto::Tcp,
        src: None,
        dst: None,
        port: Some(PortSpec { from: port, to: port }),
        interface: None,
        comment: Some("rate-limit :"@ + dec_text(port as nat)),
        enabled: true,
    }
}

/// Builds the rule of a `limit` command.
pub fn limit_rule(port: u16) -> (r: Rule)
    ensures
        r@ == spec_limit_rule(port),
        r@.enabled,
        r@.action == Action::Limit,
        r@.proto == Proto::Tcp,
        r@.port == Some(PortSpec { from: port, to: port }),
        r@.src is None && r@.dst is None && r@.interface is None,
        r@.id == 0,
{
    let mut comment = "rate-limit :".to_owned();
    let n = decimal_string(port as u32);
    comment.append(n.as_str());
    Rule {
        id: 0,
        action: Action::Limit,
        proto: Proto::Tcp,
        src: None,
        dst: None,
        port: Some(PortSpec::single(port)),
        interface: None,
        comment: Some(comment),
        enabled: true,
    }
}

/// The text of a target: `any`, an address, or a network.
pub open spec fn target_text(t: Target) -> Seq<char> {
    match t {
        Target::Any => "any"@,
        Target::Host(a) => addr_text(a),
        Target::Cidr(n) => ip_net_text(n),
    }
}

/// Writes a target.
pub fn fmt_target(t: &Target) -> (s: String)
    requires
        t.wf(),
    ensures
        s@ == target_text(*t),
{
    match t {
        Target::Any => "any".to_owned(),
        Target::Host(a) => ip_addr_to_string(a),
        Target::Cidr(n) => ip_net_to_string(n),
    }
}

/// One line of the rule listing.
#[derive(Debug)]
pub struct Row {
    pub id: u32,
    pub action: String,
    pub proto: String,
    pub src: String,
    pub dst: String,
    pub port: String,
    pub comment: String,
}

/// A listing line with its texts as characters.
pub struct RowView {
    pub id: u32,
    pub action: Seq<char>,
    pub proto: Seq<char>,
    pub src: Seq<char>,
    pub dst: Seq<char>,
    pub port: Seq<char>,
    pub comment: Seq<char>,
}

impl View for Row {
    type V = RowView;

    open spec fn view(&self) -> RowView {
        RowView {
            id: self.id,
            action: self.action@,
            proto: self.proto@,
            src: self.src@,
            dst: self.dst@,
            port: self.port@,
            comment: self.comment@,
        }
    }
}

/// The text of an optional target: `any` when there is none.
pub open spec fn opt_target_text(t: Option<Target>) -> Seq<char> {
    match t {
        Some(t) => target_text(t),
        None => "any"@,
    }
}

/// The listing line of a rule: names in small letters, `any` for a missing
/// source or destination, `-` for a missing port, nothing for a missing comment.
pub open spec fn row_of(r: RuleView) -> RowView {
    RowView {
        id: r.id,
        action: action_name(r.action),
        proto: proto_name(r.proto),
        src: opt_target_text(r.src),
        dst: opt_target_text(r.dst),
        port: match r.port {
            Some(p) => port_text(p),
            None => "-"@,
        },
        comment: match r.comment {
            Some(c) => c,
            None => Seq::empty(),
        },
    }
}

fn opt_target_string(t: &Option<Target>) -> (s: String)
    requires
        t matches Some(x) ==> x.wf(),
    ensures
        s@ == opt_target_text(*t),
{
    match t {
        Some(x) => fmt_target(x),
        None => "any".to_owned(),
    }
}

/// The listing line of a rule.
pub fn row_of_rule(r: &Rule) -> (row: Row)
    requires
        r@.wf(),
    ensures
        row@ == row_of(r@),
{
    let port = match r.port {
        Some(p) => p.to_string(),
        None => "-".to_owned(),
    };
    let comment = match &r.comment {
        Some(c) => c.clone(),
        None => String::new(),
    };
    Row {
        id: r.id,
        action: r.action.name(),
        proto: r.proto.name(),
        src: opt_target_string(&r.src),
        dst: opt_target_string(&r.dst),
        port,
        comment,
    }
}

/// The listing of `rules`: one line per rule, in store order.
pub fn status_rows(rules: &Vec<Rule>) -> (rows: Vec<Row>)
    requires
        forall|i: int| 0 <= i < rules@.len() ==> (#[trigger] rules@[i])@.wf(),
    ensures
        rows@.map_values(|w: Row| w@) == rules_view(rules@).map_values(|r: RuleView| row_of(r)),
{
    let mut rows: Vec<Row> = Vec::new();
    let n = rules.len();
    let mut i: usize = 0;
    while i < n
        invariant
            i <= n,
            n == rules@.len(),
            forall|j: int| 0 <= j < rules@.len() ==> (#[trigger] rules@[j])@.wf(),
            rows@.len() == i,
            forall|j: int| 0 <= j < i ==> (#[trigger] rows@[j])@ == row_of(rules@[j]@),
        decreases n - i,
    {
        rows.push(row_of_rule(&rules[i]));
        i = i + 1;
    }
    assert(rows@.map_values(|w: Row| w@) =~= rules_view(rules@).map_values(|r: RuleView| row_of(r)));
    rows
}

/// The short listing line: action, protocol, source, port and comment,
/// separated by spaces.
pub open spec fn row_line_text(r: RowView) -> Seq<char> {
    r.action + " "@ + r.proto + " "@ + r.src + " "@ + r.port + " "@ + r.comment
}

/// Writes the short listing line of a row.
pub fn row_line(row: &Row) -> (s: String)
    ensures
        s@ == row_line_text(row@),
{
    let mut s = row.action.clone();
    s.append(" ");
    s.append(row.proto.as_str());
    s.append(" ");
    s.append(row.src.as_str());
    s.append(" ");
    s.append(row.port.as_str());
    s.append(" ");
    s.append(row.comment.as_str());
    s
}


/// A `limit` rule always carries its port, so the store never refuses it.
pub proof fn law_limit_rule_validates(port: u16)
    ensures
        spec_validate(spec_limit_rule(port)) is Ok,
        spec_limit_rule(port).wf(),
{
}

/// The rules of `allow` and `deny` are never rate limits, so the store
/// never refuses them; their targets are well formed.
pub proof fn law_built_rules_validate(action: Action, a: RuleArgsView)
    requires
        action != Action::Limit,
    ensures
        spec_build_rule(action, a) matches Ok(r) ==> spec_validate(r) is Ok && r.action == action && r.id == 0
            && r.enabled,
{
}


/// The shorthand excludes `--from`, `--to` and `--port`: given with any of
/// them, the command is refused.
pub proof fn law_shorthand_excludes_options(action: Action, a: RuleArgsView)
    ensures
        shorthand_conflicts(a) ==> spec_build_rule(action, a) == Err::<RuleView, ErrorView>(shorthand_conflict()),
        (spec_build_rule(action, a) is Ok && a.target is Some) ==> (a.port is None
            && spec_build_rule(action, a)->Ok_0.src is None && spec_build_rule(action, a)->Ok_0.dst is None),
{
}


/// A `limit` command builds an enabled TCP rate limit on exactly its port,
/// which the store accepts, and which then stands among the rules applied:
/// in the applied order, with the id the store gave it.
pub proof fn law_limit_rule_is_applied(s: StoreView, port: u16)
    requires
        ids_below_next(s),
        s.next_id < u32::MAX,
    ensures
        spec_limit_rule(port).enabled,
        spec_limit_rule(port).action == Action::Limit,
        spec_limit_rule(port).proto == Proto::Tcp,
        spec_limit_rule(port).port == Some(PortSpec { from: port, to: port }),
        spec_add(s, spec_limit_rule(port)).1 is Ok,
        spec_ordered(spec_add(s, spec_limit_rule(port)).0.rules).contains(
            with_id(spec_limit_rule(port), spec_add(s, spec_limit_rule(port)).1->Ok_0),
        ),
{
    let t = spec_add(s, spec_limit_rule(port)).0;
    let id = spec_add(s, spec_limit_rule(port)).1->Ok_0;
    let x = with_id(spec_limit_rule(port), id);
    law_add_assigns_fresh_id(s, spec_limit_rule(port));
    let k = (t.rules.len() - 1) as int;
    assert(t.rules[k] == x);
    assert(x.enabled && x.action == Action::Limit);
    law_ordered_contains_enabled(t.rules, k);
}

/// A rule built by `allow` or `deny` keeps exactly the `--interface` and
/// `--comment` that were given, with or without the shorthand, and is
/// enabled, with the command's action.
pub proof fn law_built_rule_keeps_interface_and_comment(action: Action, a: RuleArgsView)
    ensures
        spec_build_rule(action, a) is Ok ==> {
            let r = spec_build_rule(action, a)->Ok_0;
            &&& r.interface == a.interface
            &&& r.comment == a.comment
            &&& r.action == action
            &&& r.enabled
            &&& r.id == 0
        },
{
}

}
