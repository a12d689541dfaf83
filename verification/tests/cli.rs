use mufw::cli::{build_rule, fmt_target, limit_rule, needs_root, row_line, status_rows, Cmd, RuleArgs};
use mufw::error::Error;
use mufw::net::{IpAddress, IpNetwork};
use mufw::rule::{Action, PortSpec, Proto, Rule, Target};

fn args(proto: &str) -> RuleArgs {
    RuleArgs { proto: proto.to_string(), ..Default::default() }
}

#[test]
fn only_status_and_list_run_without_root() {
    assert!(!needs_root(&Cmd::Status { numbered: true, verbose: false }));
    assert!(!needs_root(&Cmd::List));
    assert!(needs_root(&Cmd::Enable));
    assert!(needs_root(&Cmd::Disable));
    assert!(needs_root(&Cmd::Reload));
    assert!(needs_root(&Cmd::Reset));
    assert!(needs_root(&Cmd::Allow(args("any"))));
    assert!(needs_root(&Cmd::Deny(args("any"))));
    assert!(needs_root(&Cmd::Limit { port: 22 }));
    assert!(needs_root(&Cmd::Delete { id: 1 }));
}

#[test]
fn shorthand_port_and_proto() {
    let mut a = args("any");
    a.target = Some("443/tcp".into());
    let r = build_rule(Action::Allow, a).unwrap();
    assert_eq!(r.port, Some(PortSpec::single(443)));
    assert_eq!(r.proto, Proto::Tcp);
    assert_eq!(r.action, Action::Allow);
    assert_eq!(r.id, 0);
    assert!(r.enabled);

    let mut a = args("udp");
    a.target = Some("22".into());
    let r = build_rule(Action::Deny, a).unwrap();
    assert_eq!(r.port, Some(PortSpec::single(22)));
    assert_eq!(r.proto, Proto::Udp);
}

#[test]
fn port_option_overrides_shorthand() {
    // The shorthand excludes --from, --to and --port: together they are refused.
    let conflict = "the `<port>[/proto]` shorthand cannot be combined with --from, --to or --port";
    let mut a = args("tcp");
    a.target = Some("22".into());
    a.port = Some("80".into());
    assert!(matches!(build_rule(Action::Allow, a), Err(Error::InvalidRule(m)) if m == conflict));
    let mut a = args("tcp");
    a.target = Some("22".into());
    a.from = Some("10.0.0.1".into());
    assert!(matches!(build_rule(Action::Allow, a), Err(Error::InvalidRule(m)) if m == conflict));
    let mut a = args("tcp");
    a.target = Some("bogus".into());
    a.to = Some("any".into());
    assert!(matches!(build_rule(Action::Deny, a), Err(Error::InvalidRule(m)) if m == conflict));
}

#[test]
fn options_without_shorthand() {
    let mut a = args("tcp");
    a.port = Some("8000:9000".into());
    a.from = Some("192.168.1.0/24".into());
    a.to = Some("any".into());
    a.interface = Some("en0".into());
    a.comment = Some("web".into());
    let r = build_rule(Action::Allow, a).unwrap();
    assert_eq!(r.port, Some(PortSpec { from: 8000, to: 9000 }));
    assert_eq!(r.proto, Proto::Tcp);
    assert_eq!(r.src, Some(Target::Cidr(IpNetwork { addr: IpAddress::V4(192, 168, 1, 0), prefix_len: 24 })));
    assert_eq!(r.dst, Some(Target::Any));
    assert_eq!(r.interface.as_deref(), Some("en0"));
    assert_eq!(r.comment.as_deref(), Some("web"));
}

#[test]
fn build_rule_errors() {
    assert!(matches!(build_rule(Action::Allow, args("icmp")), Err(Error::InvalidRule(m)) if m == "unknown proto `icmp`"));
    let mut a = args("any");
    a.target = Some("ssh/tcp".into());
    assert!(matches!(build_rule(Action::Allow, a), Err(Error::InvalidRule(m)) if m == "bad port `ssh`"));
    let mut a = args("any");
    a.target = Some("22/sctp".into());
    assert!(matches!(build_rule(Action::Allow, a), Err(Error::InvalidRule(m)) if m == "unknown proto `sctp`"));
    let mut a = args("any");
    a.from = Some("203.0.113.666".into());
    assert!(matches!(build_rule(Action::Deny, a), Err(Error::InvalidRule(m)) if m == "invalid target `203.0.113.666`"));
}

#[test]
fn build_rule_without_port() {
    let mut a = args("any");
    a.from = Some("203.0.113.66".into());
    let r = build_rule(Action::Deny, a).unwrap();
    assert_eq!(r.port, None);
    assert_eq!(r.src, Some(Target::Host(IpAddress::V4(203, 0, 113, 66))));
    assert_eq!(r.dst, None);
    assert_eq!(r.proto, Proto::Any);
}

#[test]
fn limit_rule_shape() {
    let r = limit_rule(22);
    assert_eq!(r.action, Action::Limit);
    assert_eq!(r.proto, Proto::Tcp);
    assert_eq!(r.port, Some(PortSpec::single(22)));
    assert_eq!(r.comment.as_deref(), Some("rate-limit :22"));
    assert!(r.validate().is_ok());
}

#[test]
fn target_text() {
    assert_eq!(fmt_target(&Target::Any), "any");
    assert_eq!(fmt_target(&Target::Host(IpAddress::V4(1, 2, 3, 4))), "1.2.3.4");
    assert_eq!(fmt_target(&Target::Host(IpAddress::V6(1))), "::1");
    assert_eq!(
        fmt_target(&Target::Cidr(IpNetwork { addr: IpAddress::V4(10, 0, 0, 0), prefix_len: 8 })),
        "10.0.0.0/8"
    );
    assert_eq!(
        fmt_target(&Target::Cidr(IpNetwork { addr: IpAddress::V6(0xfd00u128 << 112), prefix_len: 8 })),
        "fd00::/8"
    );
}

#[test]
fn status_rows_and_lines() {
    let rules = vec![
        Rule {
            id: 1,
            action: Action::Allow,
            proto: Proto::Tcp,
            src: None,
            dst: None,
            port: Some(PortSpec::single(22)),
            interface: None,
            comment: Some("ssh".into()),
            enabled: true,
        },
        Rule {
            id: 2,
            action: Action::Deny,
            proto: Proto::Any,
            src: Some(Target::Host(IpAddress::V4(203, 0, 113, 66))),
            dst: Some(Target::Cidr(IpNetwork { addr: IpAddress::V4(10, 0, 0, 0), prefix_len: 8 })),
            port: Some(PortSpec { from: 8000, to: 9000 }),
            interface: None,
            comment: None,
            enabled: false,
        },
    ];
    let rows = status_rows(&rules);
    assert_eq!(rows.len(), 2);
    assert_eq!(rows[0].id, 1);
    assert_eq!(rows[0].action, "allow");
    assert_eq!(rows[0].proto, "tcp");
    assert_eq!(rows[0].src, "any");
    assert_eq!(rows[0].dst, "any");
    assert_eq!(rows[0].port, "22");
    assert_eq!(rows[0].comment, "ssh");
    assert_eq!(rows[1].src, "203.0.113.66");
    assert_eq!(rows[1].dst, "10.0.0.0/8");
    assert_eq!(rows[1].port, "8000:9000");
    assert_eq!(rows[1].comment, "");
    assert_eq!(row_line(&rows[0]), "allow tcp any 22 ssh");
    assert_eq!(row_line(&rows[1]), "deny any 203.0.113.66 8000:9000 ");
    let no_port = Rule { port: None, ..rules[0].clone() };
    assert_eq!(status_rows(&vec![no_port])[0].port, "-");
}
