use mufw::error::Error;
use mufw::net::{IpAddress, IpNetwork};
use mufw::rule::{default_proto, yes, Action, PortSpec, Proto, Rule, Target};

fn invalid(r: Result<impl std::fmt::Debug, Error>) -> String {
    match r {
        Err(Error::InvalidRule(m)) => m,
        other => panic!("expected an invalid rule, got {:?}", other),
    }
}

#[test]
fn parses_ports() {
    assert_eq!(PortSpec::parse("22").unwrap(), PortSpec::single(22));
    assert_eq!(PortSpec::parse("8000:9000").unwrap(), PortSpec { from: 8000, to: 9000 });
    assert!(PortSpec::parse("abc").is_err());
}

#[test]
fn parses_targets() {
    assert!(matches!(Target::parse("any").unwrap(), Target::Any));
    assert!(matches!(Target::parse("10.0.0.0/8").unwrap(), Target::Cidr(_)));
    assert!(matches!(Target::parse("1.2.3.4").unwrap(), Target::Host(_)));
    assert!(Target::parse("bogus").is_err());
}

#[test]
fn target_values() {
    assert_eq!(Target::parse("ANY").unwrap(), Target::Any);
    assert_eq!(
        Target::parse("10.0.0.0/8").unwrap(),
        Target::Cidr(IpNetwork { addr: IpAddress::V4(10, 0, 0, 0), prefix_len: 8 })
    );
    assert_eq!(Target::parse("1.2.3.4").unwrap(), Target::Host(IpAddress::V4(1, 2, 3, 4)));
    assert_eq!(Target::parse("::1").unwrap(), Target::Host(IpAddress::V6(1)));
    assert_eq!(
        Target::parse("fd00::/8").unwrap(),
        Target::Cidr(IpNetwork { addr: IpAddress::V6(0xfd00u128 << 112), prefix_len: 8 })
    );
    assert_eq!(invalid(Target::parse("bogus")), "invalid target `bogus`");
    assert_eq!(invalid(Target::parse("10.0.0.0/33")), "invalid target `10.0.0.0/33`");
    assert_eq!(invalid(Target::parse("")), "invalid target ``");
}

#[test]
fn target_from_parsed_decides_in_order() {
    let net = IpNetwork { addr: IpAddress::V4(192, 168, 1, 0), prefix_len: 24 };
    let host = IpAddress::V4(192, 168, 1, 7);
    assert_eq!(Target::from_parsed("aNy", Some(net), Some(host)).unwrap(), Target::Any);
    assert_eq!(Target::from_parsed("x", Some(net), Some(host)).unwrap(), Target::Cidr(net));
    assert_eq!(Target::from_parsed("x", None, Some(host)).unwrap(), Target::Host(host));
    assert_eq!(invalid(Target::from_parsed("x", None, None)), "invalid target `x`");
}

#[test]
fn port_errors() {
    assert_eq!(invalid(PortSpec::parse("abc")), "bad port `abc`");
    assert_eq!(invalid(PortSpec::parse("9000:8000")), "port range reversed");
    assert_eq!(invalid(PortSpec::parse("x:80")), "bad port `x`");
    assert_eq!(invalid(PortSpec::parse("80:")), "bad port ``");
    assert_eq!(invalid(PortSpec::parse("65536")), "bad port `65536`");
    assert_eq!(invalid(PortSpec::parse("-1")), "bad port `-1`");
    assert_eq!(invalid(PortSpec::parse("+")), "bad port `+`");
    assert_eq!(invalid(PortSpec::parse("")), "bad port ``");
    assert_eq!(invalid(PortSpec::parse(" 22")), "bad port ` 22`");
    assert_eq!(invalid(PortSpec::parse("1:2:3")), "bad port `2:3`");
}

#[test]
fn port_edges() {
    assert_eq!(PortSpec::parse("65535").unwrap(), PortSpec::single(65535));
    assert_eq!(PortSpec::parse("0").unwrap(), PortSpec::single(0));
    assert_eq!(PortSpec::parse("+22").unwrap(), PortSpec::single(22));
    assert_eq!(PortSpec::parse("0022").unwrap(), PortSpec::single(22));
    assert_eq!(PortSpec::parse("80:80").unwrap(), PortSpec { from: 80, to: 80 });
    assert_eq!(PortSpec::parse("00000000000000000080").unwrap(), PortSpec::single(80));
}

#[test]
fn port_text_and_roundtrip() {
    assert_eq!(PortSpec::single(22).to_string(), "22");
    assert_eq!(PortSpec { from: 8000, to: 9000 }.to_string(), "8000:9000");
    assert_eq!(PortSpec { from: 0, to: 65535 }.to_string(), "0:65535");
    for p in [PortSpec::single(0), PortSpec::single(443), PortSpec { from: 1, to: 65535 }, PortSpec { from: 10, to: 99 }] {
        assert_eq!(PortSpec::parse(&p.to_string()).unwrap(), p);
    }
}

#[test]
fn parses_protos() {
    assert_eq!(Proto::parse("tcp").unwrap(), Proto::Tcp);
    assert_eq!(Proto::parse("UDP").unwrap(), Proto::Udp);
    assert_eq!(Proto::parse("").unwrap(), Proto::Any);
    assert_eq!(Proto::parse("Any").unwrap(), Proto::Any);
    assert_eq!(invalid(Proto::parse("ICMP")), "unknown proto `icmp`");
    assert_eq!(invalid(Proto::parse("tcp ")), "unknown proto `tcp `");
    assert_eq!(Proto::Udp.name(), "udp");
    assert_eq!(Action::Deny.name(), "deny");
    assert_eq!(default_proto(), Proto::Any);
    assert!(yes());
}

fn rule(action: Action, port: Option<PortSpec>) -> Rule {
    Rule {
        id: 0,
        action,
        proto: Proto::Tcp,
        src: None,
        dst: None,
        port,
        interface: None,
        comment: None,
        enabled: true,
    }
}

#[test]
fn limit_rules_need_a_port() {
    assert_eq!(invalid(rule(Action::Limit, None).validate()), "limit rules require a port");
    assert!(rule(Action::Limit, Some(PortSpec::single(22))).validate().is_ok());
    assert!(rule(Action::Allow, None).validate().is_ok());
    assert!(rule(Action::Deny, None).validate().is_ok());
}

#[test]
fn error_messages() {
    assert_eq!(Error::InvalidRule("x".into()).message(), "invalid rule: x");
    assert_eq!(Error::RuleNotFound(7).message(), "rule #7 not found");
    assert_eq!(Error::NotEnabled.message(), "pf not enabled \u{2014} run `mufw enable` first");
    assert_eq!(
        Error::PermissionDenied.message(),
        "permission denied \u{2014} mufw must run as root (try `sudo`)"
    );
}
