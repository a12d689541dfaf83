use mufw::error::Error;
use mufw::rule::{Action, PortSpec, Proto, Rule};
use mufw::store::Store;

fn rule(action: Action, port: Option<u16>, enabled: bool, comment: &str) -> Rule {
    Rule {
        id: 0,
        action,
        proto: Proto::Tcp,
        src: None,
        dst: None,
        port: port.map(PortSpec::single),
        interface: None,
        comment: Some(comment.to_string()),
        enabled,
    }
}

fn comments(v: &[&Rule]) -> Vec<String> {
    v.iter().map(|r| r.comment.clone().unwrap()).collect()
}

#[test]
fn add_assigns_ids_from_one() {
    let mut s = Store::default();
    assert_eq!(s.add(rule(Action::Allow, Some(22), true, "ssh")).unwrap(), 1);
    assert_eq!(s.add(rule(Action::Deny, None, true, "all")).unwrap(), 2);
    assert_eq!(s.next_id, 3);
    assert_eq!(s.rules.len(), 2);
    assert_eq!(s.rules[0].id, 1);
    assert_eq!(s.rules[1].id, 2);
}

#[test]
fn add_continues_from_next_id() {
    let mut s = Store { rules: Vec::new(), next_id: 41 };
    assert_eq!(s.add(rule(Action::Allow, None, true, "a")).unwrap(), 41);
    assert_eq!(s.next_id, 42);
}

#[test]
fn add_refuses_limit_without_port() {
    let mut s = Store::default();
    match s.add(rule(Action::Limit, None, true, "x")) {
        Err(Error::InvalidRule(m)) => assert_eq!(m, "limit rules require a port"),
        other => panic!("{:?}", other),
    }
    assert!(s.rules.is_empty());
    assert_eq!(s.next_id, 0);
}

#[test]
fn delete_removes_rule_and_reports_missing() {
    let mut s = Store::default();
    s.add(rule(Action::Allow, None, true, "a")).unwrap();
    let id = s.add(rule(Action::Allow, None, true, "b")).unwrap();
    s.add(rule(Action::Allow, None, true, "c")).unwrap();
    s.delete(id).unwrap();
    assert_eq!(s.rules.iter().map(|r| r.id).collect::<Vec<_>>(), vec![1, 3]);
    assert!(matches!(s.delete(id), Err(Error::RuleNotFound(2))));
    assert_eq!(s.rules.len(), 2);
    assert_eq!(s.next_id, 4);
}

#[test]
fn delete_removes_every_rule_with_the_id() {
    let mut s = Store { rules: vec![rule(Action::Allow, None, true, "a"), rule(Action::Deny, None, true, "b")], next_id: 5 };
    s.rules[0].id = 3;
    s.rules[1].id = 3;
    s.delete(3).unwrap();
    assert!(s.rules.is_empty());
}

#[test]
fn delete_undoes_add() {
    let mut s = Store::default();
    s.add(rule(Action::Allow, None, true, "a")).unwrap();
    let id = s.add(rule(Action::Deny, None, true, "b")).unwrap();
    s.delete(id).unwrap();
    assert_eq!(s.rules.len(), 1);
    assert_eq!(s.rules[0].comment.as_deref(), Some("a"));
}

#[test]
fn reset_clears_and_restarts_ids() {
    let mut s = Store::default();
    s.add(rule(Action::Allow, None, true, "a")).unwrap();
    s.add(rule(Action::Allow, None, true, "b")).unwrap();
    s.reset();
    assert!(s.rules.is_empty());
    assert_eq!(s.next_id, 1);
    assert_eq!(s.add(rule(Action::Allow, None, true, "c")).unwrap(), 1);
}

#[test]
fn iter_skips_disabled_rules() {
    let mut s = Store::default();
    s.add(rule(Action::Allow, None, true, "a")).unwrap();
    s.add(rule(Action::Allow, None, false, "b")).unwrap();
    s.add(rule(Action::Deny, None, true, "c")).unwrap();
    assert_eq!(comments(&s.iter()), vec!["a", "c"]);
}

#[test]
fn ordered_puts_denies_first_and_limits_last() {
    let mut s = Store::default();
    s.add(rule(Action::Limit, Some(22), true, "l1")).unwrap();
    s.add(rule(Action::Allow, None, true, "a1")).unwrap();
    s.add(rule(Action::Deny, None, true, "d1")).unwrap();
    s.add(rule(Action::Allow, None, false, "a-off")).unwrap();
    s.add(rule(Action::Deny, None, true, "d2")).unwrap();
    s.add(rule(Action::Allow, None, true, "a2")).unwrap();
    s.add(rule(Action::Limit, Some(80), true, "l2")).unwrap();
    assert_eq!(comments(&s.ordered()), vec!["d1", "d2", "a1", "a2", "l1", "l2"]);
}

#[test]
fn empty_store_orders_nothing() {
    let s = Store::default();
    assert!(s.ordered().is_empty());
    assert!(s.iter().is_empty());
}

#[test]
fn refused_rule_leaves_a_full_store_alone() {
    let mut s = Store { rules: Vec::new(), next_id: u32::MAX };
    assert!(matches!(s.add(rule(Action::Limit, None, true, "x")), Err(Error::InvalidRule(_))));
    assert_eq!(s.next_id, u32::MAX);
    assert!(s.rules.is_empty());
}
