//! The rule store: the rules in the order they were added, and the id that
//! the next rule gets.

use vstd::prelude::*;

use crate::error::Error;
use crate::error::ErrorView;
use crate::error::Result;
use crate::error::result_view;
use crate::rule::Action;
use crate::rule::Rule;
use crate::rule::RuleView;
use crate::rule::spec_validate;

verus! {

/// The rules and the id that the next added rule gets.
#[derive(Debug)]
pub struct Store {
    pub rules: Vec<Rule>,
    pub next_id: u32,
}

/// A store with its rules taken by their views.
pub struct StoreView {
    pub rules: Seq<RuleView>,
    pub next_id: u32,
}

/// Rules taken by their views.
pub open spec fn rules_view(v: Seq<Rule>) -> Seq<RuleView> {
    v.map_values(|r: Rule| r@)
}

/// Borrowed rules taken by their views.
pub open spec fn refs_view(v: Seq<&Rule>) -> Seq<RuleView> {
    v.map_values(|r: &Rule| r@)
}

impl View for Store {
    type V = StoreView;

    open spec fn view(&self) -> StoreView {
        StoreView { rules: rules_view(self.rules@), next_id: self.next_id }
    }
}

impl Default for Store {
    /// An empty store.
    fn default() -> (s: Self)
        ensures
            s@.rules.len() == 0,
            s.next_id == 0,
    {
        Store { rules: Vec::new(), next_id: 0 }
    }
}

/// The rule is enabled.
pub open spec fn enabled_pred() -> spec_fn(RuleView) -> bool {
    |r: RuleView| r.enabled
}

/// The rule is enabled and has the action `a`.
pub open spec fn enabled_with(a: Action) -> spec_fn(RuleView) -> bool {
    |r: RuleView| r.enabled && r.action == a
}

/// The place of an action in the order rules are applied: denies, then
/// allows, then limits.
pub open spec fn action_rank(a: Action) -> nat {
    match a {
        Action::Deny => 0,
        Action::Allow => 1,
        Action::Limit => 2,
    }
}

/// The enabled rules, in store order.
pub open spec fn spec_enabled(rules: Seq<RuleView>) -> Seq<RuleView> {
    rules.filter(enabled_pred())
}

/// The enabled rules in the order they are applied: the denies, then the
/// allows, then the limits, each group in store order.
pub open spec fn spec_ordered(rules: Seq<RuleView>) -> Seq<RuleView> {
    rules.filter(enabled_with(Action::Deny)) + rules.filter(enabled_with(Action::Allow))
        + rules.filter(enabled_with(Action::Limit))
}

/// `r` with the id `id`.
pub open spec fn with_id(r: RuleView, id: u32) -> RuleView {
    RuleView { id, ..r }
}

/// What adding `r` does to the store `s`, and what it answers: a rule that
/// does not validate is refused and leaves the store as it was; else the rule
/// gets the id `max(next_id, 1)`, goes last, and `next_id` moves past it.
pub open spec fn spec_add(s: StoreView, r: RuleView) -> (StoreView, std::result::Result<u32, ErrorView>) {
    match spec_validate(r) {
        Err(e) => (s, Err(e)),
        Ok(_) => {
            let id: u32 = if s.next_id >= 1 { s.next_id } else { 1 };
            (StoreView { rules: s.rules.push(with_id(r, id)), next_id: (id + 1) as u32 }, Ok(id))
        },
    }
}

/// The rule does not have the id `id`.
pub open spec fn id_differs(id: u32) -> spec_fn(RuleView) -> bool {
    |r: RuleView| r.id != id
}

/// What deleting `id` does to the store `s`, and what it answers: every rule
/// with that id goes; if none had it, the store stays and the answer is
/// `RuleNotFound(id)`.
pub open spec fn spec_delete(s: StoreView, id: u32) -> (StoreView, std::result::Result<(), ErrorView>) {
    let kept = s.rules.filter(id_differs(id));
    if kept.len() == s.rules.len() {
        (s, Err(ErrorView::RuleNotFound(id)))
    } else {
        (StoreView { rules: kept, next_id: s.next_id }, Ok(()))
    }
}

/// The store after a reset: no rules, and the next id 1.
pub open spec fn spec_reset(s: StoreView) -> StoreView {
    StoreView { rules: Seq::empty(), next_id: 1 }
}

/// Every rule of the store has an id below `next_id`: the ids that `add`
/// hands out are then fresh.
pub open spec fn ids_below_next(s: StoreView) -> bool {
    forall|i: int| 0 <= i < s.rules.len() ==> #[trigger] s.rules[i].id < s.next_id
}

/// Filtering a prefix one element longer.
proof fn lemma_filter_take_step<A>(s: Seq<A>, p: spec_fn(A) -> bool, i: int)
    requires
        0 <= i < s.len(),
    ensures
        s.take(i + 1).filter(p) == if p(s[i]) {
            s.take(i).filter(p).push(s[i])
        } else {
            s.take(i).filter(p)
        },
{
    reveal(Seq::filter);
    assert(s.take(i + 1).drop_last() =~= s.take(i));
    assert(s.take(i + 1).last() == s[i]);
}

/// Filtering with a predicate that holds of every element keeps them all.
proof fn lemma_filter_all<A>(s: Seq<A>, p: spec_fn(A) -> bool)
    requires
        forall|i: int| 0 <= i < s.len() ==> #[trigger] p(s[i]),
    ensures
        s.filter(p) == s,
    decreases s.len(),
{
    reveal(Seq::filter);
    if s.len() > 0 {
        lemma_filter_all(s.drop_last(), p);
        assert(s.drop_last().push(s.last()) =~= s);
    }
}

/// A filter that keeps as many elements as there are keeps them all.
proof fn lemma_filter_same_len<A>(s: Seq<A>, p: spec_fn(A) -> bool)
    requires
        s.filter(p).len() == s.len(),
    ensures
        s.filter(p) == s,
    decreases s.len(),
{
    reveal(Seq::filter);
    if s.len() > 0 {
        s.drop_last().lemma_filter_len(p);
        if p(s.last()) {
            lemma_filter_same_len(s.drop_last(), p);
            assert(s.drop_last().push(s.last()) =~= s);
        }
    }
}

/// Filtering a pushed element that the predicate refuses drops just it.
proof fn lemma_filter_push_refused<A>(s: Seq<A>, x: A, p: spec_fn(A) -> bool)
    requires
        !p(x),
    ensures
        s.push(x).filter(p) == s.filter(p),
{
    reveal(Seq::filter);
    assert(s.push(x).drop_last() =~= s);
}

impl Store {
    /// Adds a rule: the rule is validated, gets the next id and goes last.
    /// Answers the id it got.
    pub fn add(&mut self, rule: Rule) -> (r: Result<u32>)
        requires
            spec_validate(rule@) is Ok ==> old(self).next_id < u32::MAX,
        ensures
            (final(self)@, result_view(r)) == spec_add(old(self)@, rule@),
            r matches Ok(id) ==> {
                let last = final(self)@.rules.last();
                &&& final(self)@.rules.len() == old(self)@.rules.len() + 1
                &&& final(self)@.rules.drop_last() == old(self)@.rules
                &&& last.id == id
                &&& last.action == rule@.action
                &&& last.proto == rule@.proto
                &&& last.src == rule@.src
                &&& last.dst == rule@.dst
                &&& last.port == rule@.port
                &&& last.interface == rule@.interface
                &&& last.comment == rule@.comment
                &&& last.enabled == rule@.enabled
            },
            r is Err ==> final(self)@ == old(self)@,
    {
        let ghost rv = rule@;
        match rule.validate() {
            Err(e) => return Err(e),
            Ok(()) => {},
        }
        let mut rule = rule;
        if self.next_id < 1 {
            self.next_id = 1;
        }
        let id = self.next_id;
        rule.id = id;
        self.next_id = id + 1;
        self.rules.push(rule);
        assert(rules_view(self.rules@) =~= rules_view(old(self).rules@).push(with_id(rv, id)));
        Ok(id)
    }

    /// Deletes every rule with the id `id`; answers `RuleNotFound(id)` if
    /// there is none.
    pub fn delete(&mut self, id: u32) -> (r: Result<()>)
        ensures
            (final(self)@, result_view(r)) == spec_delete(old(self)@, id),
            r is Ok <==> exists|i: int| 0 <= i < old(self)@.rules.len() && (#[trigger] old(self)@.rules[i]).id == id,
            r is Err ==> final(self)@ == old(self)@ && r == Err::<(), Error>(Error::RuleNotFound(id)),
            forall|i: int| 0 <= i < final(self)@.rules.len() ==> (#[trigger] final(self)@.rules[i]).id != id,
    {
        proof {
            law_delete_answers_by_presence(old(self)@, id);
            law_delete_keeps_ids_gone(old(self)@, id);
        }
        let ghost whole = rules_view(self.rules@);
        let before = self.rules.len();
        let mut i = before;
        assert(whole.skip(before as int) =~= Seq::<RuleView>::empty());
        assert(whole.take(before as int) =~= whole);
        proof {
            reveal(Seq::filter);
        }
        while i > 0
            invariant
                i <= before,
                before == whole.len(),
                whole == rules_view(old(self).rules@),
                self.next_id == old(self).next_id,
                rules_view(self.rules@) =~= whole.take(i as int) + whole.skip(i as int).filter(id_differs(id)),
            decreases i,
        {
            let ghost cur = rules_view(self.rules@);
            let ghost x = whole[i - 1];
            assert(whole.skip(i - 1) =~= seq![x] + whole.skip(i as int));
            proof {
                whole.skip(i as int).lemma_filter_prepend(x, id_differs(id));
            }
            assert(self.rules@.len() == cur.len());
            assert(cur[i - 1] == x);
            if self.rules[i - 1].id == id {
                let ghost pre = self.rules@;
                self.rules.remove(i - 1);
                assert(rules_view(self.rules@) =~= rules_view(pre).remove(i - 1));
                assert(rules_view(pre).remove(i - 1) =~= whole.take(i - 1) + whole.skip(i as int).filter(id_differs(id)));
            } else {
                assert(whole.take(i as int) =~= whole.take(i - 1) + seq![x]);
            }
            i = i - 1;
        }
        assert(whole.skip(0) =~= whole);
        assert(whole.take(0) =~= Seq::<RuleView>::empty());
        if self.rules.len() == before {
            proof {
                lemma_filter_same_len(whole, id_differs(id));
            }
            return Err(Error::RuleNotFound(id));
        }
        Ok(())
    }

    /// Removes every rule, and starts the ids over at 1.
    pub fn reset(&mut self)
        ensures
            final(self)@ == spec_reset(old(self)@),
    {
        self.rules.clear();
        self.next_id = 1;
        assert(rules_view(self.rules@) =~= Seq::<RuleView>::empty());
    }

    /// The enabled rules, in store order.
    pub fn iter(&self) -> (v: Vec<&Rule>)
        ensures
            refs_view(v@) == spec_enabled(self@.rules),
    {
        let mut out: Vec<&Rule> = Vec::new();
        self.collect_into(&mut out, Ghost(enabled_pred()), 0, false);
        assert(Seq::<RuleView>::empty() + self@.rules.filter(enabled_pred()) =~= self@.rules.filter(enabled_pred()));
        out
    }

    /// Appends to `out` the rules that are enabled and, where `by_action`,
    /// have the action `a`.
    fn collect_into<'a>(&'a self, out: &mut Vec<&'a Rule>, p: Ghost<spec_fn(RuleView) -> bool>, a: u8, by_action: bool)
        requires
            a < 3,
            p@ == (if by_action { enabled_with(action_of(a)) } else { enabled_pred() }),
        ensures
            refs_view(final(out)@) == refs_view(old(out)@) + self@.rules.filter(p@),
    {
        let ghost whole = self@.rules;
        let ghost start = refs_view(out@);
        let n = self.rules.len();
        let mut i: usize = 0;
        assert(whole.take(0).filter(p@) =~= Seq::<RuleView>::empty()) by {
            reveal(Seq::filter);
        }
        while i < n
            invariant
                i <= n,
                n == whole.len(),
                whole == self@.rules,
                a < 3,
                p@ == (if by_action { enabled_with(action_of(a)) } else { enabled_pred() }),
                refs_view(out@) =~= start + whole.take(i as int).filter(p@),
            decreases n - i,
        {
            let r = &self.rules[i];
            proof {
                lemma_filter_take_step(whole, p@, i as int);
            }
            let keep = r.enabled && (!by_action || action_code(r.action) == a);
            assert(keep == p@(whole[i as int]));
            let ghost before = out@;
            if keep {
                out.push(r);
                assert(refs_view(out@) =~= refs_view(before).push(whole[i as int]));
            }
            i = i + 1;
        }
        assert(whole.take(n as int) =~= whole);
    }

    /// The enabled rules in the order they are applied: denies before
    /// allows, then limits last; each group keeps the store order.
    pub fn ordered(&self) -> (v: Vec<&Rule>)
        ensures
            refs_view(v@) == spec_ordered(self@.rules),
    {
        let mut out: Vec<&Rule> = Vec::new();
        self.collect_into(&mut out, Ghost(enabled_with(Action::Deny)), 1, true);
        self.collect_into(&mut out, Ghost(enabled_with(Action::Allow)), 0, true);
        self.collect_into(&mut out, Ghost(enabled_with(Action::Limit)), 2, true);
        assert(refs_view(out@) =~= spec_ordered(self@.rules));
        out
    }
}

/// The action with the code `a`.
spec fn action_of(a: u8) -> Action {
    if a == 0 {
        Action::Allow
    } else if a == 1 {
        Action::Deny
    } else {
        Action::Limit
    }
}

fn action_code(a: Action) -> (c: u8)
    ensures
        c < 3,
        action_of(c) == a,
{
    match a {
        Action::Allow => 0,
        Action::Deny => 1,
        Action::Limit => 2,
    }
}


/// Every element that a filter keeps satisfies the predicate and comes from
/// the filtered sequence.
proof fn lemma_filter_elements<A>(s: Seq<A>, p: spec_fn(A) -> bool)
    ensures
        forall|i: int| 0 <= i < s.filter(p).len() ==> #[trigger] p(s.filter(p)[i]) && s.contains(s.filter(p)[i]),
{
    assert forall|i: int| 0 <= i < s.filter(p).len() implies #[trigger] p(s.filter(p)[i]) && s.contains(s.filter(p)[i]) by {
        s.lemma_filter_pred(p, i);
        assert(s.filter(p).contains(s.filter(p)[i]));
        s.lemma_filter_contains_rev(p, s.filter(p)[i]);
    }
}

/// The three action groups split the enabled rules: their sizes add up.
proof fn lemma_action_groups_len(rules: Seq<RuleView>)
    ensures
        rules.filter(enabled_with(Action::Deny)).len() + rules.filter(enabled_with(Action::Allow)).len()
            + rules.filter(enabled_with(Action::Limit)).len() == rules.filter(enabled_pred()).len(),
    decreases rules.len(),
{
    reveal(Seq::filter);
    if rules.len() > 0 {
        lemma_action_groups_len(rules.drop_last());
    }
}

/// Adding a rule hands out an id that no rule of the store has, keeps every
/// id below `next_id`, and puts the rule last; a refused rule leaves the
/// store as it was.
pub proof fn law_add_assigns_fresh_id(s: StoreView, r: RuleView)
    requires
        ids_below_next(s),
        spec_validate(r) is Ok ==> s.next_id < u32::MAX,
    ensures
        match spec_add(s, r).1 {
            Ok(id) => {
                &&& forall|i: int| 0 <= i < s.rules.len() ==> #[trigger] s.rules[i].id != id
                &&& ids_below_next(spec_add(s, r).0)
                &&& spec_add(s, r).0.rules.last() == with_id(r, id)
                &&& spec_add(s, r).0.rules.drop_last() == s.rules
            },
            Err(_) => spec_add(s, r).0 == s,
        },
{
    if let Ok(id) = spec_add(s, r).1 {
        let t = spec_add(s, r).0;
        assert(t.rules.drop_last() =~= s.rules);
        assert forall|i: int| 0 <= i < t.rules.len() implies #[trigger] t.rules[i].id < t.next_id by {
            if i < s.rules.len() {
                assert(t.rules[i] == s.rules[i]);
            }
        }
    }
}

/// Deleting the id that `add` handed out undoes the add: the rules are
/// those from before it.
pub proof fn law_delete_undoes_add(s: StoreView, r: RuleView)
    requires
        ids_below_next(s),
        s.next_id < u32::MAX,
        spec_add(s, r).1 is Ok,
    ensures
        spec_delete(spec_add(s, r).0, spec_add(s, r).1->Ok_0)
            == (StoreView { rules: s.rules, next_id: spec_add(s, r).0.next_id }, Ok::<(), ErrorView>(())),
{
    let t = spec_add(s, r).0;
    let id = spec_add(s, r).1->Ok_0;
    law_add_assigns_fresh_id(s, r);
    let x = with_id(r, id);
    assert(t.rules == s.rules.push(x));
    lemma_filter_push_refused(s.rules, x, id_differs(id));
    assert forall|i: int| 0 <= i < s.rules.len() implies #[trigger] id_differs(id)(s.rules[i]) by {}
    lemma_filter_all(s.rules, id_differs(id));
}

/// Deleting keeps every id below `next_id`, and leaves no rule with the
/// deleted id.
pub proof fn law_delete_keeps_ids(s: StoreView, id: u32)
    requires
        ids_below_next(s),
    ensures
        ids_below_next(spec_delete(s, id).0),
        forall|i: int| 0 <= i < spec_delete(s, id).0.rules.len() ==> #[trigger] spec_delete(s, id).0.rules[i].id != id,
{
    lemma_filter_elements(s.rules, id_differs(id));
    let k = s.rules.filter(id_differs(id));
    if k.len() == s.rules.len() {
        lemma_filter_same_len(s.rules, id_differs(id));
        assert forall|i: int| 0 <= i < s.rules.len() implies #[trigger] s.rules[i].id != id by {
            assert(id_differs(id)(k[i]));
        }
    }
    assert forall|i: int| 0 <= i < k.len() implies #[trigger] k[i].id < s.next_id by {
        assert(s.rules.contains(k[i]));
        let j = choose|j: int| 0 <= j < s.rules.len() && s.rules[j] == k[i];
        assert(s.rules[j].id < s.next_id);
    }
}

/// After a reset the store is empty, and the next rule added gets the id 1.
pub proof fn law_reset_then_add(s: StoreView, r: RuleView)
    requires
        spec_validate(r) is Ok,
    ensures
        spec_reset(s).rules.len() == 0,
        ids_below_next(spec_reset(s)),
        spec_add(spec_reset(s), r).1 == Ok::<u32, ErrorView>(1),
        spec_add(spec_reset(s), r).0.rules == seq![with_id(r, 1)],
{
    assert(Seq::<RuleView>::empty().push(with_id(r, 1)) =~= seq![with_id(r, 1)]);
}

/// The order rules are applied in: only enabled rules, denies before allows
/// and limits last, and every enabled rule exactly as often as the store
/// holds it enabled.
pub proof fn law_ordered_denies_first(rules: Seq<RuleView>)
    ensures
        forall|i: int| 0 <= i < spec_ordered(rules).len() ==> (#[trigger] spec_ordered(rules)[i]).enabled,
        forall|i: int, j: int|
            0 <= i <= j < spec_ordered(rules).len() ==> action_rank((#[trigger] spec_ordered(rules)[i]).action)
                <= action_rank((#[trigger] spec_ordered(rules)[j]).action),
        spec_ordered(rules).len() == spec_enabled(rules).len(),
        forall|i: int| 0 <= i < spec_ordered(rules).len() ==> rules.contains(#[trigger] spec_ordered(rules)[i]),
{
    let d = rules.filter(enabled_with(Action::Deny));
    let a = rules.filter(enabled_with(Action::Allow));
    let l = rules.filter(enabled_with(Action::Limit));
    lemma_filter_elements(rules, enabled_with(Action::Deny));
    lemma_filter_elements(rules, enabled_with(Action::Allow));
    lemma_filter_elements(rules, enabled_with(Action::Limit));
    lemma_action_groups_len(rules);
    let o = spec_ordered(rules);
    assert forall|i: int| 0 <= i < o.len() implies
        (#[trigger] o[i]).enabled && rules.contains(o[i])
        && action_rank(o[i].action) == (if i < d.len() { 0nat } else if i < d.len() + a.len() { 1nat } else { 2nat }) by {
        if i < d.len() {
            assert(o[i] == d[i]);
            assert(enabled_with(Action::Deny)(d[i]));
        } else if i < d.len() + a.len() {
            assert(o[i] == a[i - d.len()]);
            assert(enabled_with(Action::Allow)(a[i - d.len()]));
        } else {
            assert(o[i] == l[i - d.len() - a.len()]);
            assert(enabled_with(Action::Limit)(l[i - d.len() - a.len()]));
        }
    }
}


/// A filter that refuses some element keeps fewer elements.
proof fn lemma_filter_drops<A>(s: Seq<A>, p: spec_fn(A) -> bool, i: int)
    requires
        0 <= i < s.len(),
        !p(s[i]),
    ensures
        s.filter(p).len() < s.len(),
    decreases s.len(),
{
    reveal(Seq::filter);
    s.drop_last().lemma_filter_len(p);
    if i < s.len() - 1 {
        assert(s.drop_last()[i] == s[i]);
        lemma_filter_drops(s.drop_last(), p, i);
    }
}

/// Adding a rule that validates keeps the rule as given in every field but
/// its id, which is the id answered; the rules before it stay as they were.
pub proof fn law_add_keeps_the_rule(s: StoreView, r: RuleView)
    requires
        spec_validate(r) is Ok,
    ensures
        spec_add(s, r).1 is Ok,
        ({
            let t = spec_add(s, r).0;
            let last = t.rules.last();
            &&& t.rules.len() == s.rules.len() + 1
            &&& t.rules.drop_last() == s.rules
            &&& last.id == spec_add(s, r).1->Ok_0
            &&& last.action == r.action
            &&& last.proto == r.proto
            &&& last.src == r.src
            &&& last.dst == r.dst
            &&& last.port == r.port
            &&& last.interface == r.interface
            &&& last.comment == r.comment
            &&& last.enabled == r.enabled
        }),
{
    assert(spec_add(s, r).0.rules.drop_last() =~= s.rules);
}

/// Deleting an id succeeds exactly when some rule of the store has that id;
/// otherwise the answer is `RuleNotFound(id)` and the store stays as it was.
pub proof fn law_delete_answers_by_presence(s: StoreView, id: u32)
    ensures
        spec_delete(s, id).1 is Ok <==> exists|i: int| 0 <= i < s.rules.len() && (#[trigger] s.rules[i]).id == id,
        spec_delete(s, id).1 is Err ==> spec_delete(s, id).0 == s
            && spec_delete(s, id).1 == Err::<(), ErrorView>(ErrorView::RuleNotFound(id)),
{
    s.rules.lemma_filter_len(id_differs(id));
    if exists|i: int| 0 <= i < s.rules.len() && (#[trigger] s.rules[i]).id == id {
        let i = choose|i: int| 0 <= i < s.rules.len() && (#[trigger] s.rules[i]).id == id;
        lemma_filter_drops(s.rules, id_differs(id), i);
    } else {
        assert forall|i: int| 0 <= i < s.rules.len() implies #[trigger] id_differs(id)(s.rules[i]) by {}
        lemma_filter_all(s.rules, id_differs(id));
    }
}

/// After a delete no rule has the deleted id.
pub proof fn law_delete_keeps_ids_gone(s: StoreView, id: u32)
    ensures
        forall|i: int| 0 <= i < spec_delete(s, id).0.rules.len() ==> (#[trigger] spec_delete(s, id).0.rules[i]).id != id,
{
    lemma_filter_elements(s.rules, id_differs(id));
    let k = s.rules.filter(id_differs(id));
    if k.len() == s.rules.len() {
        lemma_filter_same_len(s.rules, id_differs(id));
        assert forall|i: int| 0 <= i < s.rules.len() implies #[trigger] s.rules[i].id != id by {
            assert(id_differs(id)(k[i]));
        }
    }
}

/// Every enabled rule of the store stands in the applied order.
pub proof fn law_ordered_contains_enabled(rules: Seq<RuleView>, k: int)
    requires
        0 <= k < rules.len(),
        rules[k].enabled,
    ensures
        spec_ordered(rules).contains(rules[k]),
{
    let x = rules[k];
    let d = rules.filter(enabled_with(Action::Deny));
    let a = rules.filter(enabled_with(Action::Allow));
    let l = rules.filter(enabled_with(Action::Limit));
    let o = spec_ordered(rules);
    match x.action {
        Action::Deny => {
            rules.lemma_filter_contains(enabled_with(Action::Deny), k);
            let j = choose|j: int| 0 <= j < d.len() && d[j] == x;
            assert(o[j] == x);
        },
        Action::Allow => {
            rules.lemma_filter_contains(enabled_with(Action::Allow), k);
            let j = choose|j: int| 0 <= j < a.len() && a[j] == x;
            assert(o[d.len() + j] == x);
        },
        Action::Limit => {
            rules.lemma_filter_contains(enabled_with(Action::Limit), k);
            let j = choose|j: int| 0 <= j < l.len() && l[j] == x;
            assert(o[d.len() + a.len() + j] == x);
        },
    }
}

}
