//! Permission requests and decisions, and the store of remembered rules.
use vstd::prelude::*;

use std::sync::{Arc, Mutex};

use crate::text::str_eq;

verus! {

/// How long a remembered permission decision applies.
#[derive(Debug, Clone, Copy, PartialEq, Eq, Structural)]
pub enum PermissionRuleScope {
    Session,
}

/// A pending permission request awaiting a decision; `preview` is JSON text.
#[derive(Debug, Clone, PartialEq, Eq)]
pub struct PermissionRequest {
    pub request_id: String,
    pub tool_call_id: String,
    pub tool_name: String,
    pub description: String,
    pub preview: String,
}

/// The answer to a permission request.
#[derive(Debug, Clone, Copy, PartialEq, Eq, Structural)]
pub struct PermissionDecision {
    pub allow: bool,
    pub remember_as: Option<PermissionRuleScope>,
}

impl PermissionDecision {
    /// Allow the tool call without remembering.
    pub fn allow() -> (r: PermissionDecision)
        ensures
            r == (PermissionDecision { allow: true, remember_as: None }),
    {
        PermissionDecision { allow: true, remember_as: None }
    }

    /// Deny the tool call without remembering.
    pub fn deny() -> (r: PermissionDecision)
        ensures
            r == (PermissionDecision { allow: false, remember_as: None }),
    {
        PermissionDecision { allow: false, remember_as: None }
    }

    /// Allow the tool call and remember the decision for `scope`.
    pub fn allow_and_remember(scope: PermissionRuleScope) -> (r: PermissionDecision)
        ensures
            r == (PermissionDecision { allow: true, remember_as: Some(scope) }),
    {
        PermissionDecision { allow: true, remember_as: Some(scope) }
    }

    /// Deny the tool call and remember the decision for `scope`.
    pub fn deny_and_remember(scope: PermissionRuleScope) -> (r: PermissionDecision)
        ensures
            r == (PermissionDecision { allow: false, remember_as: Some(scope) }),
    {
        PermissionDecision { allow: false, remember_as: Some(scope) }
    }
}

/// Key under which a rule is remembered: a tool, and optionally a pattern of its input.
#[derive(Debug, Clone, PartialEq, Eq, Hash)]
pub struct RuleKey {
    pub tool_name: String,
    pub pattern: Option<String>,
}

pub type RuleKeyView = (Seq<char>, Option<Seq<char>>);

impl View for RuleKey {
    type V = RuleKeyView;

    open spec fn view(&self) -> RuleKeyView {
        (
            self.tool_name@,
            match self.pattern {
                Some(p) => Some(p@),
                None => None,
            },
        )
    }
}

/// A decision the user asked to remember.
#[derive(Debug, Clone, PartialEq, Eq)]
pub struct RememberedRule {
    pub key: RuleKey,
    pub allow: bool,
    pub scope: PermissionRuleScope,
}

pub struct RuleView {
    pub key: RuleKeyView,
    pub allow: bool,
    pub scope: PermissionRuleScope,
}

impl View for RememberedRule {
    type V = RuleView;

    open spec fn view(&self) -> RuleView {
        RuleView { key: self.key@, allow: self.allow, scope: self.scope }
    }
}

pub open spec fn rule_views(rules: Seq<RememberedRule>) -> Seq<RuleView> {
    rules.map_values(|r: RememberedRule| r@)
}

/// No key occurs twice.
pub open spec fn keys_unique(rules: Seq<RuleView>) -> bool {
    forall|i: int, j: int| 0 <= i < rules.len() && 0 <= j < rules.len() && i != j ==> rules[i].key != rules[j].key
}

/// The remembered decisions, keyed.
pub open spec fn rule_map(rules: Seq<RuleView>) -> Map<RuleKeyView, RuleView> {
    Map::new(
        |k: RuleKeyView| exists|i: int| 0 <= i < rules.len() && rules[i].key == k,
        |k: RuleKeyView| rules[choose|i: int| 0 <= i < rules.len() && rules[i].key == k],
    )
}

/// Rules of a scope other than `scope`.
pub open spec fn other_scope(scope: PermissionRuleScope) -> spec_fn(RuleView) -> bool {
    |r: RuleView| r.scope != scope
}

/// The key `check` looks up: the tool with no pattern.
pub open spec fn tool_key(tool_name: Seq<char>) -> RuleKeyView {
    (tool_name, None)
}

fn copy_key(k: &RuleKey) -> (r: RuleKey)
    ensures
        r@ == k@,
{
    RuleKey {
        tool_name: k.tool_name.clone(),
        pattern: match &k.pattern {
            Some(p) => Some(p.clone()),
            None => None,
        },
    }
}

fn same_key(a: &RuleKey, b: &RuleKey) -> (r: bool)
    ensures
        r == (a@ == b@),
{
    if !str_eq(a.tool_name.as_str(), b.tool_name.as_str()) {
        return false;
    }
    match (&a.pattern, &b.pattern) {
        (Some(x), Some(y)) => str_eq(x.as_str(), y.as_str()),
        (None, None) => true,
        _ => false,
    }
}

/// Remembers `rule` among `v`, replacing the rule with the same key.
fn add_rule_to(v: &mut Vec<RememberedRule>, rule: RememberedRule)
    requires
        keys_unique(rule_views(old(v)@)),
    ensures
        keys_unique(rule_views(final(v)@)),
        rule_map(rule_views(final(v)@)) == rule_map(rule_views(old(v)@)).insert(rule.key@, rule@),
{
    let ghost old_v = rule_views(v@);
    let mut i: usize = 0;
    while i < v.len()
        invariant
            i <= v@.len(),
            rule_views(v@) == old_v,
            old_v == rule_views(old(v)@),
            keys_unique(old_v),
            forall|k: int| 0 <= k < i ==> old_v[k].key != rule.key@,
        decreases v.len() - i,
    {
        if same_key(&v[i].key, &rule.key) {
            v.set(i, rule);
            proof {
                let nv = rule_views(v@);
                assert(nv =~= old_v.update(i as int, rule@));
                assert(keys_unique(nv)) by {
                    assert forall|a: int, b: int|
                        0 <= a < nv.len() && 0 <= b < nv.len() && a != b implies nv[a].key != nv[b].key by {
                        assert(old_v[a].key != old_v[b].key);
                    }
                }
                assert(rule_map(nv) =~= rule_map(old_v).insert(rule@.key, rule@)) by {
                    assert forall|k: RuleKeyView| rule_map(nv).contains_key(k) <==> rule_map(old_v).insert(rule@.key, rule@).contains_key(k) by {
                        if rule_map(old_v).contains_key(k) {
                            let q = choose|q: int| 0 <= q < old_v.len() && old_v[q].key == k;
                            assert(nv[q].key == k);
                        }
                        if k == rule@.key {
                            assert(nv[i as int].key == k);
                        }
                    }
                    assert forall|k: RuleKeyView| #[trigger] rule_map(nv).contains_key(k) implies rule_map(nv)[k] == rule_map(old_v).insert(rule@.key, rule@)[k] by {
                        let q = choose|q: int| 0 <= q < nv.len() && nv[q].key == k;
                        if k != rule@.key {
                            let p = choose|p: int| 0 <= p < old_v.len() && old_v[p].key == k;
                            assert(p == q);
                        }
                    }
                }
                assert(rule_map(rule_views(v@)) == rule_map(old_v).insert(rule.key@, rule@));
            }
            return;
        }
        i += 1;
    }
    v.push(rule);
    proof {
        let nv = rule_views(v@);
        let n = old_v.len();
        assert(nv =~= old_v.push(rule@));
        assert(keys_unique(nv)) by {
            assert forall|a: int, b: int| 0 <= a < nv.len() && 0 <= b < nv.len() && a != b implies nv[a].key != nv[b].key by {
                if a < n && b < n {
                    assert(old_v[a].key != old_v[b].key);
                }
            }
        }
        assert(rule_map(nv) =~= rule_map(old_v).insert(rule@.key, rule@)) by {
            assert forall|k: RuleKeyView| rule_map(nv).contains_key(k) <==> rule_map(old_v).insert(rule@.key, rule@).contains_key(k) by {
                if rule_map(old_v).contains_key(k) {
                    let q = choose|q: int| 0 <= q < old_v.len() && old_v[q].key == k;
                    assert(nv[q].key == k);
                }
                if k == rule@.key {
                    assert(nv[n as int].key == k);
                }
                if rule_map(nv).contains_key(k) && k != rule@.key {
                    let q = choose|q: int| 0 <= q < nv.len() && nv[q].key == k;
                    assert(q < n);
                    assert(old_v[q].key == k);
                }
            }
            assert forall|k: RuleKeyView| #[trigger] rule_map(nv).contains_key(k) implies rule_map(nv)[k] == rule_map(old_v).insert(rule@.key, rule@)[k] by {
                let q = choose|q: int| 0 <= q < nv.len() && nv[q].key == k;
                if k != rule@.key {
                    assert(q < n);
                    let p = choose|p: int| 0 <= p < old_v.len() && old_v[p].key == k;
                    assert(p == q);
                } else {
                    assert(q == n);
                }
            }
        }
    }
}

/// What `check` answers for `tool_name` from the rules `v`: `Some(allow)` of the rule kept for
/// the tool with no pattern, `None` when there is none.
pub open spec fn check_answer(v: Seq<RuleView>, tool_name: Seq<char>, r: Option<bool>) -> bool {
    match r {
        Some(allow) => rule_map(v).contains_key(tool_key(tool_name)) && rule_map(v)[tool_key(tool_name)].allow == allow,
        None => !rule_map(v).contains_key(tool_key(tool_name)),
    }
}

/// A set of remembered permission rules, at most one per key.
#[derive(Debug)]
pub struct RuleSet {
    rules: Vec<RememberedRule>,
}

impl View for RuleSet {
    type V = Seq<RuleView>;

    closed spec fn view(&self) -> Seq<RuleView> {
        rule_views(self.rules@)
    }
}

impl Default for RuleSet {
    fn default() -> (r: RuleSet)
        ensures
            r.wf(),
            r@.len() == 0,
    {
        RuleSet::new()
    }
}

impl RuleSet {
    #[verifier::type_invariant]
    spec fn keys_distinct(&self) -> bool {
        keys_unique(rule_views(self.rules@))
    }

    /// No key occurs twice (which every rule set keeps).
    pub closed spec fn wf(&self) -> bool {
        keys_unique(self@)
    }

    /// An empty set.
    pub fn new() -> (r: RuleSet)
        ensures
            r.wf(),
            r@.len() == 0,
    {
        let v: Vec<RememberedRule> = Vec::new();
        assert(rule_views(v@) =~= Seq::<RuleView>::empty());
        RuleSet { rules: v }
    }

    /// Remembers `rule`, replacing any rule with the same key.
    pub fn add_rule(&mut self, rule: RememberedRule)
        ensures
            final(self).wf(),
            rule_map(final(self)@) == rule_map(old(self)@).insert(rule.key@, rule@),
    {
        proof {
            use_type_invariant(&*self);
        }
        let mut v: Vec<RememberedRule> = Vec::new();
        std::mem::swap(&mut v, &mut self.rules);
        add_rule_to(&mut v, rule);
        self.rules = v;
    }

    /// The remembered decision for `tool_name` (with no pattern): `Some(true)` allowed,
    /// `Some(false)` denied, `None` when nothing is remembered.
    pub fn check(&self, tool_name: &str) -> (r: Option<bool>)
        ensures
            self.wf(),
            check_answer(self@, tool_name@, r),
    {
        proof {
            use_type_invariant(self);
        }
        let mut i: usize = 0;
        while i < self.rules.len()
            invariant
                i <= self.rules@.len(),
                keys_unique(self@),
                forall|k: int| 0 <= k < i ==> self@[k].key != tool_key(tool_name@),
            decreases self.rules.len() - i,
        {
            let rule = &self.rules[i];
            if str_eq(rule.key.tool_name.as_str(), tool_name) && rule.key.pattern.is_none() {
                proof {
                    assert(self@[i as int].key == tool_key(tool_name@));
                    let q = choose|q: int| 0 <= q < self@.len() && self@[q].key == tool_key(tool_name@);
                    assert(q == i);
                }
                return Some(rule.allow);
            }
            i += 1;
        }
        None
    }

    /// All remembered rules.
    pub fn rules(&self) -> (r: Vec<RememberedRule>)
        ensures
            rule_views(r@) == self@,
    {
        let mut out: Vec<RememberedRule> = Vec::new();
        let mut i: usize = 0;
        while i < self.rules.len()
            invariant
                i <= self.rules@.len(),
                rule_views(out@) == self@.take(i as int),
            decreases self.rules.len() - i,
        {
            let rule = &self.rules[i];
            let ghost before = out@;
            out.push(RememberedRule { key: copy_key(&rule.key), allow: rule.allow, scope: rule.scope });
            proof {
                assert(self@[i as int] == self.rules@[i as int]@);
                assert(out@.last()@ == self@[i as int]);
                assert(rule_views(out@) =~= rule_views(out@.drop_last()).push(out@.last()@));
                assert(out@.drop_last() =~= before);
                assert(rule_views(out@) =~= self@.take(i as int + 1));
            }
            i += 1;
        }
        assert(self@.take(self@.len() as int) =~= self@);
        out
    }

    /// Forgets every rule remembered for `scope`.
    pub fn clear_scope(&mut self, scope: PermissionRuleScope)
        ensures
            final(self).wf(),
            final(self)@ == old(self)@.filter(other_scope(scope)),
    {
        proof {
            use_type_invariant(&*self);
        }
        let ghost old_v = self@;
        let mut kept: Vec<RememberedRule> = Vec::new();
        let mut i: usize = 0;
        while i < self.rules.len()
            invariant
                i <= self.rules@.len(),
                self@ == old_v,
                rule_views(kept@) == old_v.take(i as int).filter(other_scope(scope)),
            decreases self.rules.len() - i,
        {
            let rule = &self.rules[i];
            proof {
                reveal(Seq::filter);
                assert(old_v.take(i as int + 1).drop_last() =~= old_v.take(i as int));
            }
            if rule.scope != scope {
                kept.push(RememberedRule { key: copy_key(&rule.key), allow: rule.allow, scope: rule.scope });
                assert(rule_views(kept@) =~= old_v.take(i as int + 1).filter(other_scope(scope)));
            } else {
                assert(rule_views(kept@) =~= old_v.take(i as int + 1).filter(other_scope(scope)));
            }
            i += 1;
        }
        assert(old_v.take(old_v.len() as int) =~= old_v);
        proof {
            lemma_filter_keys_unique(old_v, scope);
        }
        self.rules = kept;
    }
}

#[verifier::external_type_specification]
#[verifier::external_body]
#[verifier::reject_recursive_types(T)]
pub struct ExMutex<T: ?Sized>(Mutex<T>);

/// `Mutex::new`: a lock holding `t`. Nothing is claimed of the value afterwards.
pub assume_specification<T>[ Mutex::<T>::new ](t: T) -> Mutex<T>;

/// Locks `shared` with `Mutex::lock` (a lock poisoned by a panicking holder still hands out
/// the set) and lets `f` change the set in place. Nothing is claimed of the set: every clone
/// of the store that holds the lock may change it.
#[verifier::external_body]
fn update_locked<F: FnOnce(&mut RuleSet)>(shared: &Mutex<RuleSet>, f: F)
    requires
        forall|s: &mut RuleSet| #[trigger] f.requires((s,)),
{
    let mut guard = match shared.lock() {
        Ok(guard) => guard,
        Err(poisoned) => poisoned.into_inner(),
    };
    f(&mut *guard)
}

/// Locks `shared` with `Mutex::lock` (a lock poisoned by a panicking holder still hands out
/// the set) and returns what `f` makes of the set as it stands then; that it is some set for
/// which `f` returns it is all that is claimed.
#[verifier::external_body]
fn read_locked<R, F: FnOnce(&RuleSet) -> R>(shared: &Mutex<RuleSet>, f: F) -> (r: R)
    requires
        forall|s: &RuleSet| #[trigger] f.requires((s,)),
    ensures
        exists|s: &RuleSet| f.ensures((s,), r),
{
    let guard = match shared.lock() {
        Ok(guard) => guard,
        Err(poisoned) => poisoned.into_inner(),
    };
    f(&*guard)
}

/// Thread-safe store of remembered permission rules: one rule set behind a lock, shared by
/// every clone of the store, so a rule added through one clone is seen through all.
#[derive(Debug, Clone)]
pub struct RuleStore {
    inner: Arc<Mutex<RuleSet>>,
}

impl Default for RuleStore {
    fn default() -> (r: RuleStore) {
        RuleStore::new()
    }
}

impl RuleStore {
    /// An empty store.
    pub fn new() -> (r: RuleStore) {
        RuleStore { inner: Arc::new(Mutex::new(RuleSet::new())) }
    }

    /// Adds or overwrites a remembered rule in the shared set (`RuleSet::add_rule`).
    pub fn add_rule(&self, rule: RememberedRule) {
        update_locked(&*self.inner, move |set: &mut RuleSet| set.add_rule(rule));
    }

    /// The remembered decision for `tool_name` (with no pattern) in the shared set as it
    /// stands: what `RuleSet::check` answers for some set with at most one rule per key.
    pub fn check(&self, tool_name: &str) -> (r: Option<bool>)
        ensures
            exists|v: Seq<RuleView>| keys_unique(v) && check_answer(v, tool_name@, r),
    {
        let ask = |set: &RuleSet| -> (a: Option<bool>)
            ensures
                set.wf() && check_answer(set@, tool_name@, a),
        { set.check(tool_name) };
        read_locked(&*self.inner, ask)
    }

    /// All rules of the shared set as it stands, at most one per key.
    pub fn rules(&self) -> (r: Vec<RememberedRule>)
        ensures
            keys_unique(rule_views(r@)),
    {
        let list = |set: &RuleSet| -> (out: Vec<RememberedRule>)
            ensures
                keys_unique(rule_views(out@)),
        {
            let out = set.rules();
            proof {
                use_type_invariant(set);
            }
            out
        };
        read_locked(&*self.inner, list)
    }

    /// Forgets every rule of `scope` in the shared set (`RuleSet::clear_scope`).
    pub fn clear_scope(&self, scope: PermissionRuleScope) {
        update_locked(&*self.inner, move |set: &mut RuleSet| set.clear_scope(scope));
    }
}

/// After remembering a decision for a tool (with no pattern), checking that tool finds it.
pub proof fn law_check_finds_added_rule(before: Seq<RuleView>, after: Seq<RuleView>, rule: RuleView, tool_name: Seq<char>)
    requires
        rule_map(after) == rule_map(before).insert(rule.key, rule),
        rule.key == tool_key(tool_name),
    ensures
        rule_map(after).contains_key(tool_key(tool_name)),
        rule_map(after)[tool_key(tool_name)].allow == rule.allow,
{
}

/// Remembering a rule leaves the rules of other keys as they were.
pub proof fn law_add_rule_keeps_other_keys(before: Seq<RuleView>, after: Seq<RuleView>, rule: RuleView, key: RuleKeyView)
    requires
        rule_map(after) == rule_map(before).insert(rule.key, rule),
        key != rule.key,
    ensures
        rule_map(after).contains_key(key) == rule_map(before).contains_key(key),
        rule_map(before).contains_key(key) ==> rule_map(after)[key] == rule_map(before)[key],
{
}

/// Clearing a scope removes exactly the rules of that scope, keeping the others in order.
pub proof fn law_clear_scope_removes_that_scope(rules: Seq<RuleView>, scope: PermissionRuleScope)
    ensures
        forall|i: int|
            0 <= i < rules.filter(other_scope(scope)).len() ==> (#[trigger] rules.filter(other_scope(scope))[i]).scope
                != scope,
        forall|i: int|
            0 <= i < rules.len() && rules[i].scope != scope ==> rules.filter(other_scope(scope)).contains(
                #[trigger] rules[i],
            ),
{
    broadcast use vstd::seq_lib::group_filter_ensures;

}

proof fn lemma_filter_keys_unique(v: Seq<RuleView>, scope: PermissionRuleScope)
    requires
        keys_unique(v),
    ensures
        keys_unique(v.filter(other_scope(scope))),
    decreases v.len(),
{
    reveal(Seq::filter);
    if v.len() > 0 {
        let d = v.drop_last();
        assert(keys_unique(d));
        lemma_filter_keys_unique(d, scope);
        let fd = d.filter(other_scope(scope));
        broadcast use vstd::seq_lib::group_filter_ensures;
        if v.last().scope != scope {
            let f = fd.push(v.last());
            assert forall|a: int, b: int| 0 <= a < f.len() && 0 <= b < f.len() && a != b implies f[a].key != f[b].key by {
                if a < fd.len() && b < fd.len() {
                } else if a == fd.len() {
                    assert(d.contains(fd[b]));
                    let q = choose|q: int| 0 <= q < d.len() && d[q] == fd[b];
                    assert(v[q] == d[q]);
                    assert(v[v.len() - 1] == v.last());
                } else {
                    assert(d.contains(fd[a]));
                    let q = choose|q: int| 0 <= q < d.len() && d[q] == fd[a];
                    assert(v[q] == d[q]);
                    assert(v[v.len() - 1] == v.last());
                }
            }
        }
    }
}

} // verus!
