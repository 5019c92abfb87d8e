//! The tools an agent may call, by name: registering a tool under a name already taken
//! replaces the earlier one.
use vstd::prelude::*;

use crate::provider::tool::ToolSpec;
use crate::text::str_eq;

verus! {

/// Some spec in `specs` is named `name`.
pub open spec fn names_tool(specs: Seq<ToolSpec>, name: Seq<char>) -> bool {
    exists|i: int| 0 <= i < specs.len() && specs[i].name@ == name
}

/// The position of the spec named `name` (meaningful when there is one).
pub open spec fn tool_index(specs: Seq<ToolSpec>, name: Seq<char>) -> int {
    choose|i: int| 0 <= i < specs.len() && specs[i].name@ == name
}

/// The spec registered under `name`, if any.
pub open spec fn lookup(specs: Seq<ToolSpec>, name: Seq<char>) -> Option<ToolSpec> {
    if names_tool(specs, name) {
        Some(specs[tool_index(specs, name)])
    } else {
        None
    }
}

/// The specs after registering `spec`: it takes the place of the spec with its name, or
/// comes last.
pub open spec fn registered(specs: Seq<ToolSpec>, spec: ToolSpec) -> Seq<ToolSpec> {
    if names_tool(specs, spec.name@) {
        specs.update(tool_index(specs, spec.name@), spec)
    } else {
        specs.push(spec)
    }
}

/// No two specs share a name.
pub open spec fn names_distinct(specs: Seq<ToolSpec>) -> bool {
    forall|i: int, j: int| 0 <= i < specs.len() && 0 <= j < specs.len() && i != j ==> specs[i].name@ != specs[j].name@
}

/// The registered tools' specs, in the order they were first registered.
#[derive(Debug, Clone)]
pub struct ToolRegistry {
    specs: Vec<ToolSpec>,
}

impl View for ToolRegistry {
    type V = Seq<ToolSpec>;

    closed spec fn view(&self) -> Seq<ToolSpec> {
        self.specs@
    }
}

impl ToolRegistry {
    pub closed spec fn wf(&self) -> bool {
        names_distinct(self.specs@)
    }

    /// A registry without tools.
    pub fn new_empty() -> (r: ToolRegistry)
        ensures
            r.wf(),
            r@.len() == 0,
    {
        ToolRegistry { specs: Vec::new() }
    }

    fn position(&self, name: &str) -> (r: Option<usize>)
        requires
            self.wf(),
        ensures
            match r {
                Some(i) => names_tool(self@, name@) && i as int == tool_index(self@, name@),
                None => !names_tool(self@, name@),
            },
    {
        let mut i: usize = 0;
        while i < self.specs.len()
            invariant
                i <= self.specs@.len(),
                names_distinct(self.specs@),
                forall|k: int| 0 <= k < i ==> self.specs@[k].name@ != name@,
            decreases self.specs.len() - i,
        {
            if str_eq(self.specs[i].name.as_str(), name) {
                proof {
                    let t = tool_index(self@, name@);
                    assert(self.specs@[t].name@ == name@);
                    assert(t == i);
                }
                return Some(i);
            }
            i += 1;
        }
        None
    }

    /// Registers `spec` under its name: it replaces the spec registered under that name, in
    /// its place, or comes last.
    pub fn register_tool(&mut self, spec: ToolSpec)
        requires
            old(self).wf(),
        ensures
            final(self).wf(),
            final(self)@ == registered(old(self)@, spec),
    {
        let ghost s = self@;
        match self.position(spec.name.as_str()) {
            Some(i) => {
                self.specs.set(i, spec);
                proof {
                    assert forall|a: int, b: int|
                        0 <= a < self.specs@.len() && 0 <= b < self.specs@.len() && a != b implies self.specs@[a].name@
                        != self.specs@[b].name@ by {
                        if a != i && b != i {
                            assert(s[a].name@ != s[b].name@);
                        } else if a == i {
                            assert(s[i as int].name@ == self.specs@[a].name@);
                            assert(s[i as int].name@ != s[b].name@);
                        } else {
                            assert(s[i as int].name@ != s[a].name@);
                        }
                    }
                }
            },
            None => {
                self.specs.push(spec);
                proof {
                    assert forall|a: int, b: int|
                        0 <= a < self.specs@.len() && 0 <= b < self.specs@.len() && a != b implies self.specs@[a].name@
                        != self.specs@[b].name@ by {
                        if a < s.len() && b < s.len() {
                            assert(s[a].name@ != s[b].name@);
                        } else if a == s.len() {
                            assert(s[b].name@ != spec.name@);
                        } else {
                            assert(s[a].name@ != spec.name@);
                        }
                    }
                }
            },
        }
    }

    /// The specs of the registered tools.
    pub fn tools(&self) -> (r: &Vec<ToolSpec>)
        ensures
            r@ == self@,
    {
        &self.specs
    }

    /// The spec registered under `name`.
    pub fn get_tool(&self, name: &str) -> (r: Option<&ToolSpec>)
        requires
            self.wf(),
        ensures
            match lookup(self@, name@) {
                Some(s) => r matches Some(t) && *t == s,
                None => r is None,
            },
    {
        match self.position(name) {
            Some(i) => Some(&self.specs[i]),
            None => None,
        }
    }
}

/// A tool is found under its name once registered, and registering it leaves every other
/// name as it was.
pub proof fn law_registered_tool_is_found(before: Seq<ToolSpec>, spec: ToolSpec, other: Seq<char>)
    requires
        names_distinct(before),
        other != spec.name@,
    ensures
        lookup(registered(before, spec), spec.name@) == Some(spec),
        lookup(registered(before, spec), other) == lookup(before, other),
{
    let after = registered(before, spec);
    if names_tool(before, spec.name@) {
        let i = tool_index(before, spec.name@);
        assert(after[i].name@ == spec.name@);
        let j = tool_index(after, spec.name@);
        assert(after[j].name@ == spec.name@);
        if j != i {
            assert(before[j].name@ == spec.name@);
            assert(before[i].name@ == spec.name@);
        }
        if names_tool(before, other) {
            let k = tool_index(before, other);
            assert(k != i);
            assert(after[k].name@ == other);
            let m = tool_index(after, other);
            assert(after[m].name@ == other);
            if m != k {
                assert(m != i);
                assert(before[m].name@ == other);
            }
        } else {
            if names_tool(after, other) {
                let m = tool_index(after, other);
                assert(m != i);
                assert(before[m].name@ == other);
            }
        }
    } else {
        let n = before.len() as int;
        assert(after[n].name@ == spec.name@);
        let j = tool_index(after, spec.name@);
        if j != n {
            assert(before[j].name@ == spec.name@);
        }
        if names_tool(before, other) {
            let k = tool_index(before, other);
            assert(after[k].name@ == other);
            let m = tool_index(after, other);
            if m != k {
                assert(m != n);
                assert(before[m].name@ == other);
            }
        } else {
            if names_tool(after, other) {
                let m = tool_index(after, other);
                assert(m != n);
                assert(before[m].name@ == other);
            }
        }
    }
}

} // verus!
