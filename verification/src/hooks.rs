//! Hooks: per-component property overrides, keyed by component name, that are
//! laid over a component's public data when it is drawn.

use vstd::prelude::*;
use crate::json::{
    json_entries, no_properties, object_entries, object_insert, object_len, object_new,
    JsonObject,
};

verus! {

/// The hooks of a screen: for each component name, the properties that
/// override that component's data.
pub struct Hooks {
    entries: Vec<(String, JsonObject)>,
}

impl Hooks {
    /// No component name occurs twice.
    pub closed spec fn wf(&self) -> bool {
        forall|i: int, j: int|
            0 <= i < j < self.entries.len() ==> #[trigger] self.entries@[i].0@ != #[trigger] self.entries@[j].0@
    }

    spec fn has_key_at(&self, k: Seq<char>, i: int) -> bool {
        0 <= i < self.entries.len() && self.entries@[i].0@ == k
    }

    /// The properties stored for each component name.
    pub closed spec fn table(&self) -> Map<Seq<char>, Map<Seq<char>, serde_json::Value>> {
        Map::new(
            |k: Seq<char>| exists|i: int| self.has_key_at(k, i),
            |k: Seq<char>| json_entries(self.entries@[choose|i: int| self.has_key_at(k, i)].1),
        )
    }

    proof fn lemma_entry(&self, i: int)
        requires
            self.wf(),
            0 <= i < self.entries.len(),
        ensures
            self.table().contains_key(self.entries@[i].0@),
            self.table()[self.entries@[i].0@] == json_entries(self.entries@[i].1),
    {
        let k = self.entries@[i].0@;
        assert(self.has_key_at(k, i));
        let j = choose|j: int| self.has_key_at(k, j);
        if j != i {
            if i < j {
                assert(self.entries@[i].0@ != self.entries@[j].0@);
            } else {
                assert(self.entries@[j].0@ != self.entries@[i].0@);
            }
        }
    }

    /// Hooks for no component.
    pub fn new() -> (r: Hooks)
        ensures
            r.wf(),
            r.table() == Map::<Seq<char>, Map<Seq<char>, serde_json::Value>>::empty(),
    {
        let r = Hooks { entries: Vec::new() };
        assert(r.table() =~= Map::<Seq<char>, Map<Seq<char>, serde_json::Value>>::empty());
        r
    }

    /// The position of `key` among the entries.
    fn position(&self, key: &String) -> (r: Option<usize>)
        requires
            self.wf(),
        ensures
            match r {
                Some(i) => i < self.entries.len() && self.entries@[i as int].0@ == key@,
                None => !self.table().contains_key(key@),
            },
    {
        let n = self.entries.len();
        let mut i: usize = 0;
        while i < n
            invariant
                n == self.entries.len(),
                i <= n,
                forall|j: int| 0 <= j < i ==> self.entries@[j].0@ != key@,
            decreases n - i,
        {
            if self.entries[i].0 == *key {
                return Some(i);
            }
            i = i + 1;
        }
        proof {
            if self.table().contains_key(key@) {
                let j = choose|j: int| self.has_key_at(key@, j);
                assert(self.entries@[j].0@ != key@);
            }
        }
        None
    }

    /// The hooks stored for `component`, if any.
    pub fn get(&self, component: &str) -> (r: Option<&JsonObject>)
        requires
            self.wf(),
        ensures
            match r {
                Some(m) => self.table().contains_key(component@) && json_entries(*m) == self.table()[component@],
                None => !self.table().contains_key(component@),
            },
    {
        let key = component.to_owned();
        match self.position(&key) {
            Some(i) => {
                proof {
                    self.lemma_entry(i as int);
                }
                Some(&self.entries[i].1)
            },
            None => None,
        }
    }
}

/// The hooks that `table` holds for `component`: none when it holds no entry for it.
pub open spec fn hooks_of(
    table: Map<Seq<char>, Map<Seq<char>, serde_json::Value>>,
    component: Seq<char>,
) -> Map<Seq<char>, serde_json::Value> {
    if table.contains_key(component) {
        table[component]
    } else {
        no_properties()
    }
}

/// `table` with `property` of `component` set to `value`.
pub open spec fn with_hook(
    table: Map<Seq<char>, Map<Seq<char>, serde_json::Value>>,
    component: Seq<char>,
    property: Seq<char>,
    value: serde_json::Value,
) -> Map<Seq<char>, Map<Seq<char>, serde_json::Value>> {
    table.insert(component, hooks_of(table, component).insert(property, value))
}

/// `base` with `hooks` laid over it.
pub open spec fn joined(
    base: Map<Seq<char>, serde_json::Value>,
    hooks: Map<Seq<char>, serde_json::Value>,
) -> Map<Seq<char>, serde_json::Value> {
    base.union_prefer_right(hooks)
}

/// Sets `property` of `component` to `value`, creating the component's entry
/// when it has none; every other hook stays as it was.
pub fn add_hook(hooks: &mut Hooks, component: &str, property: &str, value: serde_json::Value)
    requires
        old(hooks).wf(),
    ensures
        final(hooks).wf(),
        final(hooks).table() == with_hook(old(hooks).table(), component@, property@, value),
{
    let ghost old_h = *hooks;
    let key = component.to_owned();
    let prop = property.to_owned();
    match hooks.position(&key) {
        Some(i) => {
            proof {
                old_h.lemma_entry(i as int);
            }
            object_insert(&mut hooks.entries[i].1, prop, value);
            proof {
                let ex = old_h.table().insert(key@, hooks_of(old_h.table(), key@).insert(prop@, value));
                assert(hooks.entries@.len() == old_h.entries@.len());
                assert forall|j: int| 0 <= j < hooks.entries.len() && j != i implies hooks.entries@[j]
                    == old_h.entries@[j] by {}
                assert(hooks.wf()) by {
                    assert forall|a: int, b: int| 0 <= a < b < hooks.entries.len() implies
                        #[trigger] hooks.entries@[a].0@ != #[trigger] hooks.entries@[b].0@ by {
                        assert(old_h.entries@[a].0@ != old_h.entries@[b].0@);
                    }
                }
                assert forall|k: Seq<char>| hooks.table().contains_key(k) == ex.contains_key(k) by {
                    if hooks.table().contains_key(k) {
                        let j = choose|j: int| hooks.has_key_at(k, j);
                        assert(old_h.has_key_at(k, j));
                    }
                    if ex.contains_key(k) {
                        if k == key@ {
                            assert(hooks.has_key_at(k, i as int));
                        } else {
                            let j = choose|j: int| old_h.has_key_at(k, j);
                            assert(hooks.has_key_at(k, j));
                        }
                    }
                }
                assert forall|k: Seq<char>| hooks.table().contains_key(k) implies hooks.table()[k] == ex[k] by {
                    let j = choose|j: int| hooks.has_key_at(k, j);
                    hooks.lemma_entry(j);
                    old_h.lemma_entry(j);
                }
                assert(hooks.table() =~= ex);
            }
        },
        None => {
            let mut props = object_new();
            object_insert(&mut props, prop, value);
            hooks.entries.push((key, props));
            proof {
                let n = old_h.entries.len() as int;
                let ex = old_h.table().insert(key@, hooks_of(old_h.table(), key@).insert(prop@, value));
                assert(json_entries(props) =~= hooks_of(old_h.table(), key@).insert(prop@, value));
                assert forall|j: int| 0 <= j < n implies hooks.entries@[j] == old_h.entries@[j] by {}
                assert forall|j: int| 0 <= j < n implies old_h.entries@[j].0@ != key@ by {
                    assert(old_h.has_key_at(old_h.entries@[j].0@, j));
                }
                assert(hooks.wf()) by {
                    assert forall|a: int, b: int| 0 <= a < b < hooks.entries.len() implies
                        #[trigger] hooks.entries@[a].0@ != #[trigger] hooks.entries@[b].0@ by {
                        if b < n {
                            assert(old_h.entries@[a].0@ != old_h.entries@[b].0@);
                        }
                    }
                }
                assert forall|k: Seq<char>| hooks.table().contains_key(k) == ex.contains_key(k) by {
                    if hooks.table().contains_key(k) {
                        let j = choose|j: int| hooks.has_key_at(k, j);
                        if j < n {
                            assert(old_h.has_key_at(k, j));
                        }
                    }
                    if ex.contains_key(k) {
                        if k == key@ {
                            assert(hooks.has_key_at(k, n));
                        } else {
                            let j = choose|j: int| old_h.has_key_at(k, j);
                            assert(hooks.has_key_at(k, j));
                        }
                    }
                }
                assert forall|k: Seq<char>| hooks.table().contains_key(k) implies hooks.table()[k] == ex[k] by {
                    let j = choose|j: int| hooks.has_key_at(k, j);
                    hooks.lemma_entry(j);
                    if j < n {
                        old_h.lemma_entry(j);
                    }
                }
                assert(hooks.table() =~= ex);
            }
        },
    }
}

/// The hooks that apply to a component drawn under `name`: those stored for
/// that name. A component without a name, or whose name has no entry, gets
/// none (`None`).
pub fn hooks_for<'a>(hooks: &'a Hooks, name: &Option<String>) -> (r: Option<&'a JsonObject>)
    requires
        hooks.wf(),
    ensures
        match name {
            None => r is None,
            Some(n) => match r {
                Some(m) => hooks.table().contains_key(n@) && json_entries(*m) == hooks.table()[n@],
                None => !hooks.table().contains_key(n@),
            },
        },
{
    match name {
        Some(n) => hooks.get(n.as_str()),
        None => None,
    }
}

/// Whether `hooks` sets any property, so that the data they apply to must be
/// merged with them before drawing.
pub fn has_hooks(hooks: &JsonObject) -> (r: bool)
    ensures
        r == (json_entries(*hooks) != no_properties()),
{
    object_len(hooks) != 0
}

/// The map that a list of entries with distinct keys spells out.
pub open spec fn entries_map(s: Seq<(String, serde_json::Value)>) -> Map<Seq<char>, serde_json::Value>
    decreases s.len(),
{
    if s.len() == 0 {
        no_properties()
    } else {
        entries_map(s.drop_last()).insert(s.last().0@, s.last().1)
    }
}

proof fn lemma_entries_map(s: Seq<(String, serde_json::Value)>)
    requires
        forall|i: int, j: int| 0 <= i < j < s.len() ==> s[i].0@ != s[j].0@,
    ensures
        forall|i: int|
            0 <= i < s.len() ==> entries_map(s).contains_key(#[trigger] s[i].0@) && entries_map(s)[s[i].0@]
                == s[i].1,
        forall|k: Seq<char>|
            entries_map(s).contains_key(k) ==> exists|i: int| 0 <= i < s.len() && #[trigger] s[i].0@ == k,
    decreases s.len(),
{
    if s.len() > 0 {
        let t = s.drop_last();
        lemma_entries_map(t);
        assert forall|i: int| 0 <= i < s.len() implies entries_map(s).contains_key(#[trigger] s[i].0@)
            && entries_map(s)[s[i].0@] == s[i].1 by {
            if i < s.len() - 1 {
                assert(t[i] == s[i]);
                assert(s[i].0@ != s[s.len() - 1].0@);
            }
        }
        assert forall|k: Seq<char>| entries_map(s).contains_key(k) implies exists|i: int|
            0 <= i < s.len() && #[trigger] s[i].0@ == k by {
            if k != s.last().0@ {
                assert(entries_map(t).contains_key(k));
                let i = choose|i: int| 0 <= i < t.len() && #[trigger] t[i].0@ == k;
                assert(s[i] == t[i]);
                assert(s[i].0@ == k);
            } else {
                assert(s[s.len() - 1].0@ == k);
            }
        }
    }
}

/// Lays `hooks` over `target`: every property that `hooks` sets takes the
/// hooked value, every other property of `target` stays.
pub fn apply_hooks(target: &mut JsonObject, hooks: &JsonObject)
    ensures
        json_entries(*final(target)) == joined(json_entries(*old(target)), json_entries(*hooks)),
{
    let pairs = object_entries(hooks);
    let ghost start = json_entries(*target);
    let n = pairs.len();
    let ghost all = pairs@;
    let mut rest = pairs;
    let mut i: usize = 0;
    while i < n
        invariant
            n == all.len(),
            i <= n,
            rest@ == all.skip(i as int),
            json_entries(*target) == start.union_prefer_right(entries_map(all.take(i as int))),
        decreases n - i,
    {
        let (k, v) = rest.remove(0);
        assert(all[i as int] == all.skip(i as int)[0]);
        object_insert(target, k, v);
        proof {
            assert(rest@ =~= all.skip(i + 1));
            assert(all.take(i + 1).drop_last() =~= all.take(i as int));
            assert(json_entries(*target) =~= start.union_prefer_right(entries_map(all.take(i + 1))));
        }
        i = i + 1;
    }
    proof {
        assert(all.take(n as int) =~= all);
        lemma_entries_map(all);
        assert(entries_map(all) =~= json_entries(*hooks));
    }
}

/// A hook that is written is read back for its component; the component's
/// other properties, and the hooks of every other component, stay.
pub proof fn hook_read_after_write(
    table: Map<Seq<char>, Map<Seq<char>, serde_json::Value>>,
    component: Seq<char>,
    property: Seq<char>,
    value: serde_json::Value,
    other_component: Seq<char>,
    other_property: Seq<char>,
)
    ensures
        hooks_of(with_hook(table, component, property, value), component).contains_key(property),
        hooks_of(with_hook(table, component, property, value), component)[property] == value,
        other_property != property ==> hooks_of(with_hook(table, component, property, value), component).contains_key(
            other_property,
        ) == hooks_of(table, component).contains_key(other_property),
        other_property != property && hooks_of(table, component).contains_key(other_property) ==> hooks_of(
            with_hook(table, component, property, value),
            component,
        )[other_property] == hooks_of(table, component)[other_property],
        other_component != component ==> hooks_of(with_hook(table, component, property, value), other_component)
            == hooks_of(table, other_component),
{
}

/// Writing the same hook twice leaves the hooks as writing it once.
pub proof fn hook_write_idempotent(
    table: Map<Seq<char>, Map<Seq<char>, serde_json::Value>>,
    component: Seq<char>,
    property: Seq<char>,
    value: serde_json::Value,
)
    ensures
        with_hook(with_hook(table, component, property, value), component, property, value) == with_hook(
            table,
            component,
            property,
            value,
        ),
{
    let once = with_hook(table, component, property, value);
    assert(hooks_of(once, component).insert(property, value) =~= hooks_of(once, component));
    assert(with_hook(once, component, property, value) =~= once);
}

/// Laying hooks over data: a hooked property takes the hook's value, every
/// other property keeps the data's value; no hooks change nothing; laying the
/// same hooks twice is laying them once.
pub proof fn join_laws(
    base: Map<Seq<char>, serde_json::Value>,
    hooks: Map<Seq<char>, serde_json::Value>,
    property: Seq<char>,
)
    ensures
        hooks.contains_key(property) ==> joined(base, hooks).contains_key(property) && joined(base, hooks)[property]
            == hooks[property],
        !hooks.contains_key(property) ==> joined(base, hooks).contains_key(property) == base.contains_key(property),
        !hooks.contains_key(property) && base.contains_key(property) ==> joined(base, hooks)[property]
            == base[property],
        joined(base, no_properties()) == base,
        joined(joined(base, hooks), hooks) == joined(base, hooks),
{
    assert(joined(base, no_properties()) =~= base);
    assert(joined(joined(base, hooks), hooks) =~= joined(base, hooks));
}

} // verus!
