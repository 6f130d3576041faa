//! The component catalogue and the construction of a component tree from a
//! screen description.

use vstd::prelude::*;
use crate::json::{
    json_as_array, json_as_str, json_height, json_index, json_parse, parse_json, value_as_array,
    value_as_str, value_clone, value_index,
};

verus! {

/// The catalogue of component types: each registered name holds one slot,
/// where the caller keeps that type's initialiser.
pub struct Manager {
    names: Vec<String>,
}

/// One node of a screen description, as read from the screen's JSON: the name
/// of its component type (absent when the description gives none as a
/// string), the component's data, the node's own name, and its children.
pub struct ScreenNode {
    pub kind: Option<String>,
    pub data: serde_json::Value,
    pub name: Option<String>,
    pub children: Vec<ScreenNode>,
}

/// One built component: what its type's initialiser made, its name and its
/// built children.
pub struct TreeNode<T> {
    pub value: T,
    pub name: Option<String>,
    pub children: Vec<TreeNode<T>>,
}

/// What building a screen description gives.
pub enum BuildOutcome<T> {
    /// Every node was built.
    Built(TreeNode<T>),
    /// A node had no type, or an initialiser gave nothing.
    Incomplete,
    /// A node named a type that is not registered.
    UnknownType(String),
}

/// `s` as the characters of its string, where there is one.
pub open spec fn chars_of(s: Option<String>) -> Option<Seq<char>> {
    match s {
        Some(s) => Some(s@),
        None => None,
    }
}

/// `node` is what the JSON value `v` describes: the component type is `v`'s
/// "type" and the node's name its "name", each where it is a string; the data
/// is `v`'s "data" (`null` where `v` has none); the children are what the
/// elements of `v`'s "children" describe, where it is an array, and there are
/// none otherwise.
pub open spec fn describes(v: serde_json::Value, node: ScreenNode) -> bool
    decreases node,
{
    &&& chars_of(node.kind) == json_as_str(json_index(v, "type"@))
    &&& chars_of(node.name) == json_as_str(json_index(v, "name"@))
    &&& node.data == json_index(v, "data"@)
    &&& match json_as_array(json_index(v, "children"@)) {
        Some(cs) => node.children.len() == cs.len() && forall|i: int|
            0 <= i < cs.len() ==> describes(cs[i], #[trigger] node.children@[i]),
        None => node.children.len() == 0,
    }
}

/// Reads the screen node that the JSON value `v` describes.
pub fn describe(v: &serde_json::Value) -> (r: ScreenNode)
    ensures
        describes(*v, r),
    decreases json_height(*v),
{
    let kind = value_as_str(value_index(v, "type"));
    let name = value_as_str(value_index(v, "name"));
    let data = value_clone(value_index(v, "data"));
    let listed = value_index(v, "children");
    let mut children: Vec<ScreenNode> = Vec::new();
    match value_as_array(listed) {
        Some(cs) => {
            let n = cs.len();
            let mut i: usize = 0;
            while i < n
                invariant
                    n == cs.len(),
                    i <= n,
                    children.len() == i,
                    json_height(*listed) <= json_height(*v),
                    forall|j: int| 0 <= j < cs.len() ==> json_height(#[trigger] cs@[j]) < json_height(*listed),
                    forall|j: int| 0 <= j < i ==> describes(cs@[j], #[trigger] children@[j]),
                decreases n - i,
            {
                let c = describe(&cs[i]);
                let ghost before = children@;
                children.push(c);
                proof {
                    assert forall|j: int| 0 <= j < i + 1 implies describes(cs@[j], #[trigger] children@[j]) by {
                        if j < i {
                            assert(children@[j] == before[j]);
                        }
                    }
                }
                i = i + 1;
            }
        },
        None => {},
    }
    ScreenNode { kind, data, name, children }
}

/// `names` with `name` registered: unchanged when it is already there, else
/// with `name` added after all others.
pub open spec fn with_registered(names: Seq<Seq<char>>, name: Seq<char>) -> Seq<Seq<char>> {
    if names.contains(name) {
        names
    } else {
        names.push(name)
    }
}

impl Manager {
    /// No name is registered twice.
    pub closed spec fn wf(&self) -> bool {
        forall|i: int, j: int|
            0 <= i < j < self.names.len() ==> #[trigger] self.names@[i]@ != #[trigger] self.names@[j]@
    }

    /// The registered names, in the order of their slots.
    pub closed spec fn registered(&self) -> Seq<Seq<char>> {
        self.names@.map_values(|s: String| s@)
    }

    /// The slot of a registered name.
    pub open spec fn slot_of(&self, name: Seq<char>) -> int {
        choose|i: int| 0 <= i < self.registered().len() && self.registered()[i] == name
    }

    proof fn lemma_slot(&self, i: int)
        requires
            self.wf(),
            0 <= i < self.registered().len(),
        ensures
            self.slot_of(self.registered()[i]) == i,
    {
        let k = self.registered()[i];
        let j = self.slot_of(k);
        if j != i {
            if i < j {
                assert(self.names@[i]@ != self.names@[j]@);
            } else {
                assert(self.names@[j]@ != self.names@[i]@);
            }
        }
    }

    /// `done` are the built trees of the first `done.len()` nodes of `children`.
    pub open spec fn built_prefix<T, F: Fn(usize, &serde_json::Value, usize) -> Option<T>>(
        &self,
        make: F,
        children: Seq<ScreenNode>,
        done: Seq<TreeNode<T>>,
    ) -> bool {
        &&& done.len() <= children.len()
        &&& forall|i: int|
            0 <= i < done.len() ==> #[trigger] self.builds(make, children[i], BuildOutcome::Built(done[i]))
    }

    /// `done` is no longer than `children`.
    pub open spec fn fits<T>(children: Seq<ScreenNode>, done: Seq<TreeNode<T>>) -> bool {
        done.len() <= children.len()
    }

    /// `r` is what building `node` may give, with `make` as the initialiser of
    /// each node's type, called with the type's slot, the node's data and its
    /// number of children. A node without a type is incomplete; a node of an
    /// unregistered type gives that type's name. Otherwise its children are
    /// built in order, and the first that is not built gives the node's
    /// outcome; when all are built, the initialiser is called and the node is
    /// built from its result, or incomplete when it gives nothing.
    pub open spec fn builds<T, F: Fn(usize, &serde_json::Value, usize) -> Option<T>>(
        &self,
        make: F,
        node: ScreenNode,
        r: BuildOutcome<T>,
    ) -> bool
        decreases node,
    {
        match node.kind {
            None => r is Incomplete,
            Some(k) => if !self.registered().contains(k@) {
                r matches BuildOutcome::UnknownType(s) && s@ == k@
            } else {
                let args = (self.slot_of(k@) as usize, &node.data, node.children.len());
                ||| exists|done: Seq<TreeNode<T>>|
                    #[trigger] Self::fits(node.children@, done) && done.len() == node.children.len()
                        && (forall|i: int| 0 <= i < done.len() ==> self.builds(make, node.children@[i], BuildOutcome::Built(done[i])))
                        && ((call_ensures(make, args, None) && r is Incomplete) || (r matches BuildOutcome::Built(t)
                        && t.name == node.name && t.children@ == done && call_ensures(make, args, Some(t.value))))
                ||| exists|done: Seq<TreeNode<T>>|
                    #[trigger] Self::fits(node.children@, done) && done.len() < node.children.len()
                        && (forall|i: int| 0 <= i < done.len() ==> self.builds(make, node.children@[i], BuildOutcome::Built(done[i])))
                        && !(r is Built) && self.builds(make, node.children@[done.len() as int], r)
            },
        }
    }

    proof fn lemma_builds_complete<T, F: Fn(usize, &serde_json::Value, usize) -> Option<T>>(
        &self,
        make: F,
        node: ScreenNode,
        r: BuildOutcome<T>,
        done: Seq<TreeNode<T>>,
        made: Option<T>,
    )
        requires
            node.kind is Some,
            self.registered().contains(node.kind->0@),
            done.len() == node.children.len(),
            forall|i: int| 0 <= i < done.len() ==> self.builds(make, node.children@[i], BuildOutcome::Built(done[i])),
            call_ensures(make, (self.slot_of(node.kind->0@) as usize, &node.data, node.children.len()), made),
            made is None ==> r is Incomplete,
            made is Some ==> (r matches BuildOutcome::Built(t) && t.name == node.name && t.children@ == done
                && Some(t.value) == made),
        ensures
            self.builds(make, node, r),
    {
        assert(Self::fits(node.children@, done));
    }

    proof fn lemma_builds_failed_child<T, F: Fn(usize, &serde_json::Value, usize) -> Option<T>>(
        &self,
        make: F,
        node: ScreenNode,
        r: BuildOutcome<T>,
        d: Seq<TreeNode<T>>,
    )
        requires
            node.kind is Some,
            self.registered().contains(node.kind->0@),
            d.len() < node.children.len(),
            forall|i: int| 0 <= i < d.len() ==> self.builds(make, node.children@[i], BuildOutcome::Built(d[i])),
            !(r is Built),
            self.builds(make, node.children@[d.len() as int], r),
        ensures
            self.builds(make, node, r),
    {
        assert(Self::fits(node.children@, d));
    }

    /// An empty catalogue.
    pub fn new() -> (r: Manager)
        ensures
            r.wf(),
            r.registered() == Seq::<Seq<char>>::empty(),
    {
        let r = Manager { names: Vec::new() };
        assert(r.registered() =~= Seq::<Seq<char>>::empty());
        r
    }

    /// The slot of the type registered under `name`, if there is one.
    pub fn lookup(&self, name: &str) -> (r: Option<usize>)
        requires
            self.wf(),
        ensures
            match r {
                Some(i) => i < self.registered().len() && self.registered()[i as int] == name@ && self.slot_of(name@)
                    == i,
                None => !self.registered().contains(name@),
            },
    {
        let key = name.to_owned();
        let n = self.names.len();
        let mut i: usize = 0;
        while i < n
            invariant
                self.wf(),
                n == self.names.len(),
                i <= n,
                key@ == name@,
                forall|j: int| 0 <= j < i ==> self.names@[j]@ != key@,
            decreases n - i,
        {
            if self.names[i] == key {
                proof {
                    self.lemma_slot(i as int);
                }
                return Some(i);
            }
            i = i + 1;
        }
        proof {
            if self.registered().contains(name@) {
                let j = choose|j: int| 0 <= j < self.registered().len() && self.registered()[j] == name@;
                assert(self.names@[j]@ != key@);
            }
        }
        None
    }

    /// Registers a component type under `name` and gives its slot: the slot it
    /// already had, where the name was registered before (its initialiser is
    /// then replaced there), or a new slot after all others.
    pub fn register_component_type(&mut self, name: &str) -> (slot: usize)
        requires
            old(self).wf(),
        ensures
            final(self).wf(),
            final(self).registered() == with_registered(old(self).registered(), name@),
            slot < final(self).registered().len() && final(self).registered()[slot as int] == name@,
            final(self).slot_of(name@) == slot,
            old(self).registered().contains(name@) ==> final(self).registered() == old(self).registered()
                && slot < old(self).registered().len() && old(self).registered()[slot as int] == name@,
            !old(self).registered().contains(name@) ==> final(self).registered() == old(self).registered().push(name@)
                && slot == old(self).registered().len(),
    {
        match self.lookup(name) {
            Some(i) => i,
            None => {
                let ghost before = *self;
                let n = self.names.len();
                self.names.push(name.to_owned());
                proof {
                    assert(self.registered() =~= before.registered().push(name@));
                    assert forall|a: int, b: int| 0 <= a < b < self.names.len() implies
                        #[trigger] self.names@[a]@ != #[trigger] self.names@[b]@ by {
                        if b < n {
                            assert(before.names@[a]@ != before.names@[b]@);
                        } else {
                            assert(before.registered()[a] == before.names@[a]@);
                        }
                    }
                    self.lemma_slot(n as int);
                }
                n
            },
        }
    }

    /// Builds the component tree that `node` describes, calling `make` for
    /// every node whose subtree was built, children first, as `builds` states.
    pub fn build_node<T, F: Fn(usize, &serde_json::Value, usize) -> Option<T>>(
        &self,
        node: &ScreenNode,
        make: &F,
    ) -> (r: BuildOutcome<T>)
        requires
            self.wf(),
            forall|slot: usize, data: &serde_json::Value, n: usize| make.requires((slot, data, n)),
        ensures
            self.builds(*make, *node, r),
        decreases node,
    {
        match &node.kind {
            None => BuildOutcome::Incomplete,
            Some(k) => match self.lookup(k.as_str()) {
                None => BuildOutcome::UnknownType(k.clone()),
                Some(slot) => {
                    proof {
                        self.lemma_slot(slot as int);
                    }
                    let n = node.children.len();
                    let mut done: Vec<TreeNode<T>> = Vec::new();
                    let mut i: usize = 0;
                    while i < n
                        invariant
                            self.wf(),
                            forall|slot: usize, data: &serde_json::Value, n: usize| make.requires((slot, data, n)),
                            n == node.children.len(),
                            node.kind == Some(*k),
                            self.registered().contains(k@),
                            self.slot_of(k@) == slot,
                            i <= n,
                            done.len() == i,
                            self.built_prefix(*make, node.children@, done@),
                        decreases n - i,
                    {
                        let c = self.build_node(&node.children[i], make);
                        match c {
                            BuildOutcome::Built(t) => {
                                let ghost before = done@;
                                done.push(t);
                                proof {
                                    assert forall|j: int| 0 <= j < done.len() implies self.builds(
                                        *make,
                                        node.children@[j],
                                        BuildOutcome::Built(#[trigger] done@[j]),
                                    ) by {
                                        if j < i {
                                            assert(done@[j] == before[j]);
                                        }
                                    }
                                }
                            },
                            other => {
                                proof {
                                    self.lemma_builds_failed_child(*make, *node, other, done@);
                                }
                                return other;
                            },
                        }
                        i = i + 1;
                    }
                    let name = match &node.name {
                        Some(s) => Some(s.clone()),
                        None => None,
                    };
                    let made = make(slot, &node.data, n);
                    let ghost made_copy = made;
                    let ghost done_view = done@;
                    let r = match made {
                        None => BuildOutcome::Incomplete,
                        Some(v) => BuildOutcome::Built(TreeNode { value: v, name, children: done }),
                    };
                    proof {
                        self.lemma_builds_complete(*make, *node, r, done_view, made_copy);
                    }
                    r
                },
            },
        }
    }

    /// Builds the component tree that the JSON value `v` describes, as
    /// `build_node` does for the screen node that `describe` reads from `v`.
    /// A node of an unregistered type gives `UnknownType` with that type's name,
    /// at the point of the build where that node is reached.
    pub fn build_tree<T, F: Fn(usize, &serde_json::Value, usize) -> Option<T>>(
        &self,
        v: &serde_json::Value,
        make: &F,
    ) -> (r: BuildOutcome<T>)
        requires
            self.wf(),
            forall|slot: usize, data: &serde_json::Value, n: usize| make.requires((slot, data, n)),
        ensures
            exists|node: ScreenNode| describes(*v, node) && #[trigger] self.builds(*make, node, r),
    {
        let node = describe(v);
        let r = self.build_node(&node, make);
        assert(describes(*v, node) && self.builds(*make, node, r));
        r
    }

    /// Builds the screen whose JSON is `text`: nothing where the text is not
    /// JSON, and otherwise what `build_tree` gives for the parsed value.
    pub fn make_screen<T, F: Fn(usize, &serde_json::Value, usize) -> Option<T>>(
        &self,
        text: &str,
        make: &F,
    ) -> (r: Option<BuildOutcome<T>>)
        requires
            self.wf(),
            forall|slot: usize, data: &serde_json::Value, n: usize| make.requires((slot, data, n)),
        ensures
            (r is Some) == (json_parse(text@) is Some),
            r matches Some(o) ==> exists|node: ScreenNode|
                describes(json_parse(text@).unwrap(), node) && #[trigger] self.builds(*make, node, o),
    {
        match parse_json(text) {
            None => None,
            Some(v) => Some(self.build_tree(&v, make)),
        }
    }

}

/// `p` holds of `node` and of every node below it.
pub open spec fn every_node(node: ScreenNode, p: spec_fn(ScreenNode) -> bool) -> bool
    decreases node,
{
    &&& p(node)
    &&& forall|i: int| 0 <= i < node.children.len() ==> every_node(#[trigger] node.children@[i], p)
}

/// `p` holds of `node` or of some node below it.
pub open spec fn some_node(node: ScreenNode, p: spec_fn(ScreenNode) -> bool) -> bool
    decreases node,
{
    ||| p(node)
    ||| exists|i: int| 0 <= i < node.children.len() && some_node(#[trigger] node.children@[i], p)
}

/// `t` has the shape of `node`: the same names, and as many children at every level.
pub open spec fn mirrors<T>(t: TreeNode<T>, node: ScreenNode) -> bool
    decreases node,
{
    &&& t.name == node.name
    &&& t.children.len() == node.children.len()
    &&& forall|i: int| 0 <= i < node.children.len() ==> mirrors(t.children@[i], #[trigger] node.children@[i])
}

impl Manager {
    /// All children of `node` were built, as `done`, and the node's own
    /// initialiser then gave what `r` holds: nothing where `r` is incomplete.
    pub open spec fn completes<T, F: Fn(usize, &serde_json::Value, usize) -> Option<T>>(
        &self,
        make: F,
        node: ScreenNode,
        done: Seq<TreeNode<T>>,
        r: BuildOutcome<T>,
    ) -> bool {
        let args = (self.slot_of(node.kind->0@) as usize, &node.data, node.children.len());
        &&& done.len() == node.children.len()
        &&& forall|i: int| 0 <= i < done.len() ==> self.builds(make, node.children@[i], BuildOutcome::Built(done[i]))
        &&& ((call_ensures(make, args, None) && r is Incomplete) || (r matches BuildOutcome::Built(t) && t.name
            == node.name && t.children@ == done && call_ensures(make, args, Some(t.value))))
    }

    /// The children of `node` before the `done.len()`-th were built, as `done`,
    /// and that child's build gave `r`, which is not a built tree.
    pub open spec fn stops_at<T, F: Fn(usize, &serde_json::Value, usize) -> Option<T>>(
        &self,
        make: F,
        node: ScreenNode,
        done: Seq<TreeNode<T>>,
        r: BuildOutcome<T>,
    ) -> bool {
        &&& done.len() < node.children.len()
        &&& forall|i: int| 0 <= i < done.len() ==> self.builds(make, node.children@[i], BuildOutcome::Built(done[i]))
        &&& !(r is Built)
        &&& self.builds(make, node.children@[done.len() as int], r)
    }

    /// For a node of a registered type, a build either completes or stops at a child.
    pub proof fn lemma_registered_build<T, F: Fn(usize, &serde_json::Value, usize) -> Option<T>>(
        &self,
        make: F,
        node: ScreenNode,
        r: BuildOutcome<T>,
    )
        requires
            self.builds(make, node, r),
            node.kind is Some,
            self.registered().contains(node.kind->0@),
        ensures
            (exists|done: Seq<TreeNode<T>>| #[trigger] self.completes(make, node, done, r)) || (exists|
                done: Seq<TreeNode<T>>,
            | #[trigger] self.stops_at(make, node, done, r)),
    {
        let args = (self.slot_of(node.kind->0@) as usize, &node.data, node.children.len());
        if exists|done: Seq<TreeNode<T>>|
            #[trigger] Self::fits(node.children@, done) && done.len() == node.children.len()
                && (forall|i: int| 0 <= i < done.len() ==> self.builds(make, node.children@[i], BuildOutcome::Built(done[i])))
                && ((call_ensures(make, args, None) && r is Incomplete) || (r matches BuildOutcome::Built(t)
                && t.name == node.name && t.children@ == done && call_ensures(make, args, Some(t.value)))) {
            let done = choose|done: Seq<TreeNode<T>>|
                #[trigger] Self::fits(node.children@, done) && done.len() == node.children.len()
                    && (forall|i: int| 0 <= i < done.len() ==> self.builds(make, node.children@[i], BuildOutcome::Built(done[i])))
                    && ((call_ensures(make, args, None) && r is Incomplete) || (r matches BuildOutcome::Built(t)
                    && t.name == node.name && t.children@ == done && call_ensures(make, args, Some(t.value))));
            assert(self.completes(make, node, done, r));
        } else {
            let done = choose|done: Seq<TreeNode<T>>|
                #[trigger] Self::fits(node.children@, done) && done.len() < node.children.len()
                    && (forall|i: int| 0 <= i < done.len() ==> self.builds(make, node.children@[i], BuildOutcome::Built(done[i])))
                    && !(r is Built) && self.builds(make, node.children@[done.len() as int], r);
            assert(self.stops_at(make, node, done, r));
        }
    }

    /// Every node of the description names a registered type.
    pub open spec fn fully_registered(&self, node: ScreenNode) -> bool {
        every_node(node, |n: ScreenNode| n.kind is Some && self.registered().contains(n.kind->0@))
    }

    /// `make` may give nothing for `node`.
    pub open spec fn may_fail<T, F: Fn(usize, &serde_json::Value, usize) -> Option<T>>(&self, make: F, node: ScreenNode) -> bool {
        &&& node.kind is Some
        &&& self.registered().contains(node.kind->0@)
        &&& call_ensures(make, (self.slot_of(node.kind->0@) as usize, &node.data, node.children.len()), None)
    }
}

/// A description whose every node names a registered type is built, when the
/// initialiser never gives nothing.
pub proof fn build_succeeds<T, F: Fn(usize, &serde_json::Value, usize) -> Option<T>>(
    manager: Manager,
    make: F,
    node: ScreenNode,
    r: BuildOutcome<T>,
)
    requires
        manager.builds(make, node, r),
        manager.fully_registered(node),
        forall|args: (usize, &serde_json::Value, usize), out: Option<T>| call_ensures(make, args, out) ==> out is Some,
    ensures
        r is Built,
    decreases node,
{
    manager.lemma_registered_build(make, node, r);
    if exists|done: Seq<TreeNode<T>>| #[trigger] manager.stops_at(make, node, done, r) {
        let done = choose|done: Seq<TreeNode<T>>| #[trigger] manager.stops_at(make, node, done, r);
        let child = node.children@[done.len() as int];
        assert(every_node(child, |n: ScreenNode| n.kind is Some && manager.registered().contains(n.kind->0@)));
        build_succeeds(manager, make, child, r);
    }
}

/// A built tree has the shape of its description.
pub proof fn built_mirrors<T, F: Fn(usize, &serde_json::Value, usize) -> Option<T>>(
    manager: Manager,
    make: F,
    node: ScreenNode,
    t: TreeNode<T>,
)
    requires
        manager.builds(make, node, BuildOutcome::Built(t)),
    ensures
        mirrors(t, node),
    decreases node,
{
    let r = BuildOutcome::Built(t);
    manager.lemma_registered_build(make, node, r);
    let done = choose|done: Seq<TreeNode<T>>| #[trigger] manager.completes(make, node, done, r);
    assert forall|i: int| 0 <= i < node.children.len() implies mirrors(t.children@[i], #[trigger] node.children@[i]) by {
        built_mirrors(manager, make, node.children@[i], t.children@[i]);
    }
}

/// A build reports an unknown type only for a type that some node names and
/// that is not registered.
pub proof fn unknown_type_is_named<T, F: Fn(usize, &serde_json::Value, usize) -> Option<T>>(
    manager: Manager,
    make: F,
    node: ScreenNode,
    name: String,
)
    requires
        manager.builds(make, node, BuildOutcome::UnknownType(name)),
    ensures
        !manager.registered().contains(name@),
        some_node(node, |n: ScreenNode| n.kind is Some && n.kind->0@ == name@),
    decreases node,
{
    let r = BuildOutcome::<T>::UnknownType(name);
    if node.kind is Some && manager.registered().contains(node.kind->0@) {
        manager.lemma_registered_build(make, node, r);
        let done = choose|done: Seq<TreeNode<T>>| #[trigger] manager.stops_at(make, node, done, r);
        let k = done.len() as int;
        unknown_type_is_named(manager, make, node.children@[k], name);
        assert(some_node(node.children@[k], |n: ScreenNode| n.kind is Some && n.kind->0@ == name@));
    }
}

/// A build is incomplete only where some node has no type, or where the
/// initialiser may give nothing for a node.
pub proof fn incomplete_has_cause<T, F: Fn(usize, &serde_json::Value, usize) -> Option<T>>(
    manager: Manager,
    make: F,
    node: ScreenNode,
)
    requires
        manager.builds(make, node, BuildOutcome::<T>::Incomplete),
    ensures
        some_node(node, |n: ScreenNode| n.kind is None || manager.may_fail::<T, F>(make, n)),
    decreases node,
{
    let r = BuildOutcome::<T>::Incomplete;
    if node.kind is Some && manager.registered().contains(node.kind->0@) {
        manager.lemma_registered_build(make, node, r);
        if exists|done: Seq<TreeNode<T>>| #[trigger] manager.stops_at(make, node, done, r) {
            let done = choose|done: Seq<TreeNode<T>>| #[trigger] manager.stops_at(make, node, done, r);
            let k = done.len() as int;
            incomplete_has_cause::<T, F>(manager, make, node.children@[k]);
            assert(some_node(node.children@[k], |n: ScreenNode| n.kind is None || manager.may_fail::<T, F>(make, n)));
        }
    }
}

/// Registering keeps every name at its slot and makes `name` registered;
/// registering the same name again changes nothing.
pub proof fn registration_laws(names: Seq<Seq<char>>, name: Seq<char>, i: int)
    ensures
        with_registered(names, name).contains(name),
        0 <= i < names.len() ==> with_registered(names, name)[i] == names[i],
        with_registered(with_registered(names, name), name) == with_registered(names, name),
{
    if !names.contains(name) {
        assert(names.push(name)[names.len() as int] == name);
    }
}

/// A node of a registered type is built only when every child was built and
/// its own initialiser then gave a value; any other outcome is that of the
/// first child that was not built, or, all children being built, an
/// initialiser that gave nothing.
pub proof fn outcome_follows_children<T, F: Fn(usize, &serde_json::Value, usize) -> Option<T>>(
    manager: Manager,
    make: F,
    node: ScreenNode,
    r: BuildOutcome<T>,
)
    requires
        manager.builds(make, node, r),
        node.kind is Some,
        manager.registered().contains(node.kind->0@),
    ensures
        r matches BuildOutcome::Built(t) ==> (forall|i: int|
            0 <= i < node.children.len() ==> manager.builds(
                make,
                node.children@[i],
                BuildOutcome::Built(#[trigger] t.children@[i]),
            )) && call_ensures(
            make,
            (manager.slot_of(node.kind->0@) as usize, &node.data, node.children.len()),
            Some(t.value),
        ),
        !(r is Built) ==> (exists|done: Seq<TreeNode<T>>| #[trigger] manager.stops_at(make, node, done, r)) || (
        r is Incomplete && manager.may_fail(make, node)),
{
    manager.lemma_registered_build(make, node, r);
}

/// With no type registered, a node without a type is incomplete and any other
/// node reports its own type as unknown, before any child is built.
pub proof fn empty_catalogue_builds<T, F: Fn(usize, &serde_json::Value, usize) -> Option<T>>(
    manager: Manager,
    make: F,
    node: ScreenNode,
    r: BuildOutcome<T>,
)
    requires
        manager.registered() == Seq::<Seq<char>>::empty(),
        manager.builds(make, node, r),
    ensures
        node.kind is None ==> r is Incomplete,
        node.kind matches Some(k) ==> (r matches BuildOutcome::UnknownType(s) && s@ == k@),
{
}

/// How many children the JSON value `v` lists: the length of its "children"
/// where that is an array, and none otherwise.
pub open spec fn listed_children(v: serde_json::Value) -> nat {
    match json_as_array(json_index(v, "children"@)) {
        Some(cs) => cs.len(),
        None => 0,
    }
}

/// The `i`-th child that the JSON value `v` lists, if it lists one.
pub open spec fn json_child(v: serde_json::Value, i: int) -> Option<serde_json::Value> {
    match json_as_array(json_index(v, "children"@)) {
        Some(cs) => if 0 <= i < cs.len() {
            Some(cs[i])
        } else {
            None
        },
        None => None,
    }
}

/// The JSON value reached from `v` by following `path`, one child index per level.
pub open spec fn json_at(v: serde_json::Value, path: Seq<int>) -> Option<serde_json::Value>
    decreases path.len(),
{
    if path.len() == 0 {
        Some(v)
    } else {
        match json_child(v, path[0]) {
            Some(c) => json_at(c, path.drop_first()),
            None => None,
        }
    }
}

/// The screen node reached from `node` by following `path`, one child index per level.
pub open spec fn node_at(node: ScreenNode, path: Seq<int>) -> Option<ScreenNode>
    decreases path.len(),
{
    if path.len() == 0 {
        Some(node)
    } else if 0 <= path[0] < node.children.len() {
        node_at(node.children@[path[0]], path.drop_first())
    } else {
        None
    }
}

/// Whatever its name, a described node has the JSON's string "type" as its
/// type, its string "name" as its name, its "data" as its data, and exactly as
/// many children as the JSON's "children" array lists, the `i`-th child being
/// described by the `i`-th element.
pub proof fn description_fields(v: serde_json::Value, node: ScreenNode, i: int)
    requires
        describes(v, node),
    ensures
        chars_of(node.kind) == json_as_str(json_index(v, "type"@)),
        chars_of(node.name) == json_as_str(json_index(v, "name"@)),
        node.data == json_index(v, "data"@),
        node.children.len() == listed_children(v),
        json_child(v, i) matches Some(c) ==> 0 <= i < node.children.len() && describes(c, node.children@[i]),
{
}

/// At every depth, the described tree and the JSON have the same nodes: a path
/// of child indices reaches a screen node exactly where it reaches a JSON
/// value, and that node has the value's string "type" and "name", its "data",
/// and as many children as the value lists.
pub proof fn description_at_every_depth(v: serde_json::Value, node: ScreenNode, path: Seq<int>)
    requires
        describes(v, node),
    ensures
        (json_at(v, path) is Some) == (node_at(node, path) is Some),
        json_at(v, path) matches Some(w) ==> {
            let n = node_at(node, path).unwrap();
            &&& chars_of(n.kind) == json_as_str(json_index(w, "type"@))
            &&& chars_of(n.name) == json_as_str(json_index(w, "name"@))
            &&& n.data == json_index(w, "data"@)
            &&& n.children.len() == listed_children(w)
        },
    decreases path.len(),
{
    if path.len() > 0 {
        let i = path[0];
        description_fields(v, node, i);
        match json_child(v, i) {
            Some(c) => {
                description_at_every_depth(c, node.children@[i], path.drop_first());
            },
            None => {
                assert(!(0 <= i < node.children.len()));
            },
        }
    }
}

} // verus!
