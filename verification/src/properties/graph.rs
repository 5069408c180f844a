//! The arena that holds the dependency graph.

use super::model::{
    lemma_closed_set_holds_reachable, lemma_dropped_wf, lemma_evaluated_wf, lemma_init_wf,
    lemma_mark_dirty_wf, lemma_reached_is_live, lemma_reaches_self, lemma_reaches_step,
    lemma_update_wf, lemma_writable_is_idle, lemma_write_wf, DirtyReason, GraphModel, NodeModel,
    PropertyError, PropertyHandleOpaque, UpdateStep,
};
use vstd::prelude::*;

verus! {

/// What the engine tells a binding. Both calls are notifications: the engine
/// goes on whatever the binding does with them.
pub trait BindingNotify {
    /// A property that the binding read may have changed, so the binding may
    /// evaluate to another value. A binding is told once for each way the
    /// change reaches it, in no particular order.
    fn mark_dirty(&self, reason: DirtyReason) {
    }

    /// The binding was installed on `property`.
    fn set_notify_callback(&self, property: PropertyHandleOpaque) {
    }
}

/// What the engine keeps of one property.
struct PropertyImpl<B> {
    /// How many properties have lived in this slot before this one. A handle
    /// of another generation is dead.
    generation: u64,
    /// Cleared when the property is dropped.
    live: bool,
    binding: Option<B>,
    /// The readers to tell of a change. A reader may occur more than once, and
    /// may be gone.
    dependencies: Vec<PropertyHandleOpaque>,
    dirty: bool,
    updating: bool,
}

impl<B> PropertyImpl<B> {
    spec fn model(self) -> NodeModel<B> {
        NodeModel {
            binding: self.binding,
            dependents: self.dependencies@.to_set(),
            dirty: self.dirty,
            updating: self.updating,
        }
    }
}

/// The dependency graph of all properties of one thread of control, together
/// with the stack of the bindings that are being evaluated.
pub struct PropertyGraph<B> {
    nodes: Vec<PropertyImpl<B>>,
    /// Slots whose property was dropped, to be used again.
    free: Vec<usize>,
    /// The bindings under evaluation, innermost last.
    current_binding: Vec<PropertyHandleOpaque>,
}

impl<B> View for PropertyGraph<B> {
    type V = GraphModel<B>;

    closed spec fn view(&self) -> GraphModel<B> {
        GraphModel {
            nodes: Map::new(
                |h: PropertyHandleOpaque|
                    h.index < self.nodes.len() && self.nodes[h.index as int].live
                        && self.nodes[h.index as int].generation == h.generation,
                |h: PropertyHandleOpaque| self.nodes[h.index as int].model(),
            ),
            stack: self.current_binding@,
            issued: Set::new(
                |h: PropertyHandleOpaque|
                    h.index < self.nodes.len() && h.generation
                        <= self.nodes[h.index as int].generation,
            ),
        }
    }
}

impl<B> PropertyGraph<B> {
    /// A graph without properties.
    pub fn new() -> (graph: Self)
        ensures
            graph@ == GraphModel::<B>::empty(),
            graph@.wf(),
    {
        let graph = PropertyGraph {
            nodes: Vec::new(),
            free: Vec::new(),
            current_binding: Vec::new(),
        };
        assert(graph@ =~~= GraphModel::<B>::empty());
        graph
    }

    /// Whether `handle` stands for a property of this graph that was not
    /// dropped.
    pub fn is_live(&self, handle: PropertyHandleOpaque) -> (live: bool)
        ensures
            live == self@.is_live(handle),
    {
        handle.index < self.nodes.len() && self.nodes[handle.index].live
            && self.nodes[handle.index].generation == handle.generation
    }

    /// Whether the binding of `handle` has to run before its value is read.
    pub fn is_dirty(&self, handle: PropertyHandleOpaque) -> (dirty: bool)
        ensures
            dirty == (self@.is_live(handle) && self@.nodes[handle].dirty),
    {
        self.is_live(handle) && self.nodes[handle.index].dirty
    }

    /// Whether the binding of `handle` is running.
    pub fn is_updating(&self, handle: PropertyHandleOpaque) -> (updating: bool)
        ensures
            updating == (self@.is_live(handle) && self@.nodes[handle].updating),
    {
        self.is_live(handle) && self.nodes[handle.index].updating
    }

    /// The binding of `handle`, for the caller to evaluate.
    pub fn binding(&self, handle: PropertyHandleOpaque) -> (binding: Option<&B>)
        ensures
            self@.is_live(handle) ==> (match binding {
                Some(b) => self@.nodes[handle].binding == Some(*b),
                None => self@.nodes[handle].binding is None,
            }),
            !self@.is_live(handle) ==> binding is None,
    {
        if self.is_live(handle) {
            self.nodes[handle.index].binding.as_ref()
        } else {
            None
        }
    }

    /// The binding under evaluation, if any.
    pub fn current_binding(&self) -> (current: Option<PropertyHandleOpaque>)
        ensures
            current == self@.current_binding(),
    {
        let n = self.current_binding.len();
        if n > 0 {
            Some(self.current_binding[n - 1])
        } else {
            None
        }
    }

    /// Records the binding under evaluation, if there is one, as a dependent
    /// of `handle`: it read the property, so it has to be told when the
    /// property changes.
    fn register_current_binding_as_dependency(&mut self, handle: PropertyHandleOpaque)
        requires
            old(self)@.wf(),
            old(self)@.is_live(handle),
            !old(self)@.nodes[handle].dirty,
        ensures
            final(self)@ == old(self)@.register(handle),
            final(self)@.wf(),
    {
        let n = self.current_binding.len();
        if n > 0 {
            let reader = self.current_binding[n - 1];
            let ghost before = self.nodes[handle.index as int].dependencies@;
            self.nodes[handle.index].dependencies.push(reader);
            proof {
                before.lemma_push_to_set_commute(reader);
                assert(self@ =~~= old(self)@.register(handle));
            }
        }
    }

    /// Reads `handle`: says whether its value is current, and if it is not,
    /// makes its binding the one under evaluation.
    pub fn update(&mut self, handle: PropertyHandleOpaque) -> (step: Result<
        UpdateStep,
        PropertyError,
    >)
        requires
            old(self)@.wf(),
        ensures
            step == old(self)@.update_step(handle),
            final(self)@ == old(self)@.update(handle),
            final(self)@.wf(),
    {
        if !self.is_live(handle) {
            return Err(PropertyError::Dropped);
        }
        if self.nodes[handle.index].updating {
            return Err(PropertyError::BindingLoopError);
        }
        if !self.nodes[handle.index].dirty {
            self.register_current_binding_as_dependency(handle);
            return Ok(UpdateStep::UpToDate);
        }
        self.nodes[handle.index].updating = true;
        self.current_binding.push(handle);
        proof {
            assert(self@ =~~= old(self)@.begin(handle));
            lemma_update_wf(old(self)@, handle);
        }
        Ok(UpdateStep::Evaluate)
    }

    /// Takes note that the run of the binding of `handle` has ended. A run
    /// that was `completed` has left a current value; one that was given up
    /// leaves the property dirty.
    pub fn evaluated(&mut self, handle: PropertyHandleOpaque, completed: bool) -> (result: Result<
        (),
        PropertyError,
    >)
        requires
            old(self)@.wf(),
        ensures
            result == old(self)@.evaluated_result(handle),
            final(self)@ == old(self)@.evaluated(handle, completed),
            final(self)@.wf(),
    {
        let n = self.current_binding.len();
        if n == 0 || self.current_binding[n - 1] != handle {
            return Err(PropertyError::BorrowConflict);
        }
        assert(old(self)@.stack[n - 1] == handle);
        self.current_binding.pop();
        let node = &mut self.nodes[handle.index];
        node.updating = false;
        if completed {
            node.dirty = false;
        }
        proof {
            assert(self@ =~~= old(self)@.end(handle, completed));
            lemma_evaluated_wf(old(self)@, handle, completed);
        }
        Ok(())
    }

    /// Drops the property: its handle is dead from now on, and whoever holds
    /// it as a dependent passes over it. The result holds the binding it had,
    /// for the caller to release what the binding owns.
    pub fn drop_property(&mut self, handle: PropertyHandleOpaque) -> (result: Result<
        Option<B>,
        PropertyError,
    >)
        requires
            old(self)@.wf(),
        ensures
            result == old(self)@.drop_result(handle),
            final(self)@ == old(self)@.dropped(handle),
            final(self)@.wf(),
    {
        if !self.is_live(handle) {
            return Err(PropertyError::Dropped);
        }
        if self.nodes[handle.index].updating {
            return Err(PropertyError::BorrowConflict);
        }
        let node = &mut self.nodes[handle.index];
        node.live = false;
        node.dirty = false;
        node.dependencies = Vec::new();
        let binding = node.binding.take();
        self.free.push(handle.index);
        proof {
            assert(self@.nodes =~= old(self)@.drop_node(handle).nodes);
            assert(self@.issued =~= old(self)@.drop_node(handle).issued);
            assert(self@ =~~= old(self)@.drop_node(handle));
            lemma_dropped_wf(old(self)@, handle);
        }
        Ok(binding)
    }

    /// Adds a property that holds a plain value. The slot of a property that
    /// was dropped is used again, under a handle of its own.
    pub fn init(&mut self) -> (handle: PropertyHandleOpaque)
        requires
            old(self)@.wf(),
        ensures
            !old(self)@.issued.contains(handle),
            final(self)@ == old(self)@.init(handle),
            final(self)@.wf(),
    {
        while self.free.len() > 0
            invariant
                old(self)@.wf(),
                self.nodes == old(self).nodes,
                self.current_binding == old(self).current_binding,
            decreases self.free.len(),
        {
            let index = self.free.pop().unwrap();
            if index < self.nodes.len() && !self.nodes[index].live && self.nodes[index].generation
                < u64::MAX {
                let node = &mut self.nodes[index];
                node.generation = node.generation + 1;
                node.live = true;
                node.binding = None;
                node.dependencies = Vec::new();
                node.dirty = false;
                node.updating = false;
                let handle = PropertyHandleOpaque {
                    index,
                    generation: self.nodes[index].generation,
                };
                proof {
                    assert(self.nodes[index as int].dependencies@.to_set() =~= Set::empty());
                    assert(self@.nodes =~= old(self)@.init(handle).nodes);
                    assert(self@.issued =~= old(self)@.init(handle).issued);
                    assert(self@ =~~= old(self)@.init(handle));
                    lemma_init_wf(old(self)@, handle);
                }
                return handle;
            }
        }
        let handle = PropertyHandleOpaque { index: self.nodes.len(), generation: 0 };
        self.nodes.push(
            PropertyImpl {
                generation: 0,
                live: true,
                binding: None,
                dependencies: Vec::new(),
                dirty: false,
                updating: false,
            },
        );
        proof {
            assert(self.nodes[handle.index as int].dependencies@.to_set() =~= Set::empty());
            assert(self@.nodes =~= old(self)@.init(handle).nodes);
            assert(self@.issued =~= old(self)@.init(handle).issued);
            assert(self@ =~~= old(self)@.init(handle));
            lemma_init_wf(old(self)@, handle);
        }
        handle
    }
}

/// The number of edges that the arena holds, each counted as often as it
/// occurs.
spec fn edge_total<B>(nodes: Seq<PropertyImpl<B>>) -> nat
    decreases nodes.len(),
{
    if nodes.len() == 0 {
        0
    } else {
        edge_total(nodes.drop_last()) + nodes.last().dependencies@.len()
    }
}

proof fn lemma_edge_total_update<B>(nodes: Seq<PropertyImpl<B>>, i: int, node: PropertyImpl<B>)
    requires
        0 <= i < nodes.len(),
    ensures
        edge_total(nodes.update(i, node)) + nodes[i].dependencies@.len() == edge_total(nodes)
            + node.dependencies@.len(),
    decreases nodes.len(),
{
    let updated = nodes.update(i, node);
    if i == nodes.len() - 1 {
        assert(updated.drop_last() =~= nodes.drop_last());
    } else {
        assert(updated.drop_last() =~= nodes.drop_last().update(i, node));
        lemma_edge_total_update(nodes.drop_last(), i, node);
    }
}

/// How many of the slots were not visited.
spec fn unvisited(visited: Seq<bool>) -> nat
    decreases visited.len(),
{
    if visited.len() == 0 {
        0
    } else {
        unvisited(visited.drop_last()) + if visited.last() {
            0nat
        } else {
            1nat
        }
    }
}

proof fn lemma_unvisited_update(visited: Seq<bool>, i: int)
    requires
        0 <= i < visited.len(),
        !visited[i],
    ensures
        unvisited(visited.update(i, true)) + 1 == unvisited(visited),
    decreases visited.len(),
{
    let updated = visited.update(i, true);
    if i == visited.len() - 1 {
        assert(updated.drop_last() =~= visited.drop_last());
    } else {
        assert(updated.drop_last() =~= visited.drop_last().update(i, true));
        lemma_unvisited_update(visited.drop_last(), i);
    }
}

impl<B> PropertyGraph<B> {
    /// The handle of the property that lives in slot `i`.
    spec fn handle_at(&self, i: int) -> PropertyHandleOpaque {
        PropertyHandleOpaque { index: i as usize, generation: self.nodes[i].generation }
    }

    /// Whether a binding that is running is the one of `handle`, or that of
    /// one of its transitive dependents: whether a write to `handle` would
    /// pull the ground from under an evaluation.
    pub fn conflicts(&self, handle: PropertyHandleOpaque) -> (conflict: bool)
        requires
            self@.wf(),
        ensures
            conflict == self@.conflicts(handle),
    {
        let ghost g = self@;
        if self.current_binding.len() == 0 {
            // No binding is running at all.
            assert forall|x: PropertyHandleOpaque| #[trigger]
                g.reaches(handle, x) implies !g.nodes[x].updating by {
                if g.nodes.contains_key(x) && g.nodes[x].updating {
                    assert(g.stack.contains(x));
                }
                lemma_reached_is_live(g, handle, x);
            }
            return false;
        }
        let n = self.nodes.len();
        let mut visited: Vec<bool> = Vec::new();
        while visited.len() < n
            invariant
                visited.len() <= n,
                forall|i: int| 0 <= i < visited.len() ==> !visited[i],
            decreases n - visited.len(),
        {
            visited.push(false);
        }
        let mut pending: Vec<PropertyHandleOpaque> = Vec::new();
        pending.push(handle);
        assert(pending@[0] == handle);
        proof {
            if g.is_live(handle) {
                lemma_reaches_self(g, handle);
            }
        }
        while pending.len() > 0
            invariant
                g == self@,
                g.wf(),
                n == self.nodes.len() == visited.len(),
                forall|i: int|
                    0 <= i < n && #[trigger] visited[i] ==> self.nodes[i].live && g.reaches(
                        handle,
                        self.handle_at(i),
                    ) && !self.nodes[i].updating,
                forall|k: int|
                    0 <= k < pending.len() && g.is_live(#[trigger] pending[k]) ==> g.reaches(
                        handle,
                        pending[k],
                    ),
                forall|a: PropertyHandleOpaque, b: PropertyHandleOpaque|
                    g.is_live(a) && visited[a.index as int] && #[trigger] g.edge(a, b) ==> (
                    g.is_live(b) && visited[b.index as int]) || pending@.contains(b),
                g.is_live(handle) ==> visited[handle.index as int] || pending@.contains(handle),
            decreases unvisited(visited@), pending.len(),
        {
            let ghost pending_before = pending@;
            let ghost visited_before = visited@;
            let x = pending.pop().unwrap();
            assert(pending@ == pending_before.drop_last());
            if self.is_live(x) && !visited[x.index] {
                assert(x == self.handle_at(x.index as int));
                if self.nodes[x.index].updating {
                    return true;
                }
                visited[x.index] = true;
                proof {
                    lemma_unvisited_update(visited_before, x.index as int);
                    assert(visited@ =~= visited_before.update(x.index as int, true));
                }
                let ghost kept = pending@;
                let told = &self.nodes[x.index].dependencies;
                let mut k: usize = 0;
                while k < told.len()
                    invariant
                        k <= told.len(),
                        pending@ == kept + told@.subrange(0, k as int),
                    decreases told.len() - k,
                {
                    pending.push(told[k]);
                    assert(told@.subrange(0, k + 1) =~= told@.subrange(0, k as int).push(
                        told@[k as int],
                    ));
                    k += 1;
                }
                proof {
                    assert(told@.subrange(0, told.len() as int) =~= told@);
                    assert(pending@ == pending_before.drop_last() + told@);
                    assert forall|a: PropertyHandleOpaque, b: PropertyHandleOpaque|
                        g.is_live(a) && visited[a.index as int] && #[trigger] g.edge(
                            a,
                            b,
                        ) implies (g.is_live(b) && visited[b.index as int]) || pending@.contains(
                        b,
                    ) by {
                        assert(a == self.handle_at(a.index as int));
                        if a == x {
                            assert(told@.to_set().contains(b));
                            let j = choose|j: int| 0 <= j < told@.len() && told@[j] == b;
                            assert(pending@[pending_before.len() - 1 + j] == b);
                        } else {
                            assert(visited_before[a.index as int]);
                            if !(g.is_live(b) && visited_before[b.index as int]) {
                                let j = choose|j: int|
                                    0 <= j < pending_before.len() && pending_before[j] == b;
                                if j < pending_before.len() - 1 {
                                    assert(pending@[j] == b);
                                } else {
                                    assert(b == x);
                                }
                            }
                        }
                    }
                    assert forall|j: int|
                        0 <= j < pending.len() && g.is_live(
                            #[trigger] pending[j],
                        ) implies g.reaches(handle, pending[j]) by {
                        if j < pending_before.len() - 1 {
                            assert(pending[j] == pending_before[j]);
                        } else {
                            let y = pending[j];
                            assert(y == told@[j - (pending_before.len() - 1)]);
                            assert(told@.to_set().contains(y));
                            assert(g.edge(x, y));
                            lemma_reaches_step(g, handle, x, y);
                        }
                    }
                    if g.is_live(handle) && !visited[handle.index as int] {
                        let j = choose|j: int|
                            0 <= j < pending_before.len() && pending_before[j] == handle;
                        assert(pending@[j] == handle);
                    }
                }
            } else {
                proof {
                    assert forall|a: PropertyHandleOpaque, b: PropertyHandleOpaque|
                        g.is_live(a) && visited[a.index as int] && #[trigger] g.edge(
                            a,
                            b,
                        ) implies (g.is_live(b) && visited[b.index as int]) || pending@.contains(
                        b,
                    ) by {
                        if !(g.is_live(b) && visited[b.index as int]) {
                            let j = choose|j: int|
                                0 <= j < pending_before.len() && pending_before[j] == b;
                            if j < pending_before.len() - 1 {
                                assert(pending@[j] == b);
                            } else {
                                assert(b == x);
                                assert(x == self.handle_at(x.index as int));
                            }
                        }
                    }
                    if g.is_live(handle) && !visited[handle.index as int] {
                        let j = choose|j: int|
                            0 <= j < pending_before.len() && pending_before[j] == handle;
                        if j < pending_before.len() - 1 {
                            assert(pending@[j] == handle);
                        } else {
                            assert(handle == x);
                            assert(x == self.handle_at(x.index as int));
                        }
                    }
                }
            }
        }
        proof {
            let done = Set::new(
                |x: PropertyHandleOpaque| g.is_live(x) && visited[x.index as int],
            );
            assert forall|a: PropertyHandleOpaque, b: PropertyHandleOpaque|
                done.contains(a) && #[trigger] g.edge(a, b) implies done.contains(b) by {
                if pending@.contains(b) {
                }
            }
            lemma_closed_set_holds_reachable(g, handle, done);
            assert forall|x: PropertyHandleOpaque| #[trigger]
                g.reaches(handle, x) implies !g.nodes[x].updating by {
                assert(done.contains(x));
                assert(x == self.handle_at(x.index as int));
            }
        }
        false
    }
}

impl<B: BindingNotify> PropertyGraph<B> {
    /// Marks `handle` and all its transitive dependents dirty and forgets
    /// whom they have to tell: a dependent registers again when its binding
    /// next runs. Dependents that were dropped are passed over.
    ///
    /// The result says whether a binding that is running was among them.
    pub fn mark_dirty(&mut self, handle: PropertyHandleOpaque) -> (conflict: bool)
        requires
            old(self)@.wf(),
        ensures
            final(self)@ == old(self)@.mark_dirty(handle),
            conflict == old(self)@.conflicts(handle),
            final(self)@.wf(),
    {
        let ghost g0 = self@;
        let ghost nodes0 = self.nodes@;
        let ghost mut done: Set<PropertyHandleOpaque> = Set::empty();
        let mut conflict = false;
        let mut pending: Vec<PropertyHandleOpaque> = Vec::new();
        pending.push(handle);
        assert(pending@.contains(handle)) by {
            assert(pending@[0] == handle);
        }
        proof {
            if g0.is_live(handle) {
                lemma_reaches_self(g0, handle);
            }
        }
        while pending.len() > 0
            invariant
                g0 == old(self)@,
                g0.wf(),
                nodes0 == old(self).nodes@,
                self.nodes.len() == nodes0.len(),
                self.current_binding@ == old(self).current_binding@,
                forall|i: int|
                    0 <= i < nodes0.len() ==> {
                        let now = #[trigger] self.nodes[i];
                        let before = nodes0[i];
                        let x = PropertyHandleOpaque {
                            index: i as usize,
                            generation: before.generation,
                        };
                        &&& now.live == before.live
                        &&& now.generation == before.generation
                        &&& now.binding == before.binding
                        &&& now.updating == before.updating
                        &&& done.contains(x) ==> now.dependencies@.len() == 0 && now.dirty == (
                        before.dirty || before.binding is Some)
                        &&& !done.contains(x) ==> now.dependencies@ == before.dependencies@
                            && now.dirty == before.dirty
                    },
                forall|x: PropertyHandleOpaque| #[trigger]
                    done.contains(x) ==> g0.is_live(x) && g0.reaches(handle, x),
                forall|k: int|
                    0 <= k < pending.len() && g0.is_live(#[trigger] pending[k]) ==> g0.reaches(
                        handle,
                        pending[k],
                    ),
                forall|a: PropertyHandleOpaque, b: PropertyHandleOpaque|
                    done.contains(a) && #[trigger] g0.edge(a, b) ==> done.contains(b)
                        || pending@.contains(b),
                g0.is_live(handle) ==> done.contains(handle) || pending@.contains(handle),
                conflict <==> exists|x: PropertyHandleOpaque|
                    done.contains(x) && #[trigger] g0.nodes[x].updating,
            decreases edge_total(self.nodes@) + pending.len(),
        {
            let ghost pending_before = pending@;
            let ghost nodes_before = self.nodes@;
            let ghost done_before = done;
            let x = pending.pop().unwrap();
            assert(pending@ == pending_before.drop_last());
            assert(pending_before.last() == x);
            if self.is_live(x) {
                assert(g0.is_live(x));
                assert(x == (PropertyHandleOpaque {
                    index: x.index,
                    generation: nodes0[x.index as int].generation,
                }));
                assert(g0.reaches(handle, x));
                match &self.nodes[x.index].binding {
                    Some(binding) => {
                        binding.mark_dirty(DirtyReason::ValueOrDependencyHasChanged);
                    },
                    None => {},
                }
                let node = &mut self.nodes[x.index];
                if node.updating {
                    conflict = true;
                }
                if node.binding.is_some() {
                    node.dirty = true;
                }
                let mut readers: Vec<PropertyHandleOpaque> = Vec::new();
                std::mem::swap(&mut node.dependencies, &mut readers);
                let ghost told = readers@;
                pending.append(&mut readers);
                proof {
                    done = done.insert(x);
                    lemma_edge_total_update(nodes_before, x.index as int, self.nodes@[x.index as int]);
                    assert(self.nodes@ =~= nodes_before.update(
                        x.index as int,
                        self.nodes@[x.index as int],
                    ));
                    assert(told == nodes_before[x.index as int].dependencies@);
                    assert(pending@ == pending_before.drop_last() + told);
                    // What `x` has to tell is now pending.
                    assert forall|a: PropertyHandleOpaque, b: PropertyHandleOpaque|
                        done.contains(a) && #[trigger] g0.edge(a, b) implies done.contains(b)
                        || pending@.contains(b) by {
                        if done_before.contains(a) {
                            if !done_before.contains(b) {
                                assert(pending_before.contains(b));
                                let k = choose|k: int|
                                    0 <= k < pending_before.len() && pending_before[k] == b;
                                if k < pending_before.len() - 1 {
                                    assert(pending@[k] == b);
                                } else {
                                    assert(b == x);
                                }
                            }
                        } else {
                            assert(a == x);
                            if done_before.contains(x) {
                            } else {
                                assert(told.to_set().contains(b));
                                let k = choose|k: int| 0 <= k < told.len() && told[k] == b;
                                assert(pending@[pending_before.len() - 1 + k] == b);
                            }
                        }
                    }
                    assert forall|k: int|
                        0 <= k < pending.len() && g0.is_live(
                            #[trigger] pending[k],
                        ) implies g0.reaches(handle, pending[k]) by {
                        if k < pending_before.len() - 1 {
                            assert(pending[k] == pending_before[k]);
                        } else {
                            let y = pending[k];
                            assert(y == told[k - (pending_before.len() - 1)]);
                            if done_before.contains(x) {
                                assert(told.len() == 0);
                            } else {
                                assert(told.to_set().contains(y));
                                assert(g0.edge(x, y));
                                lemma_reaches_step(g0, handle, x, y);
                            }
                        }
                    }
                    if g0.is_live(handle) && !done.contains(handle) {
                        let k = choose|k: int|
                            0 <= k < pending_before.len() && pending_before[k] == handle;
                        assert(pending@[k] == handle);
                    }
                    if conflict {
                        if g0.nodes[x].updating {
                            assert(done.contains(x) && g0.nodes[x].updating);
                        } else {
                            let w = choose|w: PropertyHandleOpaque|
                                done_before.contains(w) && #[trigger] g0.nodes[w].updating;
                            assert(done.contains(w) && g0.nodes[w].updating);
                        }
                    }
                }
            } else {
                proof {
                    assert(!g0.is_live(x));
                    assert forall|a: PropertyHandleOpaque, b: PropertyHandleOpaque|
                        done.contains(a) && #[trigger] g0.edge(a, b) implies done.contains(b)
                        || pending@.contains(b) by {
                        if !done.contains(b) {
                            let k = choose|k: int|
                                0 <= k < pending_before.len() && pending_before[k] == b;
                            assert(pending@[k] == b);
                        }
                    }
                    if g0.is_live(handle) && !done.contains(handle) {
                        let k = choose|k: int|
                            0 <= k < pending_before.len() && pending_before[k] == handle;
                        assert(pending@[k] == handle);
                    }
                }
            }
        }
        proof {
            assert forall|a: PropertyHandleOpaque, b: PropertyHandleOpaque|
                done.contains(a) && #[trigger] g0.edge(a, b) implies done.contains(b) by {
                if pending@.contains(b) {
                }
            }
            lemma_closed_set_holds_reachable(g0, handle, done);
            let target = g0.mark_dirty(handle);
            assert forall|x: PropertyHandleOpaque| self@.nodes.contains_key(x) implies #[trigger]
            self@.nodes[x] == target.nodes[x] by {
                let now = self.nodes[x.index as int];
                assert(x == (PropertyHandleOpaque {
                    index: x.index,
                    generation: nodes0[x.index as int].generation,
                }));
                if g0.reaches(handle, x) {
                    assert(done.contains(x));
                    assert(now.dependencies@.to_set() =~= Set::empty());
                    assert(now.model() =~= g0.nodes[x].invalidated());
                } else {
                    assert(!done.contains(x));
                }
            }
            assert(self@.nodes =~= target.nodes);
            assert(self@ =~~= target);
            lemma_mark_dirty_wf(g0, handle);
        }
        conflict
    }

    /// Takes note that `handle` now holds a plain value that was changed:
    /// its binding, if it had one, is removed and handed back, and its
    /// dependents are marked dirty.
    pub fn set_changed(&mut self, handle: PropertyHandleOpaque) -> (result: Result<
        Option<B>,
        PropertyError,
    >)
        requires
            old(self)@.wf(),
        ensures
            final(self)@ == old(self)@.write(handle),
            match result {
                Ok(removed) => old(self)@.write_result(handle) is Ok && removed == old(
                    self,
                )@.nodes[handle].binding,
                Err(e) => old(self)@.write_result(handle) == Err::<(), PropertyError>(e),
            },
            final(self)@.wf(),
    {
        if !self.is_live(handle) {
            return Err(PropertyError::Dropped);
        }
        if self.conflicts(handle) {
            return Err(PropertyError::BorrowConflict);
        }
        proof {
            lemma_writable_is_idle(self@, handle);
        }
        self.mark_dirty(handle);
        let ghost marked = self@;
        assert(marked.nodes.contains_key(handle));
        let node = &mut self.nodes[handle.index];
        node.dirty = false;
        let removed = node.binding.take();
        proof {
            let expected = old(self)@.set_changed(handle);
            assert(marked == old(self)@.mark_dirty(handle));
            assert(self@.nodes[handle] =~= expected.nodes[handle]);
            assert forall|h: PropertyHandleOpaque| self@.nodes.contains_key(h) implies #[trigger]
            self@.nodes[h] == expected.nodes[h] by {
                if h != handle {
                    assert(self@.nodes[h] == marked.nodes[h]);
                }
            }
            assert(self@.nodes =~= expected.nodes);
            assert(self@ =~~= expected);
            lemma_write_wf(old(self)@, handle);
        }
        Ok(removed)
    }

    /// Installs `binding` on `handle` and marks the property and its
    /// dependents dirty. The binding is not run: that is left to the next
    /// read. The result holds the binding that was replaced.
    pub fn set_binding(&mut self, handle: PropertyHandleOpaque, binding: B) -> (result: Result<
        Option<B>,
        PropertyError,
    >)
        requires
            old(self)@.wf(),
        ensures
            final(self)@ == old(self)@.bind(handle, binding),
            match result {
                Ok(replaced) => old(self)@.write_result(handle) is Ok && replaced == old(
                    self,
                )@.nodes[handle].binding,
                Err(e) => old(self)@.write_result(handle) == Err::<(), PropertyError>(e),
            },
            final(self)@.wf(),
    {
        if !self.is_live(handle) {
            return Err(PropertyError::Dropped);
        }
        if self.conflicts(handle) {
            return Err(PropertyError::BorrowConflict);
        }
        binding.set_notify_callback(handle);
        let mut installed = Some(binding);
        std::mem::swap(&mut self.nodes[handle.index].binding, &mut installed);
        proof {
            let expected = GraphModel {
                nodes: old(self)@.nodes.insert(
                    handle,
                    NodeModel { binding: Some(binding), ..old(self)@.nodes[handle] },
                ),
                ..old(self)@
            };
            assert(self@ =~~= expected);
        }
        self.mark_dirty(handle);
        proof {
            assert(self@ =~~= old(self)@.set_binding(handle, binding));
        }
        Ok(installed)
    }
}

} // verus!
