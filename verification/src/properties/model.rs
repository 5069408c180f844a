//! The dependency graph as a mathematical value, and its transitions.

use vstd::prelude::*;

verus! {

/// Handle to one node of a [`GraphModel`]: what is left of a property once its
/// value is put aside.
#[derive(Clone, Copy, PartialEq, Eq, Structural, Debug)]
pub struct PropertyHandleOpaque {
    /// The slot of the node in the arena.
    pub(crate) index: usize,
    /// Which of the nodes that have lived in the slot is meant.
    pub(crate) generation: u64,
}

/// Why a binding is told to consider itself dirty.
#[derive(Clone, Copy, PartialEq, Eq, Structural, Debug)]
pub enum DirtyReason {
    /// The value of a property that the binding read, or a dependency of that
    /// property, has changed.
    ValueOrDependencyHasChanged,
}

/// Why the engine refuses a call. Each is a fault in how the graph was built,
/// never a state to recover from: the caller is told at once and no value
/// is made up. A call that is refused leaves the graph as it was.
#[derive(Clone, Copy, PartialEq, Eq, Structural, Debug)]
pub enum PropertyError {
    /// A property was read while its own binding was running: the binding
    /// depends on itself.
    BindingLoopError,
    /// A property was written while a binding that it would have to
    /// invalidate was running, or an evaluation was reported out of turn.
    BorrowConflict,
    /// The handle stands for no property of this graph, or for one that was
    /// dropped.
    Dropped,
}

/// What a read asks of the caller.
#[derive(Clone, Copy, PartialEq, Eq, Structural, Debug)]
pub enum UpdateStep {
    /// The value is current, and the read was charged to the binding under
    /// evaluation.
    UpToDate,
    /// The binding has to run first. It is now the binding under evaluation;
    /// the caller runs it and reports the end of the run.
    Evaluate,
}

/// One node of the dependency graph.
#[verifier::ext_equal]
pub struct NodeModel<B> {
    /// The computation that yields the value, if the value is computed.
    pub binding: Option<B>,
    /// The nodes whose bindings read this node since it last changed.
    pub dependents: Set<PropertyHandleOpaque>,
    /// The binding must run again before the value is trusted.
    pub dirty: bool,
    /// The binding is running.
    pub updating: bool,
}

impl<B> NodeModel<B> {
    /// A node that holds a plain value nobody has read yet.
    pub open spec fn plain() -> Self {
        NodeModel { binding: None, dependents: Set::empty(), dirty: false, updating: false }
    }

    /// The node after a change upstream: it is stale if it is computed, and
    /// its dependents have been told.
    pub open spec fn invalidated(self) -> Self {
        NodeModel {
            dirty: self.dirty || self.binding is Some,
            dependents: Set::empty(),
            ..self
        }
    }
}

/// The dependency graph: the live nodes, and the bindings under evaluation.
#[verifier::ext_equal]
pub struct GraphModel<B> {
    /// The live nodes.
    pub nodes: Map<PropertyHandleOpaque, NodeModel<B>>,
    /// The nodes whose bindings are running, innermost last.
    pub stack: Seq<PropertyHandleOpaque>,
    /// Every handle ever handed out, live or not.
    pub issued: Set<PropertyHandleOpaque>,
}

impl<B> GraphModel<B> {
    pub open spec fn empty() -> Self {
        GraphModel { nodes: Map::empty(), stack: Seq::empty(), issued: Set::empty() }
    }

    pub open spec fn is_live(self, h: PropertyHandleOpaque) -> bool {
        self.nodes.contains_key(h)
    }

    /// The binding under evaluation, if any: the reader that a read is
    /// charged to.
    pub open spec fn current_binding(self) -> Option<PropertyHandleOpaque> {
        if self.stack.len() > 0 {
            Some(self.stack.last())
        } else {
            None
        }
    }

    /// What every reachable state satisfies.
    pub open spec fn wf(self) -> bool {
        &&& forall|h: PropertyHandleOpaque| #[trigger]
            self.nodes.contains_key(h) ==> self.issued.contains(h)
        // A plain value is always current.
        &&& forall|h: PropertyHandleOpaque| #[trigger]
            self.nodes.contains_key(h) && self.nodes[h].binding is None ==> !self.nodes[h].dirty
        // Only a stale binding runs.
        &&& forall|h: PropertyHandleOpaque| #[trigger]
            self.nodes.contains_key(h) && self.nodes[h].updating ==> self.nodes[h].dirty
        // A stale node has nobody left to tell.
        &&& forall|h: PropertyHandleOpaque| #[trigger]
            self.nodes.contains_key(h) && self.nodes[h].dirty ==> self.nodes[h].dependents
                =~= Set::empty()
        // The stack holds the running bindings, each once.
        &&& forall|i: int|
            0 <= i < self.stack.len() ==> self.nodes.contains_key(#[trigger] self.stack[i])
                && self.nodes[self.stack[i]].updating
        &&& forall|i: int, j: int|
            0 <= i < j < self.stack.len() ==> self.stack[i] != self.stack[j]
        &&& forall|h: PropertyHandleOpaque| #[trigger]
            self.nodes.contains_key(h) && self.nodes[h].updating ==> self.stack.contains(h)
    }

    // ----- reachability -----------------------------------------------------

    /// `to` read `from` and both are alive.
    pub open spec fn edge(self, from: PropertyHandleOpaque, to: PropertyHandleOpaque) -> bool {
        &&& self.nodes.contains_key(from)
        &&& self.nodes.contains_key(to)
        &&& self.nodes[from].dependents.contains(to)
    }

    /// `p` is a chain of live nodes, each a dependent of the one before.
    pub open spec fn is_path(self, p: Seq<PropertyHandleOpaque>) -> bool {
        &&& p.len() > 0
        &&& self.nodes.contains_key(p[0])
        &&& forall|i: int| 0 <= i < p.len() - 1 ==> self.edge(#[trigger] p[i], p[i + 1])
    }

    /// `to` is `from` or one of its transitive dependents.
    pub open spec fn reaches(self, from: PropertyHandleOpaque, to: PropertyHandleOpaque) -> bool {
        exists|p: Seq<PropertyHandleOpaque>|
            #[trigger] self.is_path(p) && p[0] == from && p.last() == to
    }

    // ----- transitions --------------------------------------------------------

    /// A new node, under a handle that was never used.
    pub open spec fn init(self, h: PropertyHandleOpaque) -> Self {
        GraphModel {
            nodes: self.nodes.insert(h, NodeModel::plain()),
            issued: self.issued.insert(h),
            ..self
        }
    }

    /// The node is gone. Edges that point to it stay behind and lead nowhere.
    pub open spec fn drop_node(self, h: PropertyHandleOpaque) -> Self {
        GraphModel { nodes: self.nodes.remove(h), ..self }
    }

    /// `h` and all its transitive dependents are invalidated; nothing else
    /// changes.
    pub open spec fn mark_dirty(self, h: PropertyHandleOpaque) -> Self {
        GraphModel {
            nodes: Map::new(
                |x: PropertyHandleOpaque| self.nodes.contains_key(x),
                |x: PropertyHandleOpaque|
                    if self.reaches(h, x) {
                        self.nodes[x].invalidated()
                    } else {
                        self.nodes[x]
                    },
            ),
            ..self
        }
    }

    /// A binding that is running is `h` or among its transitive dependents:
    /// to invalidate `h` now is to write what is being read.
    pub open spec fn conflicts(self, h: PropertyHandleOpaque) -> bool {
        exists|x: PropertyHandleOpaque| #[trigger] self.reaches(h, x) && self.nodes[x].updating
    }

    /// The binding under evaluation, if any, becomes a dependent of `h`.
    pub open spec fn register(self, h: PropertyHandleOpaque) -> Self {
        match self.current_binding() {
            Some(reader) => GraphModel {
                nodes: self.nodes.insert(
                    h,
                    NodeModel {
                        dependents: self.nodes[h].dependents.insert(reader),
                        ..self.nodes[h]
                    },
                ),
                ..self
            },
            None => self,
        }
    }

    /// The binding of `h` starts to run.
    pub open spec fn begin(self, h: PropertyHandleOpaque) -> Self {
        GraphModel {
            nodes: self.nodes.insert(h, NodeModel { updating: true, ..self.nodes[h] }),
            stack: self.stack.push(h),
            ..self
        }
    }

    /// The binding of `h`, the innermost one, has run. Its value is current
    /// only if the run was `completed`.
    pub open spec fn end(self, h: PropertyHandleOpaque, completed: bool) -> Self {
        GraphModel {
            nodes: self.nodes.insert(
                h,
                NodeModel {
                    updating: false,
                    dirty: self.nodes[h].dirty && !completed,
                    ..self.nodes[h]
                },
            ),
            stack: self.stack.drop_last(),
            ..self
        }
    }

    /// `h` now holds a plain value that differs from the one its dependents
    /// saw.
    pub open spec fn set_changed(self, h: PropertyHandleOpaque) -> Self {
        let g = self.mark_dirty(h);
        GraphModel {
            nodes: g.nodes.insert(h, NodeModel { binding: None, dirty: false, ..g.nodes[h] }),
            ..g
        }
    }

    /// `h` is now computed by `binding`, which has not run yet.
    pub open spec fn set_binding(self, h: PropertyHandleOpaque, binding: B) -> Self {
        GraphModel {
            nodes: self.nodes.insert(h, NodeModel { binding: Some(binding), ..self.nodes[h] }),
            ..self
        }.mark_dirty(h)
    }
}

/// What a read of a property yields.
pub enum PropertyRead<T> {
    /// The value, which is current.
    Value(T),
    /// Nothing yet: the binding has to run first. It is now the binding under
    /// evaluation; the caller runs it, reports the end of the run and reads
    /// again.
    Evaluate,
}

/// A property as a mathematical value: its node in the graph, and the value
/// it holds.
pub struct PropertyModel<T> {
    pub inner: PropertyHandleOpaque,
    /// Current unless the node is dirty.
    pub value: T,
}

impl<T> PropertyModel<T> {
    /// What a read of the property yields in graph `g`. The graph after the
    /// read is `g.update(self.inner)`.
    pub open spec fn read<B>(self, g: GraphModel<B>) -> Result<PropertyRead<T>, PropertyError> {
        match g.update_step(self.inner) {
            Ok(UpdateStep::UpToDate) => Ok(PropertyRead::Value(self.value)),
            Ok(UpdateStep::Evaluate) => Ok(PropertyRead::Evaluate),
            Err(e) => Err(e),
        }
    }

    /// The property after `t` was written to it in graph `g`. The graph after
    /// the write is `g.write(self.inner)`.
    pub open spec fn written<B>(self, g: GraphModel<B>, t: T) -> Self {
        if g.writable(self.inner) {
            PropertyModel { value: t, ..self }
        } else {
            self
        }
    }

    /// The property after its binding, run in graph `g`, has ended with
    /// `value`: `None` where the binding gave up. The graph after the report is
    /// `g.evaluated(self.inner, value is Some)`.
    pub open spec fn evaluated<B>(self, g: GraphModel<B>, value: Option<T>) -> Self {
        match value {
            Some(v) if g.current_binding() == Some(self.inner) => PropertyModel {
                value: v,
                ..self
            },
            _ => self,
        }
    }
}

// ----- the operations of the engine, as results and state changes ---------
impl<B> GraphModel<B> {
    /// What a read of `h` answers.
    pub open spec fn update_step(self, h: PropertyHandleOpaque) -> Result<
        UpdateStep,
        PropertyError,
    > {
        if !self.is_live(h) {
            Err(PropertyError::Dropped)
        } else if self.nodes[h].updating {
            Err(PropertyError::BindingLoopError)
        } else if self.nodes[h].dirty {
            Ok(UpdateStep::Evaluate)
        } else {
            Ok(UpdateStep::UpToDate)
        }
    }

    /// The graph after a read of `h`.
    pub open spec fn update(self, h: PropertyHandleOpaque) -> Self {
        match self.update_step(h) {
            Ok(UpdateStep::Evaluate) => self.begin(h),
            Ok(UpdateStep::UpToDate) => self.register(h),
            Err(_) => self,
        }
    }

    /// Whether the end of a run of the binding of `h` is accepted: only the
    /// innermost run can end.
    pub open spec fn evaluated_result(self, h: PropertyHandleOpaque) -> Result<
        (),
        PropertyError,
    > {
        if self.current_binding() == Some(h) {
            Ok(())
        } else {
            Err(PropertyError::BorrowConflict)
        }
    }

    /// The graph after the end of a run of the binding of `h` was reported.
    pub open spec fn evaluated(self, h: PropertyHandleOpaque, completed: bool) -> Self {
        if self.current_binding() == Some(h) {
            self.end(h, completed)
        } else {
            self
        }
    }

    /// What a write to `h` answers.
    pub open spec fn write_result(self, h: PropertyHandleOpaque) -> Result<(), PropertyError> {
        if !self.is_live(h) {
            Err(PropertyError::Dropped)
        } else if self.conflicts(h) {
            Err(PropertyError::BorrowConflict)
        } else {
            Ok(())
        }
    }

    /// Whether a write to `h` takes effect: a write that is refused changes
    /// nothing.
    pub open spec fn writable(self, h: PropertyHandleOpaque) -> bool {
        self.is_live(h) && !self.conflicts(h)
    }

    /// Whether `h` can be dropped: a property whose binding is running is
    /// still needed.
    pub open spec fn droppable(self, h: PropertyHandleOpaque) -> bool {
        self.is_live(h) && !self.nodes[h].updating
    }

    /// Whether `h` is computed.
    pub open spec fn has_binding(self, h: PropertyHandleOpaque) -> bool {
        self.is_live(h) && self.nodes[h].binding is Some
    }

    /// What a write to `h` answers where the binding in place does not give
    /// way: nothing was written, so nothing is in conflict.
    pub open spec fn kept_result(self, h: PropertyHandleOpaque) -> Result<(), PropertyError> {
        if !self.is_live(h) {
            Err(PropertyError::Dropped)
        } else if self.nodes[h].updating {
            Err(PropertyError::BorrowConflict)
        } else {
            Ok(())
        }
    }

    /// The graph after a plain value was written to `h`.
    pub open spec fn write(self, h: PropertyHandleOpaque) -> Self {
        if self.writable(h) {
            self.set_changed(h)
        } else {
            self
        }
    }

    /// The graph after `binding` was installed on `h`.
    pub open spec fn bind(self, h: PropertyHandleOpaque, binding: B) -> Self {
        if self.writable(h) {
            self.set_binding(h, binding)
        } else {
            self
        }
    }

    /// What dropping `h` answers: the binding it held, for the caller to
    /// release.
    pub open spec fn drop_result(self, h: PropertyHandleOpaque) -> Result<
        Option<B>,
        PropertyError,
    > {
        if !self.is_live(h) {
            Err(PropertyError::Dropped)
        } else if self.nodes[h].updating {
            Err(PropertyError::BorrowConflict)
        } else {
            Ok(self.nodes[h].binding)
        }
    }

    /// The graph after `h` was dropped.
    pub open spec fn dropped(self, h: PropertyHandleOpaque) -> Self {
        if self.droppable(h) {
            self.drop_node(h)
        } else {
            self
        }
    }
}

/// Along a chain that starts inside a set closed under edges, every node is in
/// the set.
proof fn lemma_path_stays_in_closed_set<B>(
    g: GraphModel<B>,
    done: Set<PropertyHandleOpaque>,
    p: Seq<PropertyHandleOpaque>,
    i: int,
)
    requires
        g.is_path(p),
        done.contains(p[0]),
        forall|a: PropertyHandleOpaque, b: PropertyHandleOpaque|
            done.contains(a) && #[trigger] g.edge(a, b) ==> done.contains(b),
        0 <= i < p.len(),
    ensures
        done.contains(p[i]),
    decreases i,
{
    if i > 0 {
        lemma_path_stays_in_closed_set(g, done, p, i - 1);
        assert(g.edge(p[i - 1], p[i - 1 + 1]));
    }
}

/// A set that holds `h` and is closed under edges holds all that `h` reaches.
pub proof fn lemma_closed_set_holds_reachable<B>(
    g: GraphModel<B>,
    h: PropertyHandleOpaque,
    done: Set<PropertyHandleOpaque>,
)
    requires
        g.is_live(h) ==> done.contains(h),
        forall|a: PropertyHandleOpaque, b: PropertyHandleOpaque|
            done.contains(a) && #[trigger] g.edge(a, b) ==> done.contains(b),
    ensures
        forall|x: PropertyHandleOpaque| #[trigger] g.reaches(h, x) ==> done.contains(x),
{
    assert forall|x: PropertyHandleOpaque| #[trigger] g.reaches(h, x) implies done.contains(x) by {
        let p = choose|p: Seq<PropertyHandleOpaque>|
            #[trigger] g.is_path(p) && p[0] == h && p.last() == x;
        lemma_path_stays_in_closed_set(g, done, p, p.len() - 1);
    }
}

/// What is reached is alive.
pub proof fn lemma_reached_is_live<B>(
    g: GraphModel<B>,
    h: PropertyHandleOpaque,
    x: PropertyHandleOpaque,
)
    requires
        g.reaches(h, x),
    ensures
        g.is_live(h),
        g.is_live(x),
{
    let p = choose|p: Seq<PropertyHandleOpaque>|
        #[trigger] g.is_path(p) && p[0] == h && p.last() == x;
    if p.len() > 1 {
        assert(g.edge(p[p.len() - 2], p[p.len() - 2 + 1]));
    }
}

/// A live node reaches itself.
pub proof fn lemma_reaches_self<B>(g: GraphModel<B>, h: PropertyHandleOpaque)
    requires
        g.is_live(h),
    ensures
        g.reaches(h, h),
{
    let p = seq![h];
    assert(g.is_path(p) && p[0] == h && p.last() == h);
}

/// What a reachable node tells is reachable.
pub proof fn lemma_reaches_step<B>(
    g: GraphModel<B>,
    h: PropertyHandleOpaque,
    x: PropertyHandleOpaque,
    y: PropertyHandleOpaque,
)
    requires
        g.reaches(h, x),
        g.edge(x, y),
    ensures
        g.reaches(h, y),
{
    let p = choose|p: Seq<PropertyHandleOpaque>|
        #[trigger] g.is_path(p) && p[0] == h && p.last() == x;
    let q = p.push(y);
    assert forall|i: int| 0 <= i < q.len() - 1 implies g.edge(#[trigger] q[i], q[i + 1]) by {
        if i < p.len() - 1 {
            assert(g.edge(p[i], p[i + 1]));
        }
    }
    assert(g.is_path(q) && q[0] == h && q.last() == y);
}

/// A binding that is running conflicts with a write to its own property.
pub proof fn lemma_updating_conflicts<B>(g: GraphModel<B>, h: PropertyHandleOpaque)
    requires
        g.is_live(h),
        g.nodes[h].updating,
    ensures
        g.conflicts(h),
{
    lemma_reaches_self(g, h);
}

/// A property that can be written is not being evaluated.
pub proof fn lemma_writable_is_idle<B>(g: GraphModel<B>, h: PropertyHandleOpaque)
    requires
        g.writable(h),
    ensures
        !g.nodes[h].updating,
{
    if g.nodes[h].updating {
        lemma_updating_conflicts(g, h);
    }
}

/// To invalidate keeps a graph well-formed.
pub proof fn lemma_mark_dirty_wf<B>(g: GraphModel<B>, h: PropertyHandleOpaque)
    requires
        g.wf(),
    ensures
        g.mark_dirty(h).wf(),
{
}

/// A graph stays well-formed when a node is added under a handle that was
/// never used.
pub proof fn lemma_init_wf<B>(g: GraphModel<B>, h: PropertyHandleOpaque)
    requires
        g.wf(),
        !g.issued.contains(h),
    ensures
        g.init(h).wf(),
{
    let n = g.init(h);
    assert forall|i: int| 0 <= i < n.stack.len() implies n.nodes.contains_key(
        #[trigger] n.stack[i],
    ) && n.nodes[n.stack[i]].updating by {
        assert(g.nodes.contains_key(g.stack[i]));
    }
    assert forall|x: PropertyHandleOpaque| #[trigger]
        n.nodes.contains_key(x) && n.nodes[x].updating implies n.stack.contains(x) by {
        assert(g.nodes.contains_key(x));
    }
}

/// A read keeps a graph well-formed.
pub proof fn lemma_update_wf<B>(g: GraphModel<B>, h: PropertyHandleOpaque)
    requires
        g.wf(),
    ensures
        g.update(h).wf(),
{
    let n = g.update(h);
    if g.update_step(h) == Ok::<UpdateStep, PropertyError>(UpdateStep::Evaluate) {
        assert forall|i: int| 0 <= i < n.stack.len() implies n.nodes.contains_key(
            #[trigger] n.stack[i],
        ) && n.nodes[n.stack[i]].updating by {
            if i < g.stack.len() {
                assert(n.stack[i] == g.stack[i]);
            }
        }
        assert forall|i: int, j: int| 0 <= i < j < n.stack.len() implies n.stack[i]
            != n.stack[j] by {
            if j == n.stack.len() - 1 {
                assert(g.nodes[g.stack[i]].updating);
            } else {
                assert(g.stack[i] != g.stack[j]);
            }
        }
        assert forall|x: PropertyHandleOpaque| #[trigger]
            n.nodes.contains_key(x) && n.nodes[x].updating implies n.stack.contains(x) by {
            if x == h {
                assert(n.stack[n.stack.len() - 1] == x);
            } else {
                let i = choose|i: int| 0 <= i < g.stack.len() && g.stack[i] == x;
                assert(n.stack[i] == x);
            }
        }
    } else if g.update_step(h) == Ok::<UpdateStep, PropertyError>(UpdateStep::UpToDate) {
        if g.stack.len() > 0 {
            assert(g.nodes.contains_key(g.stack[g.stack.len() - 1]));
        }
        assert forall|i: int| 0 <= i < n.stack.len() implies n.nodes.contains_key(
            #[trigger] n.stack[i],
        ) && n.nodes[n.stack[i]].updating by {
            assert(g.nodes[g.stack[i]].updating);
        }
        assert forall|x: PropertyHandleOpaque| #[trigger]
            n.nodes.contains_key(x) && n.nodes[x].updating implies n.stack.contains(x) by {
            assert(g.nodes[x].updating);
        }
    }
}

/// The end of an evaluation keeps a graph well-formed.
pub proof fn lemma_evaluated_wf<B>(g: GraphModel<B>, h: PropertyHandleOpaque, completed: bool)
    requires
        g.wf(),
    ensures
        g.evaluated(h, completed).wf(),
{
    if g.current_binding() == Some(h) {
        let n = g.evaluated(h, completed);
        let top = g.stack.len() - 1;
        assert(g.nodes.contains_key(g.stack[top]));
        assert forall|i: int| 0 <= i < n.stack.len() implies n.nodes.contains_key(
            #[trigger] n.stack[i],
        ) && n.nodes[n.stack[i]].updating by {
            assert(n.stack[i] == g.stack[i]);
            assert(g.stack[i] != g.stack[top]);
        }
        assert forall|i: int, j: int| 0 <= i < j < n.stack.len() implies n.stack[i]
            != n.stack[j] by {
            assert(g.stack[i] != g.stack[j]);
        }
        assert forall|x: PropertyHandleOpaque| #[trigger]
            n.nodes.contains_key(x) && n.nodes[x].updating implies n.stack.contains(x) by {
            let i = choose|i: int| 0 <= i < g.stack.len() && g.stack[i] == x;
            assert(n.stack[i] == x);
        }
    }
}

/// To drop a property keeps a graph well-formed.
pub proof fn lemma_dropped_wf<B>(g: GraphModel<B>, h: PropertyHandleOpaque)
    requires
        g.wf(),
    ensures
        g.dropped(h).wf(),
{
    if g.droppable(h) {
        let n = g.dropped(h);
        assert forall|i: int| 0 <= i < n.stack.len() implies n.nodes.contains_key(
            #[trigger] n.stack[i],
        ) && n.nodes[n.stack[i]].updating by {
            assert(g.nodes[g.stack[i]].updating);
        }
        assert forall|x: PropertyHandleOpaque| #[trigger]
            n.nodes.contains_key(x) && n.nodes[x].updating implies n.stack.contains(x) by {
            assert(g.nodes[x].updating);
        }
    }
}

/// A write keeps a graph well-formed.
pub proof fn lemma_write_wf<B>(g: GraphModel<B>, h: PropertyHandleOpaque)
    requires
        g.wf(),
    ensures
        g.write(h).wf(),
{
    if g.writable(h) {
        lemma_writable_is_idle(g, h);
        lemma_mark_dirty_wf(g, h);
        let m = g.mark_dirty(h);
        let w = g.write(h);
        assert forall|i: int| 0 <= i < w.stack.len() implies w.nodes.contains_key(
            #[trigger] w.stack[i],
        ) && w.nodes[w.stack[i]].updating by {
            assert(m.nodes[m.stack[i]].updating);
        }
        assert forall|x: PropertyHandleOpaque| #[trigger]
            w.nodes.contains_key(x) && w.nodes[x].updating implies w.stack.contains(x) by {
            assert(m.nodes[x].updating);
        }
    }
}

/// To install a binding keeps a graph well-formed.
pub proof fn lemma_bind_wf<B>(g: GraphModel<B>, h: PropertyHandleOpaque, binding: B)
    requires
        g.wf(),
    ensures
        g.bind(h, binding).wf(),
{
    if g.writable(h) {
        lemma_writable_is_idle(g, h);
        let installed = GraphModel {
            nodes: g.nodes.insert(h, NodeModel { binding: Some(binding), ..g.nodes[h] }),
            ..g
        };
        assert forall|i: int| 0 <= i < installed.stack.len() implies installed.nodes.contains_key(
            #[trigger] installed.stack[i],
        ) && installed.nodes[installed.stack[i]].updating by {
            assert(g.nodes[g.stack[i]].updating);
        }
        assert forall|x: PropertyHandleOpaque| #[trigger]
            installed.nodes.contains_key(x) && installed.nodes[x].updating implies installed.stack.contains(
            x,
        ) by {
            assert(g.nodes[x].updating);
        }
        assert(installed.wf());
        lemma_mark_dirty_wf(installed, h);
    }
}

} // verus!
