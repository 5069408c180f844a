//! What holds of the engine as a whole, stated over the model and proved from
//! the definitions of its transitions.

use super::model::{
    lemma_bind_wf, lemma_dropped_wf, lemma_evaluated_wf, lemma_init_wf, lemma_reaches_self,
    lemma_reaches_step, lemma_update_wf, lemma_writable_is_idle, lemma_write_wf, GraphModel,
    NodeModel, PropertyError, PropertyHandleOpaque, PropertyModel, PropertyRead, UpdateStep,
};
use vstd::prelude::*;

verus! {

/// Every state that the engine reaches is well-formed: a plain value is
/// never dirty, only a dirty binding runs, a dirty property has nobody left
/// to tell, and the bindings under evaluation are those on the stack, each
/// once.
pub proof fn law_graph_stays_well_formed<B>(
    g: GraphModel<B>,
    h: PropertyHandleOpaque,
    binding: B,
    completed: bool,
)
    requires
        g.wf(),
    ensures
        GraphModel::<B>::empty().wf(),
        !g.issued.contains(h) ==> g.init(h).wf(),
        g.update(h).wf(),
        g.evaluated(h, completed).wf(),
        g.write(h).wf(),
        g.bind(h, binding).wf(),
        g.dropped(h).wf(),
{
    if !g.issued.contains(h) {
        lemma_init_wf(g, h);
    }
    lemma_update_wf(g, h);
    lemma_evaluated_wf(g, h, completed);
    lemma_write_wf(g, h);
    lemma_bind_wf(g, h, binding);
    lemma_dropped_wf(g, h);
}

/// A call that is refused changes nothing.
pub proof fn law_refused_calls_change_nothing<T, B>(
    p: PropertyModel<T>,
    g: GraphModel<B>,
    h: PropertyHandleOpaque,
    v: T,
    binding: B,
    completed: bool,
)
    ensures
        g.update_step(h) is Err ==> g.update(h) == g,
        g.evaluated_result(h) is Err ==> g.evaluated(h, completed) == g,
        g.write_result(h) is Err ==> g.write(h) == g && g.bind(h, binding) == g,
        g.write_result(p.inner) is Err ==> p.written(g, v) == p,
        g.drop_result(h) is Err ==> g.dropped(h) == g,
{
}

/// A value that was written is the value that is read: after a write, a read
/// asks for no evaluation and yields what was written.
pub proof fn law_plain_read_write<T, B>(p: PropertyModel<T>, g: GraphModel<B>, v: T)
    requires
        g.wf(),
        g.writable(p.inner),
    ensures
        p.written(g, v).read(g.write(p.inner)) == Ok::<PropertyRead<T>, PropertyError>(
            PropertyRead::Value(v),
        ),
{
    lemma_writable_is_idle(g, p.inner);
}

/// A binding is lazy: to install it starts no evaluation, and it is the next
/// read of the property that asks for one.
pub proof fn law_binding_is_lazy<B>(g: GraphModel<B>, h: PropertyHandleOpaque, binding: B)
    requires
        g.wf(),
        g.writable(h),
    ensures
        g.bind(h, binding).stack == g.stack,
        g.bind(h, binding).nodes[h].binding == Some(binding),
        g.bind(h, binding).update_step(h) == Ok::<UpdateStep, PropertyError>(UpdateStep::Evaluate),
{
    let installed = GraphModel {
        nodes: g.nodes.insert(h, NodeModel { binding: Some(binding), ..g.nodes[h] }),
        ..g
    };
    lemma_writable_is_idle(g, h);
    lemma_reaches_self(installed, h);
}

/// A value is cached: once the binding of `h` has run to its end, `h` is
/// current.
pub proof fn law_evaluated_value_is_current<B>(g: GraphModel<B>, h: PropertyHandleOpaque)
    requires
        g.wf(),
        g.current_binding() == Some(h),
    ensures
        g.evaluated(h, true).update_step(h) == Ok::<UpdateStep, PropertyError>(
            UpdateStep::UpToDate,
        ),
{
    assert(g.nodes.contains_key(g.stack[g.stack.len() - 1]));
}

/// A value is cached: a property that is current stays current whatever is
/// read, and whichever evaluation ends, so that its binding runs at most once
/// between two invalidations.
pub proof fn law_reads_keep_values_current<B>(
    g: GraphModel<B>,
    h: PropertyHandleOpaque,
    k: PropertyHandleOpaque,
    completed: bool,
)
    requires
        g.wf(),
        g.update_step(h) == Ok::<UpdateStep, PropertyError>(UpdateStep::UpToDate),
    ensures
        g.update(k).update_step(h) == Ok::<UpdateStep, PropertyError>(UpdateStep::UpToDate),
        g.evaluated(k, completed).update_step(h) == Ok::<UpdateStep, PropertyError>(
            UpdateStep::UpToDate,
        ),
{
    if g.current_binding() == Some(k) {
        assert(g.nodes[g.stack[g.stack.len() - 1]].updating);
    }
}

/// Dependencies are found by watching: a property that is read while a
/// binding runs counts the binding's property among its dependents.
pub proof fn law_read_registers_reader<B>(
    g: GraphModel<B>,
    read: PropertyHandleOpaque,
    reader: PropertyHandleOpaque,
)
    requires
        g.wf(),
        g.current_binding() == Some(reader),
        g.update_step(read) == Ok::<UpdateStep, PropertyError>(UpdateStep::UpToDate),
    ensures
        g.update(read).edge(read, reader),
{
    assert(g.nodes.contains_key(g.stack[g.stack.len() - 1]));
}

/// An edge lasts until it is used: whatever is read, written, bound or ends
/// its evaluation, a computed property stays among the dependents of what
/// its binding has read, unless it was marked dirty, so that a change of what
/// it read does not pass it by.
pub proof fn law_edges_last_until_used<B>(
    g: GraphModel<B>,
    read: PropertyHandleOpaque,
    reader: PropertyHandleOpaque,
    k: PropertyHandleOpaque,
    binding: B,
    completed: bool,
)
    requires
        g.wf(),
        g.edge(read, reader),
    ensures
        g.update(k).edge(read, reader),
        g.evaluated(k, completed).edge(read, reader),
        g.write(k).edge(read, reader) || g.write(k).nodes[reader].dirty || !g.write(
            k,
        ).has_binding(reader),
        g.bind(k, binding).edge(read, reader) || g.bind(k, binding).nodes[reader].dirty || !g.bind(
            k,
            binding,
        ).has_binding(reader),
{
    if g.current_binding() == Some(k) {
        assert(g.nodes.contains_key(g.stack[g.stack.len() - 1]));
    }
    if g.writable(k) {
        lemma_writable_is_idle(g, k);
        if g.reaches(k, read) {
            lemma_reaches_step(g, k, read, reader);
        }
        let installed = GraphModel {
            nodes: g.nodes.insert(k, NodeModel { binding: Some(binding), ..g.nodes[k] }),
            ..g
        };
        assert(installed.edge(read, reader));
        if installed.reaches(k, read) {
            lemma_reaches_step(installed, k, read, reader);
        }
    }
}

/// A change reaches every dependent: each computed property that a written
/// property reaches is dirty afterwards, and has to run its binding again
/// before it is read.
pub proof fn law_change_invalidates_dependents<B>(
    g: GraphModel<B>,
    written: PropertyHandleOpaque,
    dependent: PropertyHandleOpaque,
)
    requires
        g.wf(),
        g.writable(written),
        g.reaches(written, dependent),
        dependent != written,
        g.has_binding(dependent),
    ensures
        g.write(written).nodes[dependent].dirty,
        g.write(written).update_step(dependent) != Ok::<UpdateStep, PropertyError>(
            UpdateStep::UpToDate,
        ),
{
}

/// A change reaches nothing else: a property that the written one does not
/// reach is left as it was.
pub proof fn law_change_spares_the_rest<B>(
    g: GraphModel<B>,
    written: PropertyHandleOpaque,
    other: PropertyHandleOpaque,
)
    requires
        g.wf(),
        g.is_live(other),
        !g.reaches(written, other),
    ensures
        g.write(written).is_live(other),
        g.write(written).nodes[other] == g.nodes[other],
{
    if g.is_live(written) {
        lemma_reaches_self(g, written);
    }
}

/// An edge tells once: after a change, neither the written property nor
/// anything it reached holds a dependent, so that what depended on them has
/// to read them again to hear of the next change.
pub proof fn law_edges_are_used_up<B>(
    g: GraphModel<B>,
    written: PropertyHandleOpaque,
    reached: PropertyHandleOpaque,
)
    requires
        g.wf(),
        g.writable(written),
        g.reaches(written, reached),
    ensures
        g.write(written).nodes[reached].dependents == Set::<PropertyHandleOpaque>::empty(),
        forall|x: PropertyHandleOpaque| !g.write(written).edge(reached, x),
{
    let p = choose|p: Seq<PropertyHandleOpaque>|
        #[trigger] g.is_path(p) && p[0] == written && p.last() == reached;
    assert(g.is_live(reached)) by {
        if p.len() > 1 {
            assert(g.edge(p[p.len() - 2], p[p.len() - 2 + 1]));
        }
    }
}

/// A binding that reads its own property, directly or through others, is
/// found out: a read of `h` right after the one that started its evaluation
/// fails, and while the binding of `h` runs, a read of another property does
/// not change that.
pub proof fn law_binding_loop_is_detected<B>(
    g: GraphModel<B>,
    h: PropertyHandleOpaque,
    k: PropertyHandleOpaque,
)
    requires
        g.wf(),
    ensures
        g.update_step(h) == Ok::<UpdateStep, PropertyError>(UpdateStep::Evaluate) ==> g.update(
            h,
        ).update_step(h) == Err::<UpdateStep, PropertyError>(PropertyError::BindingLoopError),
        g.is_live(h) && g.nodes[h].updating ==> g.update(k).update_step(h) == Err::<
            UpdateStep,
            PropertyError,
        >(PropertyError::BindingLoopError),
{
}

/// A value replaces a binding for good: a property that was written holds no
/// binding, and stays current when a property that its binding used to read
/// is written or bound.
pub proof fn law_value_replaces_binding<B>(
    g: GraphModel<B>,
    h: PropertyHandleOpaque,
    former_dependency: PropertyHandleOpaque,
    binding: B,
)
    requires
        g.wf(),
        g.writable(h),
        former_dependency != h,
    ensures
        g.write(h).nodes[h].binding is None,
        g.write(h).write(former_dependency).nodes[h].binding is None,
        g.write(h).write(former_dependency).update_step(h) == Ok::<UpdateStep, PropertyError>(
            UpdateStep::UpToDate,
        ),
        g.write(h).bind(former_dependency, binding).nodes[h].binding is None,
        g.write(h).bind(former_dependency, binding).update_step(h) == Ok::<
            UpdateStep,
            PropertyError,
        >(UpdateStep::UpToDate),
{
    let w = g.write(h);
    lemma_write_wf(g, h);
    lemma_write_wf(w, former_dependency);
    lemma_bind_wf(w, former_dependency, binding);
}

/// A dependent that was dropped is passed over: a later change of what it
/// read does not reach it, reaches nothing through it, leaves it dropped, and
/// leaves no trace of it among the dependents.
pub proof fn law_dropped_dependent_is_passed_over<B>(
    g: GraphModel<B>,
    dependency: PropertyHandleOpaque,
    dependent: PropertyHandleOpaque,
    x: PropertyHandleOpaque,
)
    requires
        g.wf(),
        g.droppable(dependent),
        g.dropped(dependent).writable(dependency),
        dependency != dependent,
    ensures
        !g.dropped(dependent).reaches(dependency, dependent),
        g.dropped(dependent).reaches(dependency, x) ==> g.reaches(dependency, x),
        !g.dropped(dependent).write(dependency).is_live(dependent),
        !g.dropped(dependent).write(dependency).nodes[dependency].dependents.contains(dependent),
{
    let d = g.dropped(dependent);
    if d.reaches(dependency, dependent) {
        let p = choose|p: Seq<PropertyHandleOpaque>|
            #[trigger] d.is_path(p) && p[0] == dependency && p.last() == dependent;
        assert(d.edge(p[p.len() - 2], p[p.len() - 2 + 1]));
    }
    if d.reaches(dependency, x) {
        let p = choose|p: Seq<PropertyHandleOpaque>|
            #[trigger] d.is_path(p) && p[0] == dependency && p.last() == x;
        assert forall|i: int| 0 <= i < p.len() - 1 implies g.edge(#[trigger] p[i], p[i + 1]) by {
            assert(d.edge(p[i], p[i + 1]));
        }
        assert(g.is_path(p));
    }
    lemma_reaches_self(d, dependency);
}

/// The two ways in are one. A read through the property yields a value
/// exactly where a read through the handle says that the caller's copy is
/// current, and then it is that copy; it asks for an evaluation, or fails,
/// exactly where the read through the handle does. And the property takes a
/// new value exactly where a caller who goes by the handle is to change its
/// copy: where a write is accepted, and where the end of an evaluation is
/// accepted that has yielded a value.
pub proof fn law_property_and_handle_agree<T, B>(p: PropertyModel<T>, g: GraphModel<B>, v: T)
    ensures
        match p.read(g) {
            Ok(PropertyRead::Value(held)) => g.update_step(p.inner) == Ok::<
                UpdateStep,
                PropertyError,
            >(UpdateStep::UpToDate) && held == p.value,
            Ok(PropertyRead::Evaluate) => g.update_step(p.inner) == Ok::<
                UpdateStep,
                PropertyError,
            >(UpdateStep::Evaluate),
            Err(e) => g.update_step(p.inner) == Err::<UpdateStep, PropertyError>(e),
        },
        p.written(g, v) == (if g.write_result(p.inner) is Ok {
            PropertyModel { value: v, ..p }
        } else {
            p
        }),
        p.evaluated(g, Some(v)) == (if g.evaluated_result(p.inner) is Ok {
            PropertyModel { value: v, ..p }
        } else {
            p
        }),
        p.evaluated(g, None) == p,
{
}

} // verus!
