//! Property binding engine.
//!
//! A property is a cell that holds either a plain value or a binding, a
//! computation over other properties. Bindings are evaluated lazily, the
//! properties read during an evaluation are recorded as its dependencies, and
//! a change marks every transitive dependent dirty.
//!
//! The engine keeps its nodes in an arena and never runs a binding itself: a
//! read of a dirty property tells the caller to evaluate the binding and to
//! report back, so that a nested read goes through the same arena.

pub mod graph;
pub mod laws;
pub mod model;

pub use graph::{BindingNotify, PropertyGraph};
pub use model::{
    DirtyReason, GraphModel, NodeModel, PropertyError, PropertyHandleOpaque, PropertyModel,
    PropertyRead, UpdateStep,
};

use vstd::prelude::*;

verus! {

/// What a binding decides for itself. A binding that keeps its defaults is
/// replaced whenever a value or another binding is set on its property.
pub trait Binding<T>: BindingNotify + Sized {
    /// Asked when a value is set on a property that holds this binding.
    /// `false` keeps the binding in place, and the value is not stored. A
    /// binding that does not decide for itself gives way.
    fn allow_replace_binding_with_value(&self, value: &T) -> (allowed: bool)
        default_ensures
            allowed,
    {
        true
    }

    /// Asked when `binding` is set on a property that holds this binding.
    /// `false` keeps this binding in place. A binding that does not decide
    /// for itself gives way.
    fn allow_replace_binding_with_binding(&self, binding: &Self) -> (allowed: bool)
        default_ensures
            allowed,
    {
        true
    }
}

/// Where a binding finds the properties it reads: the component that holds
/// the property, and the contexts of the components around it. The engine
/// never looks inside: whoever runs a binding hands it the context.
pub struct EvaluationContext<'a, C> {
    /// The component which contains the property.
    pub component: C,
    /// The context of the parent component.
    pub parent_context: Option<&'a EvaluationContext<'a, C>>,
}

impl<'a, C> EvaluationContext<'a, C> {
    /// The context of a root component.
    pub fn for_root_component(component: C) -> (context: Self)
        ensures
            context.component == component,
            context.parent_context is None,
    {
        EvaluationContext { component, parent_context: None }
    }

    /// The context of a `child` of the component of this context.
    pub fn child_context(&'a self, child: C) -> (context: Self)
        ensures
            context.component == child,
            context.parent_context == Some(self),
    {
        EvaluationContext { component: child, parent_context: Some(self) }
    }
}

/// A value that bindings can track.
///
/// A property is assigned a value or a binding. A binding is evaluated on
/// demand, when the property is read. A property that is read while a binding
/// runs becomes a dependency of that binding: when it changes, the binding is
/// marked dirty and runs again at the next read.
pub struct Property<T> {
    inner: PropertyHandleOpaque,
    value: T,
}

impl<T> View for Property<T> {
    type V = PropertyModel<T>;

    closed spec fn view(&self) -> PropertyModel<T> {
        PropertyModel { inner: self.inner, value: self.value }
    }
}

impl<T> Property<T> {
    /// A property of `graph` that holds `value`.
    pub fn new<B>(graph: &mut PropertyGraph<B>, value: T) -> (property: Self)
        requires
            old(graph)@.wf(),
        ensures
            property@.value == value,
            !old(graph)@.issued.contains(property@.inner),
            final(graph)@ == old(graph)@.init(property@.inner),
            final(graph)@.wf(),
    {
        Property { inner: graph.init(), value }
    }

    /// The node that stands for this property in the graph.
    pub fn handle(&self) -> (handle: PropertyHandleOpaque)
        ensures
            handle == self@.inner,
    {
        self.inner
    }

    /// Reads the property. A current value is handed out, and the binding
    /// under evaluation, if there is one, becomes a dependent of this
    /// property. Where the binding of this property has to run first, the
    /// read starts its evaluation and says so.
    ///
    /// A read from inside the property's own binding is a binding loop.
    pub fn get<B>(&self, graph: &mut PropertyGraph<B>) -> (read: Result<
        PropertyRead<T>,
        PropertyError,
    >) where T: Clone
        requires
            old(graph)@.wf(),
        ensures
            final(graph)@ == old(graph)@.update(self@.inner),
            final(graph)@.wf(),
            match (read, self@.read(old(graph)@)) {
                (Ok(PropertyRead::Value(got)), Ok(PropertyRead::Value(held))) => cloned(held, got),
                (Ok(PropertyRead::Evaluate), Ok(PropertyRead::Evaluate)) => true,
                (Err(e), Err(expected)) => e == expected,
                _ => false,
            },
    {
        match graph.update(self.inner) {
            Ok(UpdateStep::UpToDate) => Ok(PropertyRead::Value(self.value.clone())),
            Ok(UpdateStep::Evaluate) => Ok(PropertyRead::Evaluate),
            Err(e) => Err(e),
        }
    }

    /// Ends the evaluation that a read has started. `Some` holds what the
    /// binding returned, which becomes the value; `None` says that the
    /// binding gave up, and leaves the property dirty.
    pub fn evaluated<B>(&mut self, graph: &mut PropertyGraph<B>, value: Option<T>) -> (result:
        Result<(), PropertyError>)
        requires
            old(graph)@.wf(),
        ensures
            result == old(graph)@.evaluated_result(old(self)@.inner),
            final(graph)@ == old(graph)@.evaluated(old(self)@.inner, value is Some),
            final(graph)@.wf(),
            final(self)@ == old(self)@.evaluated(old(graph)@, value),
    {
        match graph.evaluated(self.inner, value.is_some()) {
            Ok(()) => {
                match value {
                    Some(v) => {
                        self.value = v;
                    },
                    None => {},
                }
                Ok(())
            },
            Err(e) => Err(e),
        }
    }

    /// What [`Property::set`] does once the binding in place, if there is
    /// one, has said whether it gives way (`allowed`). Where it does not,
    /// nothing changes.
    pub fn set_if_allowed<B: BindingNotify>(
        &mut self,
        graph: &mut PropertyGraph<B>,
        t: T,
        allowed: bool,
    ) -> (result: Result<(), PropertyError>)
        requires
            old(graph)@.wf(),
        ensures
            final(graph)@.wf(),
            allowed ==> {
                &&& result == old(graph)@.write_result(old(self)@.inner)
                &&& final(graph)@ == old(graph)@.write(old(self)@.inner)
                &&& final(self)@ == old(self)@.written(old(graph)@, t)
            },
            !allowed ==> {
                &&& result == old(graph)@.kept_result(old(self)@.inner)
                &&& final(graph)@ == old(graph)@
                &&& final(self)@ == old(self)@
            },
    {
        if !graph.is_live(self.inner) {
            return Err(PropertyError::Dropped);
        }
        if graph.is_updating(self.inner) {
            proof {
                model::lemma_updating_conflicts(graph@, self.inner);
            }
            return Err(PropertyError::BorrowConflict);
        }
        if !allowed {
            return Ok(());
        }
        match graph.set_changed(self.inner) {
            Ok(_) => {
                self.value = t;
                Ok(())
            },
            Err(e) => Err(e),
        }
    }

    /// Changes the value of the property. Its binding, if it has one, is
    /// removed, and the properties whose bindings depend on it are marked
    /// dirty. A binding that does not give way keeps its place, and nothing
    /// changes.
    pub fn set<B: Binding<T>>(&mut self, graph: &mut PropertyGraph<B>, t: T) -> (result: Result<
        (),
        PropertyError,
    >)
        requires
            old(graph)@.wf(),
        ensures
            final(graph)@.wf(),
            ({
                ||| {
                    &&& result == old(graph)@.write_result(old(self)@.inner)
                    &&& final(graph)@ == old(graph)@.write(old(self)@.inner)
                    &&& final(self)@ == old(self)@.written(old(graph)@, t)
                }
                ||| {
                    &&& old(graph)@.has_binding(old(self)@.inner)
                    &&& result == old(graph)@.kept_result(old(self)@.inner)
                    &&& final(graph)@ == old(graph)@
                    &&& final(self)@ == old(self)@
                }
            }),
    {
        let allowed = match graph.binding(self.inner) {
            Some(binding) => binding.allow_replace_binding_with_value(&t),
            None => true,
        };
        self.set_if_allowed(graph, t, allowed)
    }

    /// What [`Property::set_binding`] does once the binding in place, if
    /// there is one, has said whether it gives way (`allowed`). Where it does
    /// not, nothing changes.
    pub fn set_binding_if_allowed<B: BindingNotify>(
        &self,
        graph: &mut PropertyGraph<B>,
        binding: B,
        allowed: bool,
    ) -> (result: Result<(), PropertyError>)
        requires
            old(graph)@.wf(),
        ensures
            final(graph)@.wf(),
            allowed ==> {
                &&& result == old(graph)@.write_result(self@.inner)
                &&& final(graph)@ == old(graph)@.bind(self@.inner, binding)
            },
            !allowed ==> {
                &&& result == old(graph)@.kept_result(self@.inner)
                &&& final(graph)@ == old(graph)@
            },
    {
        if !graph.is_live(self.inner) {
            return Err(PropertyError::Dropped);
        }
        if graph.is_updating(self.inner) {
            proof {
                model::lemma_updating_conflicts(graph@, self.inner);
            }
            return Err(PropertyError::BorrowConflict);
        }
        if !allowed {
            return Ok(());
        }
        match self.set_binding_object(graph, binding) {
            Ok(_) => Ok(()),
            Err(e) => Err(e),
        }
    }

    /// Sets a binding on the property. The binding is not run before the
    /// property is next read. The properties whose bindings depend on this
    /// one are marked dirty. A binding in place that does not give way keeps
    /// its place, and nothing changes.
    pub fn set_binding<B: Binding<T>>(&self, graph: &mut PropertyGraph<B>, binding: B) -> (result:
        Result<(), PropertyError>)
        requires
            old(graph)@.wf(),
        ensures
            final(graph)@.wf(),
            ({
                ||| {
                    &&& result == old(graph)@.write_result(self@.inner)
                    &&& final(graph)@ == old(graph)@.bind(self@.inner, binding)
                }
                ||| {
                    &&& old(graph)@.has_binding(self@.inner)
                    &&& result == old(graph)@.kept_result(self@.inner)
                    &&& final(graph)@ == old(graph)@
                }
            }),
    {
        let allowed = match graph.binding(self.inner) {
            Some(existing_binding) => existing_binding.allow_replace_binding_with_binding(&binding),
            None => true,
        };
        self.set_binding_if_allowed(graph, binding, allowed)
    }

    /// Installs `binding_object` whatever the binding in place says, and
    /// hands that one back.
    pub fn set_binding_object<B: BindingNotify>(
        &self,
        graph: &mut PropertyGraph<B>,
        binding_object: B,
    ) -> (result: Result<Option<B>, PropertyError>)
        requires
            old(graph)@.wf(),
        ensures
            final(graph)@ == old(graph)@.bind(self@.inner, binding_object),
            match result {
                Ok(replaced) => old(graph)@.write_result(self@.inner) is Ok && replaced == old(
                    graph,
                )@.nodes[self@.inner].binding,
                Err(e) => old(graph)@.write_result(self@.inner) == Err::<(), PropertyError>(e),
            },
            final(graph)@.wf(),
    {
        graph.set_binding(self.inner, binding_object)
    }
}

/// Adds a property to `graph` and hands out its handle. The value is the
/// caller's to keep and to initialise.
pub fn sixtyfps_property_init<B>(graph: &mut PropertyGraph<B>) -> (out: PropertyHandleOpaque)
    requires
        old(graph)@.wf(),
    ensures
        !old(graph)@.issued.contains(out),
        final(graph)@ == old(graph)@.init(out),
        final(graph)@.wf(),
{
    graph.init()
}

/// To be called before the value is accessed. `UpToDate` says that the value
/// can be read as it is; `Evaluate`, that the caller has to run the binding
/// into the value, report with [`sixtyfps_property_evaluated`] and call again.
pub fn sixtyfps_property_update<B>(graph: &mut PropertyGraph<B>, handle: PropertyHandleOpaque) -> (step:
    Result<UpdateStep, PropertyError>)
    requires
        old(graph)@.wf(),
    ensures
        step == old(graph)@.update_step(handle),
        final(graph)@ == old(graph)@.update(handle),
        final(graph)@.wf(),
{
    graph.update(handle)
}

/// Reports that the run of the binding of `handle` has ended, with the value
/// written (`completed`) or without.
pub fn sixtyfps_property_evaluated<B>(
    graph: &mut PropertyGraph<B>,
    handle: PropertyHandleOpaque,
    completed: bool,
) -> (result: Result<(), PropertyError>)
    requires
        old(graph)@.wf(),
    ensures
        result == old(graph)@.evaluated_result(handle),
        final(graph)@ == old(graph)@.evaluated(handle, completed),
        final(graph)@.wf(),
{
    graph.evaluated(handle, completed)
}

/// Marks the fact that the value was changed from outside: the binding is
/// removed and the dependents are marked dirty.
pub fn sixtyfps_property_set_changed<B: BindingNotify>(
    graph: &mut PropertyGraph<B>,
    handle: PropertyHandleOpaque,
) -> (result: Result<(), PropertyError>)
    requires
        old(graph)@.wf(),
    ensures
        result == old(graph)@.write_result(handle),
        final(graph)@ == old(graph)@.write(handle),
        final(graph)@.wf(),
{
    match graph.set_changed(handle) {
        Ok(_) => Ok(()),
        Err(e) => Err(e),
    }
}

/// Sets a binding, whatever binding is in place. What the binding owns is
/// released when the binding is dropped.
pub fn sixtyfps_property_set_binding<B: BindingNotify>(
    graph: &mut PropertyGraph<B>,
    handle: PropertyHandleOpaque,
    binding: B,
) -> (result: Result<(), PropertyError>)
    requires
        old(graph)@.wf(),
    ensures
        result == old(graph)@.write_result(handle),
        final(graph)@ == old(graph)@.bind(handle, binding),
        final(graph)@.wf(),
{
    match graph.set_binding(handle, binding) {
        Ok(_) => Ok(()),
        Err(e) => Err(e),
    }
}

/// Destroys the handle. The binding that the property held is handed back,
/// so that what it owns can be released.
pub fn sixtyfps_property_drop<B>(graph: &mut PropertyGraph<B>, handle: PropertyHandleOpaque) -> (result:
    Result<Option<B>, PropertyError>)
    requires
        old(graph)@.wf(),
    ensures
        result == old(graph)@.drop_result(handle),
        final(graph)@ == old(graph)@.dropped(handle),
        final(graph)@.wf(),
{
    graph.drop_property(handle)
}

} // verus!
