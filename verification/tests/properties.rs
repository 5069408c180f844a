use sixtyfps_corelib::properties::{
    sixtyfps_property_drop, sixtyfps_property_evaluated, sixtyfps_property_init,
    sixtyfps_property_set_binding, sixtyfps_property_set_changed, sixtyfps_property_update,
    Binding, BindingNotify, DirtyReason, EvaluationContext, Property, PropertyError,
    PropertyGraph, PropertyHandleOpaque, PropertyRead, UpdateStep,
};
use std::cell::Cell;
use std::rc::Rc;

/// A component with three properties, as a window would have them.
struct Component {
    width: Property<i32>,
    height: Property<i32>,
    area: Property<i32>,
}

type Graph = PropertyGraph<Closure>;

type Field = fn(&mut Component) -> &mut Property<i32>;

/// A binding: a closure that reads properties of the component through the
/// graph. It counts how often it ran and how often it was told to be dirty.
#[derive(Clone)]
struct Closure {
    function: Rc<dyn Fn(&mut Component, &mut Graph) -> Result<i32, PropertyError>>,
    runs: Rc<Cell<u32>>,
    notified: Rc<Cell<u32>>,
    installed_on: Rc<Cell<Option<PropertyHandleOpaque>>>,
    keep_on_value: bool,
    keep_on_binding: bool,
}

impl Closure {
    fn new(
        function: impl Fn(&mut Component, &mut Graph) -> Result<i32, PropertyError> + 'static,
    ) -> Self {
        Closure {
            function: Rc::new(function),
            runs: Rc::new(Cell::new(0)),
            notified: Rc::new(Cell::new(0)),
            installed_on: Rc::new(Cell::new(None)),
            keep_on_value: false,
            keep_on_binding: false,
        }
    }
}

impl BindingNotify for Closure {
    fn mark_dirty(&self, reason: DirtyReason) {
        assert_eq!(reason, DirtyReason::ValueOrDependencyHasChanged);
        self.notified.set(self.notified.get() + 1);
    }

    fn set_notify_callback(&self, property: PropertyHandleOpaque) {
        self.installed_on.set(Some(property));
    }
}

impl Binding<i32> for Closure {
    fn allow_replace_binding_with_value(&self, _value: &i32) -> bool {
        !self.keep_on_value
    }

    fn allow_replace_binding_with_binding(&self, _binding: &Self) -> bool {
        !self.keep_on_binding
    }
}

fn width(c: &mut Component) -> &mut Property<i32> {
    &mut c.width
}

fn height(c: &mut Component) -> &mut Property<i32> {
    &mut c.height
}

fn area(c: &mut Component) -> &mut Property<i32> {
    &mut c.area
}

fn new_component(graph: &mut Graph) -> Component {
    Component {
        width: Property::new(graph, 0),
        height: Property::new(graph, 0),
        area: Property::new(graph, 0),
    }
}

/// Reads a property as a caller of the engine does: where the engine asks for
/// it, runs the binding, reports the end of the run whatever its outcome, and
/// reads again.
fn get(compo: &mut Component, graph: &mut Graph, field: Field) -> Result<i32, PropertyError> {
    loop {
        match field(compo).get(graph)? {
            PropertyRead::Value(value) => return Ok(value),
            PropertyRead::Evaluate => {
                let binding = graph.binding(field(compo).handle()).unwrap().clone();
                binding.runs.set(binding.runs.get() + 1);
                let outcome = (binding.function)(compo, graph);
                field(compo).evaluated(graph, outcome.ok())?;
                outcome?;
            }
        }
    }
}

#[test]
fn properties_simple_test() {
    let mut graph = Graph::new();
    let mut compo = new_component(&mut graph);
    compo
        .area
        .set_binding(&mut graph, Closure::new(|c, g| Ok(get(c, g, width)? * get(c, g, height)?)))
        .unwrap();
    compo.width.set(&mut graph, 4).unwrap();
    compo.height.set(&mut graph, 8).unwrap();
    assert_eq!(get(&mut compo, &mut graph, width), Ok(4));
    assert_eq!(get(&mut compo, &mut graph, height), Ok(8));
    assert_eq!(get(&mut compo, &mut graph, area), Ok(4 * 8));

    compo.width.set_binding(&mut graph, Closure::new(|c, g| Ok(get(c, g, height)? * 2))).unwrap();
    assert_eq!(get(&mut compo, &mut graph, width), Ok(8 * 2));
    assert_eq!(get(&mut compo, &mut graph, height), Ok(8));
    assert_eq!(get(&mut compo, &mut graph, area), Ok(8 * 8 * 2));
}

#[test]
fn plain_read_write() {
    let mut graph = Graph::new();
    let mut compo = new_component(&mut graph);
    for v in [0, 1, -7, i32::MAX, i32::MIN] {
        compo.width.set(&mut graph, v).unwrap();
        assert_eq!(get(&mut compo, &mut graph, width), Ok(v));
        assert!(!graph.is_dirty(compo.width.handle()));
    }
}

#[test]
fn new_property_holds_its_value() {
    let mut graph = Graph::new();
    let p = Property::new(&mut graph, 42);
    assert!(graph.is_live(p.handle()));
    assert!(!graph.is_dirty(p.handle()));
    assert!(!graph.is_updating(p.handle()));
    assert!(graph.binding(p.handle()).is_none());
    assert!(matches!(p.get(&mut graph), Ok(PropertyRead::Value(42))));
}

#[test]
fn binding_is_lazy_and_cached() {
    let mut graph = Graph::new();
    let mut compo = new_component(&mut graph);
    compo.width.set(&mut graph, 3).unwrap();
    let binding = Closure::new(|c, g| Ok(get(c, g, width)? + 1));
    let runs = binding.runs.clone();
    compo.area.set_binding(&mut graph, binding).unwrap();
    assert_eq!(runs.get(), 0);
    assert!(graph.is_dirty(compo.area.handle()));
    assert_eq!(graph.current_binding(), None);

    assert_eq!(get(&mut compo, &mut graph, area), Ok(4));
    assert_eq!(runs.get(), 1);
    assert_eq!(get(&mut compo, &mut graph, area), Ok(4));
    assert_eq!(get(&mut compo, &mut graph, area), Ok(4));
    assert_eq!(get(&mut compo, &mut graph, height), Ok(0));
    assert_eq!(runs.get(), 1);

    compo.width.set(&mut graph, 10).unwrap();
    assert_eq!(runs.get(), 1);
    assert_eq!(get(&mut compo, &mut graph, area), Ok(11));
    assert_eq!(runs.get(), 2);
}

#[test]
fn dependency_propagation() {
    let mut graph = Graph::new();
    let mut compo = new_component(&mut graph);
    compo
        .area
        .set_binding(&mut graph, Closure::new(|c, g| Ok(get(c, g, width)? * get(c, g, height)?)))
        .unwrap();
    compo.width.set(&mut graph, 4).unwrap();
    compo.height.set(&mut graph, 8).unwrap();
    assert_eq!(get(&mut compo, &mut graph, area), Ok(32));
    compo.width.set(&mut graph, 10).unwrap();
    assert!(graph.is_dirty(compo.area.handle()));
    assert_eq!(get(&mut compo, &mut graph, area), Ok(80));
}

#[test]
fn propagation_is_transitive() {
    let mut graph = Graph::new();
    let mut compo = new_component(&mut graph);
    // height = width + 1, area = height * 2
    compo.height.set_binding(&mut graph, Closure::new(|c, g| Ok(get(c, g, width)? + 1))).unwrap();
    compo.area.set_binding(&mut graph, Closure::new(|c, g| Ok(get(c, g, height)? * 2))).unwrap();
    compo.width.set(&mut graph, 1).unwrap();
    assert_eq!(get(&mut compo, &mut graph, area), Ok(4));
    assert!(!graph.is_dirty(compo.height.handle()));
    compo.width.set(&mut graph, 5).unwrap();
    assert!(graph.is_dirty(compo.height.handle()));
    assert!(graph.is_dirty(compo.area.handle()));
    assert_eq!(get(&mut compo, &mut graph, area), Ok(12));
    assert_eq!(get(&mut compo, &mut graph, height), Ok(6));
}

#[test]
fn dynamic_dependency_rewiring() {
    let mut graph = Graph::new();
    let mut compo = new_component(&mut graph);
    let mut extra = Component {
        width: Property::new(&mut graph, 0),
        height: Property::new(&mut graph, 0),
        area: Property::new(&mut graph, 0),
    };
    // area = if width > 0 { height } else { 100 }
    let binding = Closure::new(|c, g| {
        if get(c, g, width)? > 0 {
            get(c, g, height)
        } else {
            Ok(100)
        }
    });
    let runs = binding.runs.clone();
    compo.area.set_binding(&mut graph, binding).unwrap();
    compo.width.set(&mut graph, 1).unwrap();
    compo.height.set(&mut graph, 7).unwrap();
    assert_eq!(get(&mut compo, &mut graph, area), Ok(7));
    assert_eq!(runs.get(), 1);

    // The branch that reads `height` is live: a change of `height` counts.
    compo.height.set(&mut graph, 8).unwrap();
    assert!(graph.is_dirty(compo.area.handle()));
    assert_eq!(get(&mut compo, &mut graph, area), Ok(8));
    assert_eq!(runs.get(), 2);

    // The other branch: `height` is not read in this run.
    compo.width.set(&mut graph, 0).unwrap();
    assert_eq!(get(&mut compo, &mut graph, area), Ok(100));
    assert_eq!(runs.get(), 3);

    // The edge from `height` was left from the run before. It tells once.
    compo.height.set(&mut graph, 9).unwrap();
    assert_eq!(get(&mut compo, &mut graph, area), Ok(100));
    let runs_after_stale_edge = runs.get();
    compo.height.set(&mut graph, 10).unwrap();
    assert!(!graph.is_dirty(compo.area.handle()));
    assert_eq!(get(&mut compo, &mut graph, area), Ok(100));
    assert_eq!(runs.get(), runs_after_stale_edge);

    // The new edge counts: `width` was read in the last run.
    compo.width.set(&mut graph, 2).unwrap();
    assert!(graph.is_dirty(compo.area.handle()));
    assert_eq!(get(&mut compo, &mut graph, area), Ok(10));

    // A property that was never read has no say.
    extra.width.set(&mut graph, 5).unwrap();
    assert!(!graph.is_dirty(compo.area.handle()));
}

#[test]
fn loop_detection() {
    let mut graph = Graph::new();
    let mut compo = new_component(&mut graph);
    compo.width.set_binding(&mut graph, Closure::new(|c, g| get(c, g, height))).unwrap();
    compo.height.set_binding(&mut graph, Closure::new(|c, g| get(c, g, width))).unwrap();
    assert_eq!(get(&mut compo, &mut graph, width), Err(PropertyError::BindingLoopError));
    // The marker of the binding under evaluation was restored on the way out.
    assert_eq!(graph.current_binding(), None);
    assert!(!graph.is_updating(compo.width.handle()));
    assert!(!graph.is_updating(compo.height.handle()));
    // Nothing stale is handed out afterwards either.
    assert_eq!(get(&mut compo, &mut graph, height), Err(PropertyError::BindingLoopError));

    // Once the loop is broken the properties work again.
    compo.height.set(&mut graph, 3).unwrap();
    assert_eq!(get(&mut compo, &mut graph, width), Ok(3));
}

#[test]
fn self_reference_is_a_loop() {
    let mut graph = Graph::new();
    let mut compo = new_component(&mut graph);
    compo.area.set_binding(&mut graph, Closure::new(|c, g| get(c, g, area))).unwrap();
    assert_eq!(get(&mut compo, &mut graph, area), Err(PropertyError::BindingLoopError));
    assert_eq!(graph.current_binding(), None);
}

#[test]
fn value_replaces_binding() {
    let mut graph = Graph::new();
    let mut compo = new_component(&mut graph);
    compo.width.set(&mut graph, 2).unwrap();
    let binding = Closure::new(|c, g| Ok(get(c, g, width)? * 10));
    let runs = binding.runs.clone();
    compo.area.set_binding(&mut graph, binding).unwrap();
    assert_eq!(get(&mut compo, &mut graph, area), Ok(20));
    compo.area.set(&mut graph, 5).unwrap();
    assert!(graph.binding(compo.area.handle()).is_none());
    assert_eq!(get(&mut compo, &mut graph, area), Ok(5));
    // `width` still holds `area` as a dependent; the change must not bring
    // the computed value back.
    compo.width.set(&mut graph, 3).unwrap();
    assert!(!graph.is_dirty(compo.area.handle()));
    assert_eq!(get(&mut compo, &mut graph, area), Ok(5));
    assert_eq!(runs.get(), 1);
}

#[test]
fn dropped_dependent_is_passed_over() {
    let mut graph = Graph::new();
    let mut compo = new_component(&mut graph);
    compo.width.set(&mut graph, 2).unwrap();
    compo.area.set_binding(&mut graph, Closure::new(|c, g| Ok(get(c, g, width)? + 1))).unwrap();
    compo.height.set_binding(&mut graph, Closure::new(|c, g| Ok(get(c, g, area)? + 1))).unwrap();
    assert_eq!(get(&mut compo, &mut graph, height), Ok(4));
    // `area` goes away without ever being invalidated.
    let dead = compo.area.handle();
    let released = sixtyfps_property_drop(&mut graph, dead).unwrap();
    assert!(released.is_some());
    assert!(!graph.is_live(dead));
    // Its dependency changes: the dead dependent is skipped, and so is what
    // could only be reached through it.
    assert_eq!(compo.width.set(&mut graph, 9), Ok(()));
    assert!(!graph.is_live(dead));
    assert!(!graph.is_dirty(compo.height.handle()));
    assert_eq!(get(&mut compo, &mut graph, width), Ok(9));
    // The dead property answers as dropped.
    assert_eq!(get(&mut compo, &mut graph, area), Err(PropertyError::Dropped));
    assert_eq!(compo.area.set(&mut graph, 1), Err(PropertyError::Dropped));
    assert_eq!(sixtyfps_property_drop(&mut graph, dead).err(), Some(PropertyError::Dropped));
}

#[test]
fn binding_is_told_that_it_is_dirty() {
    let mut graph = Graph::new();
    let mut compo = new_component(&mut graph);
    let binding = Closure::new(|c, g| Ok(get(c, g, width)? + get(c, g, width)?));
    let notified = binding.notified.clone();
    let installed_on = binding.installed_on.clone();
    compo.area.set_binding(&mut graph, binding).unwrap();
    assert_eq!(installed_on.get(), Some(compo.area.handle()));
    // Installing a binding marks the property dirty, and tells the binding.
    assert_eq!(notified.get(), 1);
    assert_eq!(get(&mut compo, &mut graph, area), Ok(0));
    // `width` was read twice, so the change reaches the binding twice.
    compo.width.set(&mut graph, 1).unwrap();
    assert_eq!(notified.get(), 3);
    // The edges are used up: another change tells nobody.
    compo.width.set(&mut graph, 2).unwrap();
    assert_eq!(notified.get(), 3);
    assert_eq!(get(&mut compo, &mut graph, area), Ok(4));
}

#[test]
fn binding_may_decline_a_value() {
    let mut graph = Graph::new();
    let mut compo = new_component(&mut graph);
    let mut binding = Closure::new(|_, _| Ok(7));
    binding.keep_on_value = true;
    compo.area.set_binding(&mut graph, binding).unwrap();
    assert_eq!(get(&mut compo, &mut graph, area), Ok(7));
    assert_eq!(compo.area.set(&mut graph, 1), Ok(()));
    assert!(graph.binding(compo.area.handle()).is_some());
    assert!(!graph.is_dirty(compo.area.handle()));
    assert_eq!(get(&mut compo, &mut graph, area), Ok(7));
    // Without asking, the value goes in.
    compo.area.set_if_allowed(&mut graph, 1, true).unwrap();
    assert!(graph.binding(compo.area.handle()).is_none());
    assert_eq!(get(&mut compo, &mut graph, area), Ok(1));
}

#[test]
fn binding_may_decline_a_binding() {
    let mut graph = Graph::new();
    let mut compo = new_component(&mut graph);
    let mut binding = Closure::new(|_, _| Ok(7));
    binding.keep_on_binding = true;
    compo.area.set_binding(&mut graph, binding).unwrap();
    assert_eq!(get(&mut compo, &mut graph, area), Ok(7));
    assert_eq!(compo.area.set_binding(&mut graph, Closure::new(|_, _| Ok(8))), Ok(()));
    assert!(!graph.is_dirty(compo.area.handle()));
    assert_eq!(get(&mut compo, &mut graph, area), Ok(7));
    // `set_binding_object` does not ask, and hands the old binding back.
    let old = compo.area.set_binding_object(&mut graph, Closure::new(|_, _| Ok(8))).unwrap();
    assert!(old.unwrap().keep_on_binding);
    assert_eq!(get(&mut compo, &mut graph, area), Ok(8));
    // A binding that gives way is replaced.
    assert_eq!(compo.area.set_binding(&mut graph, Closure::new(|_, _| Ok(9))), Ok(()));
    assert_eq!(get(&mut compo, &mut graph, area), Ok(9));
}

#[test]
fn write_inside_own_binding_is_a_conflict() {
    let mut graph = Graph::new();
    let mut compo = new_component(&mut graph);
    compo
        .area
        .set_binding(
            &mut graph,
            Closure::new(|c, g| {
                assert_eq!(c.area.set(g, 1), Err(PropertyError::BorrowConflict));
                assert_eq!(
                    c.area.set_binding(g, Closure::new(|_, _| Ok(0))),
                    Err(PropertyError::BorrowConflict)
                );
                assert_eq!(
                    sixtyfps_property_drop(g, c.area.handle()).err(),
                    Some(PropertyError::BorrowConflict)
                );
                Ok(3)
            }),
        )
        .unwrap();
    assert_eq!(get(&mut compo, &mut graph, area), Ok(3));
    assert!(graph.binding(compo.area.handle()).is_some());
}

#[test]
fn write_to_what_a_running_binding_read_is_a_conflict() {
    let mut graph = Graph::new();
    let mut compo = new_component(&mut graph);
    compo.width.set(&mut graph, 1).unwrap();
    compo
        .area
        .set_binding(
            &mut graph,
            Closure::new(|c, g| {
                let w = get(c, g, width)?;
                // `area` is now a dependent of `width`, and is running.
                c.width.set(g, w + 1)?;
                Ok(w)
            }),
        )
        .unwrap();
    assert_eq!(get(&mut compo, &mut graph, area), Err(PropertyError::BorrowConflict));
    // The write was refused and changed nothing, and the binding that gave up
    // is still dirty.
    assert_eq!(get(&mut compo, &mut graph, width), Ok(1));
    assert!(graph.is_dirty(compo.area.handle()));
    assert_eq!(graph.current_binding(), None);
    assert!(!graph.conflicts(compo.width.handle()));
}

#[test]
fn conflicts_are_found_through_chains_of_dependents() {
    let mut graph = Graph::new();
    let mut compo = new_component(&mut graph);
    // height = width + 1, area = height * 2
    compo.height.set_binding(&mut graph, Closure::new(|c, g| Ok(get(c, g, width)? + 1))).unwrap();
    compo
        .area
        .set_binding(
            &mut graph,
            Closure::new(|c, g| {
                let h = get(c, g, height)?;
                // `area` runs, and depends on `width` through `height`.
                assert!(g.conflicts(c.width.handle()));
                assert!(g.conflicts(c.height.handle()));
                assert!(g.conflicts(c.area.handle()));
                assert_eq!(c.width.set(g, 7), Err(PropertyError::BorrowConflict));
                assert_eq!(
                    c.width.set_binding(g, Closure::new(|_, _| Ok(0))),
                    Err(PropertyError::BorrowConflict)
                );
                assert_eq!(
                    sixtyfps_property_set_changed(g, c.height.handle()),
                    Err(PropertyError::BorrowConflict)
                );
                Ok(h * 2)
            }),
        )
        .unwrap();
    compo.width.set(&mut graph, 1).unwrap();
    assert_eq!(get(&mut compo, &mut graph, area), Ok(4));
    assert_eq!(get(&mut compo, &mut graph, width), Ok(1));
    // Once nothing runs, nothing is in conflict.
    assert!(!graph.conflicts(compo.width.handle()));
    compo.width.set(&mut graph, 2).unwrap();
    assert_eq!(get(&mut compo, &mut graph, area), Ok(6));
}

#[test]
fn a_write_to_an_unrelated_property_inside_a_binding_is_fine() {
    let mut graph = Graph::new();
    let mut compo = new_component(&mut graph);
    compo
        .area
        .set_binding(
            &mut graph,
            Closure::new(|c, g| {
                let w = get(c, g, width)?;
                assert!(!g.conflicts(c.height.handle()));
                c.height.set(g, w * 10)?;
                Ok(w)
            }),
        )
        .unwrap();
    compo.width.set(&mut graph, 3).unwrap();
    assert_eq!(get(&mut compo, &mut graph, area), Ok(3));
    assert_eq!(get(&mut compo, &mut graph, height), Ok(30));
}

#[test]
fn evaluation_reported_out_of_turn_is_refused() {
    let mut graph = Graph::new();
    let mut compo = new_component(&mut graph);
    assert_eq!(compo.width.evaluated(&mut graph, Some(5)), Err(PropertyError::BorrowConflict));
    assert_eq!(get(&mut compo, &mut graph, width), Ok(0));
    compo.width.set_binding(&mut graph, Closure::new(|_, _| Ok(1))).unwrap();
    compo.height.set_binding(&mut graph, Closure::new(|_, _| Ok(2))).unwrap();
    assert!(matches!(compo.width.get(&mut graph), Ok(PropertyRead::Evaluate)));
    assert!(matches!(compo.height.get(&mut graph), Ok(PropertyRead::Evaluate)));
    assert_eq!(graph.current_binding(), Some(compo.height.handle()));
    // Only the innermost evaluation can end.
    assert_eq!(compo.width.evaluated(&mut graph, Some(1)), Err(PropertyError::BorrowConflict));
    assert_eq!(compo.height.evaluated(&mut graph, Some(2)), Ok(()));
    assert_eq!(graph.current_binding(), Some(compo.width.handle()));
    assert_eq!(compo.width.evaluated(&mut graph, Some(1)), Ok(()));
    assert_eq!(graph.current_binding(), None);
    assert_eq!(get(&mut compo, &mut graph, width), Ok(1));
    assert_eq!(get(&mut compo, &mut graph, height), Ok(2));
}

#[test]
fn abandoned_evaluation_leaves_the_property_dirty() {
    let mut graph = Graph::new();
    let mut compo = new_component(&mut graph);
    compo.width.set(&mut graph, 11).unwrap();
    compo.area.set_binding(&mut graph, Closure::new(|c, g| get(c, g, width))).unwrap();
    assert!(matches!(compo.area.get(&mut graph), Ok(PropertyRead::Evaluate)));
    assert!(graph.is_updating(compo.area.handle()));
    assert_eq!(compo.area.evaluated(&mut graph, None), Ok(()));
    assert!(!graph.is_updating(compo.area.handle()));
    assert!(graph.is_dirty(compo.area.handle()));
    assert_eq!(get(&mut compo, &mut graph, area), Ok(11));
}

#[test]
fn handle_of_another_graph_is_unknown() {
    let mut graph = Graph::new();
    let mut other = Graph::new();
    let _ = Property::new(&mut other, 0);
    let mut stranger = Property::new(&mut other, 1);
    let _first = Property::new(&mut graph, 0);
    assert!(!graph.is_live(stranger.handle()));
    assert!(matches!(stranger.get(&mut graph), Err(PropertyError::Dropped)));
    assert_eq!(stranger.set(&mut graph, 2), Err(PropertyError::Dropped));
    assert_eq!(
        stranger.set_binding(&mut graph, Closure::new(|_, _| Ok(0))),
        Err(PropertyError::Dropped)
    );
    assert_eq!(graph.mark_dirty(stranger.handle()), false);
}

// ----- the interface by handles ------------------------------------------------

/// The same component, with the values kept by the caller and the engine
/// addressed by handles alone.
struct HandleComponent {
    width: (PropertyHandleOpaque, i32),
    height: (PropertyHandleOpaque, i32),
    area: (PropertyHandleOpaque, i32),
}

#[derive(Clone)]
struct HandleBinding(
    Rc<
        dyn Fn(
            &mut HandleComponent,
            &mut PropertyGraph<HandleBinding>,
        ) -> Result<i32, PropertyError>,
    >,
);

impl BindingNotify for HandleBinding {}

type HandleField = fn(&mut HandleComponent) -> &mut (PropertyHandleOpaque, i32);

fn h_width(c: &mut HandleComponent) -> &mut (PropertyHandleOpaque, i32) {
    &mut c.width
}

fn h_height(c: &mut HandleComponent) -> &mut (PropertyHandleOpaque, i32) {
    &mut c.height
}

fn h_area(c: &mut HandleComponent) -> &mut (PropertyHandleOpaque, i32) {
    &mut c.area
}

fn h_get(
    compo: &mut HandleComponent,
    graph: &mut PropertyGraph<HandleBinding>,
    field: HandleField,
) -> Result<i32, PropertyError> {
    loop {
        let handle = field(compo).0;
        match sixtyfps_property_update(graph, handle)? {
            UpdateStep::UpToDate => return Ok(field(compo).1),
            UpdateStep::Evaluate => {
                let binding = graph.binding(handle).unwrap().clone();
                let outcome = (binding.0)(compo, graph);
                if let Ok(value) = outcome {
                    field(compo).1 = value;
                }
                sixtyfps_property_evaluated(graph, handle, outcome.is_ok())?;
                outcome?;
            }
        }
    }
}

fn h_set(
    compo: &mut HandleComponent,
    graph: &mut PropertyGraph<HandleBinding>,
    field: HandleField,
    value: i32,
) -> Result<(), PropertyError> {
    field(compo).1 = value;
    sixtyfps_property_set_changed(graph, field(compo).0)
}

#[test]
fn foreign_handle_parity() {
    // The sequence of `properties_simple_test`, through handles.
    let mut graph = PropertyGraph::<HandleBinding>::new();
    let mut compo = HandleComponent {
        width: (sixtyfps_property_init(&mut graph), 0),
        height: (sixtyfps_property_init(&mut graph), 0),
        area: (sixtyfps_property_init(&mut graph), 0),
    };
    sixtyfps_property_set_binding(
        &mut graph,
        compo.area.0,
        HandleBinding(Rc::new(|c, g| Ok(h_get(c, g, h_width)? * h_get(c, g, h_height)?))),
    )
    .unwrap();
    h_set(&mut compo, &mut graph, h_width, 4).unwrap();
    h_set(&mut compo, &mut graph, h_height, 8).unwrap();
    assert_eq!(h_get(&mut compo, &mut graph, h_width), Ok(4));
    assert_eq!(h_get(&mut compo, &mut graph, h_height), Ok(8));
    assert_eq!(h_get(&mut compo, &mut graph, h_area), Ok(4 * 8));
    sixtyfps_property_set_binding(
        &mut graph,
        compo.width.0,
        HandleBinding(Rc::new(|c, g| Ok(h_get(c, g, h_height)? * 2))),
    )
    .unwrap();
    assert_eq!(h_get(&mut compo, &mut graph, h_width), Ok(8 * 2));
    assert_eq!(h_get(&mut compo, &mut graph, h_height), Ok(8));
    assert_eq!(h_get(&mut compo, &mut graph, h_area), Ok(8 * 8 * 2));

    // The same operations on properties leave the same marks in the graph.
    let mut graph2 = Graph::new();
    let mut compo2 = new_component(&mut graph2);
    compo2
        .area
        .set_binding(&mut graph2, Closure::new(|c, g| Ok(get(c, g, width)? * get(c, g, height)?)))
        .unwrap();
    compo2.width.set(&mut graph2, 4).unwrap();
    compo2.height.set(&mut graph2, 8).unwrap();
    get(&mut compo2, &mut graph2, area).unwrap();
    compo2.width.set_binding(&mut graph2, Closure::new(|c, g| Ok(get(c, g, height)? * 2))).unwrap();
    for (a, b) in [
        (compo.width.0, compo2.width.handle()),
        (compo.height.0, compo2.height.handle()),
        (compo.area.0, compo2.area.handle()),
    ] {
        assert_eq!(a, b);
        assert_eq!(graph.is_live(a), graph2.is_live(b));
        assert_eq!(graph.binding(a).is_some(), graph2.binding(b).is_some());
    }
    // In the first graph the reads have happened, in the second not yet.
    assert!(!graph.is_dirty(compo.area.0));
    assert!(graph2.is_dirty(compo2.area.handle()));
    assert_eq!(get(&mut compo2, &mut graph2, area), Ok(8 * 8 * 2));
    assert!(!graph2.is_dirty(compo2.area.handle()));
}

#[test]
fn handle_interface_reports_each_error() {
    let mut graph = PropertyGraph::<HandleBinding>::new();
    let p = sixtyfps_property_init(&mut graph);
    let q = sixtyfps_property_init(&mut graph);
    assert_ne!(p, q);
    assert_eq!(sixtyfps_property_update(&mut graph, p), Ok(UpdateStep::UpToDate));
    assert_eq!(
        sixtyfps_property_evaluated(&mut graph, p, true),
        Err(PropertyError::BorrowConflict)
    );
    sixtyfps_property_set_binding(&mut graph, p, HandleBinding(Rc::new(|_, _| Ok(1)))).unwrap();
    assert_eq!(sixtyfps_property_update(&mut graph, p), Ok(UpdateStep::Evaluate));
    assert_eq!(sixtyfps_property_update(&mut graph, p), Err(PropertyError::BindingLoopError));
    assert_eq!(sixtyfps_property_set_changed(&mut graph, p), Err(PropertyError::BorrowConflict));
    assert_eq!(sixtyfps_property_evaluated(&mut graph, p, true), Ok(()));
    assert_eq!(sixtyfps_property_update(&mut graph, p), Ok(UpdateStep::UpToDate));
    assert_eq!(sixtyfps_property_set_changed(&mut graph, p), Ok(()));
    assert!(graph.binding(p).is_none());
    assert!(sixtyfps_property_drop(&mut graph, p).unwrap().is_none());
    assert_eq!(sixtyfps_property_update(&mut graph, p), Err(PropertyError::Dropped));
    assert_eq!(sixtyfps_property_set_changed(&mut graph, p), Err(PropertyError::Dropped));
    assert_eq!(
        sixtyfps_property_set_binding(&mut graph, p, HandleBinding(Rc::new(|_, _| Ok(1)))),
        Err(PropertyError::Dropped)
    );
    assert_eq!(sixtyfps_property_update(&mut graph, q), Ok(UpdateStep::UpToDate));
}

#[test]
fn drop_hands_the_binding_back() {
    let mut graph = Graph::new();
    let compo = new_component(&mut graph);
    let binding = Closure::new(|_, _| Ok(1));
    let runs = binding.runs.clone();
    compo.area.set_binding(&mut graph, binding).unwrap();
    assert_eq!(Rc::strong_count(&runs), 2);
    let released = sixtyfps_property_drop(&mut graph, compo.area.handle()).unwrap();
    assert!(released.is_some());
    drop(released);
    // What the binding owned is released with it.
    assert_eq!(Rc::strong_count(&runs), 1);
}

#[test]
fn evaluation_context_chain() {
    let root = EvaluationContext::for_root_component("window");
    assert_eq!(root.component, "window");
    assert!(root.parent_context.is_none());
    let child = root.child_context("button");
    assert_eq!(child.component, "button");
    assert_eq!(child.parent_context.unwrap().component, "window");
    let grandchild = child.child_context("label");
    assert_eq!(grandchild.parent_context.unwrap().parent_context.unwrap().component, "window");
}

#[test]
fn slot_of_a_dropped_property_is_used_again() {
    let mut graph = Graph::new();
    let mut compo = new_component(&mut graph);
    compo.width.set(&mut graph, 2).unwrap();
    compo.area.set_binding(&mut graph, Closure::new(|c, g| Ok(get(c, g, width)? + 1))).unwrap();
    assert_eq!(get(&mut compo, &mut graph, area), Ok(3));
    let dead = compo.area.handle();
    sixtyfps_property_drop(&mut graph, dead).unwrap();
    // The new property takes the slot, under a handle of its own.
    let mut fresh = Property::new(&mut graph, 40);
    assert_ne!(fresh.handle(), dead);
    assert!(graph.is_live(fresh.handle()));
    assert!(!graph.is_live(dead));
    assert!(graph.binding(fresh.handle()).is_none());
    assert!(matches!(fresh.get(&mut graph), Ok(PropertyRead::Value(40))));
    // `width` still lists the dropped property. The change passes over it,
    // and does not touch the property that lives in its slot.
    fresh.set_binding(&mut graph, Closure::new(|_, _| Ok(41))).unwrap();
    assert!(matches!(fresh.get(&mut graph), Ok(PropertyRead::Evaluate)));
    fresh.evaluated(&mut graph, Some(41)).unwrap();
    compo.width.set(&mut graph, 3).unwrap();
    assert!(!graph.is_dirty(fresh.handle()));
    assert!(matches!(fresh.get(&mut graph), Ok(PropertyRead::Value(41))));
    // The dead handle stays dead.
    assert_eq!(get(&mut compo, &mut graph, area), Err(PropertyError::Dropped));
    assert_eq!(sixtyfps_property_update(&mut graph, dead), Err(PropertyError::Dropped));
}

#[test]
fn many_properties_come_and_go() {
    let mut graph: PropertyGraph<HandleBinding> = PropertyGraph::new();
    let keep = sixtyfps_property_init(&mut graph);
    let mut seen = vec![keep];
    for _ in 0..100 {
        let p = sixtyfps_property_init(&mut graph);
        let q = sixtyfps_property_init(&mut graph);
        assert!(!seen.contains(&p));
        assert!(!seen.contains(&q));
        assert_ne!(p, q);
        seen.push(p);
        seen.push(q);
        assert!(sixtyfps_property_drop(&mut graph, q).unwrap().is_none());
        assert!(sixtyfps_property_drop(&mut graph, p).unwrap().is_none());
        assert!(!graph.is_live(p));
        assert!(!graph.is_live(q));
    }
    assert!(graph.is_live(keep));
    for h in &seen[1..] {
        assert!(!graph.is_live(*h));
    }
}

/// A binding that decides nothing for itself.
#[derive(Clone)]
struct Meek(i32);

impl BindingNotify for Meek {}

impl Binding<i32> for Meek {}

#[test]
fn a_binding_gives_way_unless_it_says_otherwise() {
    assert!(Meek(1).allow_replace_binding_with_value(&5));
    assert!(Meek(1).allow_replace_binding_with_binding(&Meek(2)));
    let mut graph: PropertyGraph<Meek> = PropertyGraph::new();
    let mut p = Property::new(&mut graph, 0);
    p.set_binding(&mut graph, Meek(1)).unwrap();
    assert_eq!(graph.binding(p.handle()).map(|b| b.0), Some(1));
    // Another binding takes its place.
    p.set_binding(&mut graph, Meek(2)).unwrap();
    assert_eq!(graph.binding(p.handle()).map(|b| b.0), Some(2));
    assert!(graph.is_dirty(p.handle()));
    // And so does a value.
    p.set(&mut graph, 9).unwrap();
    assert!(graph.binding(p.handle()).is_none());
    assert!(matches!(p.get(&mut graph), Ok(PropertyRead::Value(9))));
}
