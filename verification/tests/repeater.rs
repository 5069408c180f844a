use sixtyfps_corelib::repeater::{
    Model, ModelNotify, ModelPeer, RepeatedComponent, Repeater, VecModel, ViewArena,
};
use std::cell::RefCell;
use std::rc::Rc;

/// A component that records what it was updated with.
#[derive(Debug)]
struct Label {
    id: u32,
    shown: RefCell<Vec<(usize, i32)>>,
}

impl RepeatedComponent for Label {
    type Data = i32;

    fn update(&self, index: usize, data: i32) {
        self.shown.borrow_mut().push((index, data));
    }
}

fn factory() -> impl Fn() -> Label {
    let next = Rc::new(RefCell::new(0u32));
    move || {
        let id = *next.borrow();
        *next.borrow_mut() += 1;
        Label { id, shown: RefCell::new(Vec::new()) }
    }
}

/// For each row of the view, whether it has a component, as its id.
fn ids(view: &Repeater<Label>) -> Vec<Option<u32>> {
    (0..view.len()).map(|i| view.component(i).map(|c| c.id)).collect()
}

fn last_shown(view: &Repeater<Label>, i: usize) -> Option<(usize, i32)> {
    view.component(i).and_then(|c| c.shown.borrow().last().copied())
}

#[test]
fn new_view_is_dirty_and_empty() {
    let view: Repeater<Label> = Repeater::default();
    assert_eq!(view.len(), 0);
    assert!(view.is_dirty());
    assert_eq!(view.offset(), 0);
    assert!(view.components_vec().is_empty());
    assert!(view.component(0).is_none());
}

#[test]
fn ensure_updated_instantiates_each_row() {
    let model = VecModel::from(vec![10, 20, 30]);
    let mut view: Repeater<Label> = Repeater::default();
    let init = factory();
    view.ensure_updated(&init, Some(&model));
    assert_eq!(view.len(), 3);
    assert!(!view.is_dirty());
    assert_eq!(ids(&view), vec![Some(0), Some(1), Some(2)]);
    assert_eq!(last_shown(&view, 0), Some((0, 10)));
    assert_eq!(last_shown(&view, 1), Some((1, 20)));
    assert_eq!(last_shown(&view, 2), Some((2, 30)));
    assert_eq!(view.components_vec().iter().map(|c| c.id).collect::<Vec<_>>(), vec![0, 1, 2]);
    // A clean view is left alone.
    view.ensure_updated(&init, Some(&model));
    assert_eq!(ids(&view), vec![Some(0), Some(1), Some(2)]);
    assert_eq!(view.component(1).unwrap().shown.borrow().len(), 1);
}

#[test]
fn view_without_model_shows_nothing() {
    let model = VecModel::from(vec![1, 2]);
    let mut view: Repeater<Label> = Repeater::default();
    let init = factory();
    view.ensure_updated(&init, Some(&model));
    assert_eq!(view.len(), 2);
    view.ensure_updated(&init, None::<&VecModel<i32>>);
    assert_eq!(view.len(), 0);
}

#[test]
fn row_changed_marks_one_row() {
    let mut views: ViewArena<Label> = ViewArena::new();
    let mut model = VecModel::from(vec![10, 20, 30]);
    let peer = views.insert(Repeater::default());
    model.attach_peer(&views, peer);
    let init = factory();
    let mut view = views.remove(peer).unwrap();
    view.ensure_updated(&init, Some(&model));
    view.row_changed(1);
    assert!(view.is_dirty());
    view.ensure_updated(&init, Some(&model));
    // The component is kept and updated again; the others are not touched.
    assert_eq!(ids(&view), vec![Some(0), Some(1), Some(2)]);
    assert_eq!(view.component(0).unwrap().shown.borrow().len(), 1);
    assert_eq!(view.component(1).unwrap().shown.borrow().len(), 2);
    assert_eq!(view.component(2).unwrap().shown.borrow().len(), 1);
    // A row that the view does not show only marks the view.
    view.row_changed(17);
    assert!(view.is_dirty());
    assert_eq!(view.len(), 3);
}

#[test]
fn rows_added_in_the_middle() {
    let init = factory();
    let mut view: Repeater<Label> = Repeater::default();
    view.ensure_updated(&init, Some(&VecModel::from(vec![10, 20, 30])));
    view.row_added(1, 2);
    assert!(view.is_dirty());
    assert_eq!(ids(&view), vec![Some(0), None, None, Some(1), Some(2)]);
    view.ensure_updated(&init, Some(&VecModel::from(vec![10, 11, 12, 20, 30])));
    assert_eq!(ids(&view), vec![Some(0), Some(3), Some(4), Some(1), Some(2)]);
    assert_eq!(last_shown(&view, 1), Some((1, 11)));
    assert_eq!(last_shown(&view, 2), Some((2, 12)));
    // The components behind were clean and were not updated again.
    assert_eq!(last_shown(&view, 3), Some((1, 20)));
}

#[test]
fn rows_added_at_the_ends_and_none() {
    let init = factory();
    let mut view: Repeater<Label> = Repeater::default();
    view.ensure_updated(&init, Some(&VecModel::from(vec![10, 20])));
    view.row_added(2, 1);
    assert_eq!(ids(&view), vec![Some(0), Some(1), None]);
    view.row_added(0, 1);
    assert_eq!(ids(&view), vec![None, Some(0), Some(1), None]);
    view.ensure_updated(&init, Some(&VecModel::from(vec![5, 10, 20, 30])));
    assert!(!view.is_dirty());
    view.row_added(1, 0);
    assert!(!view.is_dirty());
    assert_eq!(view.len(), 4);
}

#[test]
fn rows_removed_mark_what_follows() {
    let init = factory();
    let mut view: Repeater<Label> = Repeater::default();
    view.ensure_updated(&init, Some(&VecModel::from(vec![10, 20, 30, 40])));
    view.row_removed(1, 2);
    assert!(view.is_dirty());
    assert_eq!(ids(&view), vec![Some(0), Some(3)]);
    view.ensure_updated(&init, Some(&VecModel::from(vec![10, 40])));
    // The row behind moved up: its component is updated with its new index.
    assert_eq!(last_shown(&view, 1), Some((1, 40)));
    assert_eq!(view.component(0).unwrap().shown.borrow().len(), 1);
    view.row_removed(0, 0);
    assert!(!view.is_dirty());
}

#[test]
fn offset_shifts_the_rows_of_a_change() {
    let init = factory();
    let model: usize = 100;
    let mut view: Repeater<Label> = Repeater::default();
    view.ensure_updated_impl(&init, &model, 10);
    // The ten rows shown so far all lie before the new offset.
    view.set_offset(10, 3);
    assert_eq!(view.offset(), 10);
    assert_eq!(ids(&view), vec![None, None, None]);
    view.ensure_updated_impl(&init, &model, 3);
    assert_eq!(ids(&view), vec![Some(10), Some(11), Some(12)]);
    assert_eq!(last_shown(&view, 0), Some((10, 10)));
    assert_eq!(last_shown(&view, 2), Some((12, 12)));

    // Rows before the view do not concern it.
    view.row_added(2, 3);
    assert!(!view.is_dirty());
    view.row_removed(2, 8);
    assert!(!view.is_dirty());
    view.row_changed(3);
    assert!(view.is_dirty());
    assert_eq!(view.len(), 3);
    view.ensure_updated_impl(&init, &model, 3);
    assert_eq!(view.component(0).unwrap().shown.borrow().len(), 1);

    // A range that runs into the view counts from its first row.
    view.row_added(8, 4);
    assert_eq!(ids(&view), vec![None, None, Some(10), Some(11), Some(12)]);
    view.row_removed(9, 2);
    assert_eq!(ids(&view), vec![None, Some(10), Some(11), Some(12)]);
    // Row 11 is the second entry.
    view.ensure_updated_impl(&init, &model, 4);
    view.row_changed(11);
    view.ensure_updated_impl(&init, &model, 4);
    assert_eq!(view.component(1).unwrap().shown.borrow().last(), Some(&(11, 11)));
}

#[test]
fn set_offset_keeps_the_rows_that_stay() {
    let init = factory();
    let model: usize = 100;
    let mut view: Repeater<Label> = Repeater::default();
    view.ensure_updated_impl(&init, &model, 5);
    view.set_offset(5, 4);
    view.ensure_updated_impl(&init, &model, 4);
    assert_eq!(ids(&view), vec![Some(5), Some(6), Some(7), Some(8)]);
    // Scroll down by two: rows 7 and 8 stay, 9 and 10 are new.
    view.set_offset(7, 4);
    assert_eq!(view.offset(), 7);
    assert_eq!(ids(&view), vec![Some(7), Some(8), None, None]);
    // Scroll up by three: rows 4 to 6 are new, 7 stays.
    view.set_offset(4, 4);
    assert_eq!(ids(&view), vec![None, None, None, Some(7)]);
    view.set_offset(4, 2);
    assert_eq!(ids(&view), vec![None, None]);
    view.clear();
    assert_eq!(view.len(), 0);
    assert_eq!(view.offset(), 4);
}

#[test]
fn number_and_boolean_models() {
    let n: usize = 3;
    assert_eq!(n.row_count(), 3);
    assert_eq!(n.row_data(0), 0);
    assert_eq!(n.row_data(2), 2);
    assert_eq!(true.row_count(), 1);
    assert_eq!(false.row_count(), 0);
    assert_eq!(true.row_data(0), ());
    let views: ViewArena<Label> = ViewArena::new();
    let mut m: usize = 7;
    let mut arena2: ViewArena<Label> = ViewArena::new();
    let peer = arena2.insert(Repeater::default());
    m.attach_peer(&views, peer);
    assert_eq!(m, 7);
    let mut b = true;
    b.attach_peer(&arena2, peer);
    assert!(b);
}

#[test]
fn vec_model_from_slice_and_from_vec() {
    let model = VecModel::from_slice(&[String::from("a"), String::from("b")]);
    assert_eq!(model.row_count(), 2);
    assert_eq!(model.row_data(0), "a");
    assert_eq!(model.row_data(1), "b");
    let empty: VecModel<i32> = VecModel::from_slice(&[]);
    assert_eq!(empty.row_count(), 0);
    let model = VecModel::from(vec![1, 2, 3]);
    assert_eq!(model.row_count(), 3);
    assert_eq!(model.row_data(2), 3);
}

#[test]
fn model_pushes_its_changes_to_attached_views() {
    let mut views: ViewArena<Label> = ViewArena::new();
    let mut model = VecModel::from(vec![10, 20]);
    let a = views.insert(Repeater::default());
    let b = views.insert(Repeater::default());
    let unattached = views.insert(Repeater::default());
    assert_ne!(a, b);
    model.attach_peer(&views, a);
    model.attach_peer(&views, b);
    // Attaching twice does not make a view hear twice.
    model.attach_peer(&views, a);
    let init = factory();
    for peer in [a, b, unattached] {
        let mut view = views.remove(peer).unwrap();
        view.ensure_updated(&init, Some(&model));
        assert_eq!(view.len(), 2);
        // A view that was taken out and put back has a new handle.
        let _ = views.insert(view);
    }
    // The old handles are dead: the model passes over them.
    model.push(&mut views, 30);
    assert_eq!(model.row_count(), 3);
    assert!(views.get(a).is_none());
    assert!(!views.is_live(b));
}

#[test]
fn attached_views_follow_push_set_and_remove() {
    let mut views: ViewArena<Label> = ViewArena::new();
    let mut model = VecModel::from(vec![10, 20]);
    let init = factory();
    let mut first = Repeater::default();
    first.ensure_updated(&init, Some(&model));
    let mut second = Repeater::default();
    second.ensure_updated(&init, Some(&model));
    let mut third = Repeater::default();
    third.ensure_updated(&init, Some(&model));
    let a = views.insert(first);
    let b = views.insert(second);
    let c = views.insert(third);
    model.attach_peer(&views, a);
    model.attach_peer(&views, a);
    model.attach_peer(&views, b);

    model.push(&mut views, 30);
    assert_eq!(views.get(a).unwrap().len(), 3);
    assert_eq!(views.get(b).unwrap().len(), 3);
    assert!(views.get(a).unwrap().is_dirty());
    assert_eq!(ids(views.get(a).unwrap()), vec![Some(0), Some(1), None]);
    // The view that is not attached hears nothing.
    assert_eq!(views.get(c).unwrap().len(), 2);
    assert!(!views.get(c).unwrap().is_dirty());

    // A view that is gone is passed over.
    assert!(views.remove(b).is_some());
    assert!(views.remove(b).is_none());
    model.remove(&mut views, 0);
    assert_eq!(model.row_count(), 2);
    assert_eq!(model.row_data(0), 20);
    assert_eq!(ids(views.get(a).unwrap()), vec![Some(1), None]);
    assert!(views.get(b).is_none());

    let mut view = views.remove(a).unwrap();
    view.ensure_updated(&init, Some(&model));
    assert_eq!(last_shown(&view, 0), Some((0, 20)));
    assert_eq!(last_shown(&view, 1), Some((1, 30)));
}

#[test]
fn set_row_data_tells_the_views() {
    let mut views: ViewArena<Label> = ViewArena::new();
    let mut model = VecModel::from(vec![10, 20]);
    let init = factory();
    let mut view = Repeater::default();
    view.ensure_updated(&init, Some(&model));
    let a = views.insert(view);
    model.attach_peer(&views, a);
    model.set_row_data(&mut views, 1, 21);
    assert_eq!(model.row_data(1), 21);
    assert!(views.get(a).unwrap().is_dirty());
    // A model that cannot change does nothing.
    let mut n: usize = 5;
    n.set_row_data(&mut views, 1, 99);
    assert_eq!(n.row_data(1), 1);
}

#[test]
fn model_set_row_data_updates_the_component_at_once() {
    let mut views: ViewArena<Label> = ViewArena::new();
    let mut model = VecModel::from(vec![10, 20]);
    let init = factory();
    let mut view = Repeater::default();
    view.ensure_updated(&init, Some(&model));
    let a = views.insert(view);
    model.attach_peer(&views, a);
    views.model_set_row_data(a, &mut model, 0, 11);
    assert_eq!(model.row_data(0), 11);
    let view = views.get(a).unwrap();
    assert_eq!(last_shown(view, 0), Some((0, 11)));
    assert_eq!(view.component(1).unwrap().shown.borrow().len(), 1);
    // The view as a whole still counts as dirty until it is next updated.
    assert!(view.is_dirty());
    // A handle without a view changes the model only.
    let dead = {
        let mut other: ViewArena<Label> = ViewArena::new();
        let _ = other.insert(Repeater::default());
        let _ = other.insert(Repeater::default());
        other.insert(Repeater::default())
    };
    views.model_set_row_data(dead, &mut model, 1, 22);
    assert_eq!(model.row_data(1), 22);
}

#[test]
fn notify_can_be_used_on_its_own() {
    let mut views: ViewArena<Label> = ViewArena::new();
    let mut notify = ModelNotify::default();
    let init = factory();
    let mut view = Repeater::default();
    view.ensure_updated(&init, Some(&3usize));
    let a: ModelPeer = views.insert(view);
    notify.attach(&views, a);
    notify.row_changed(&mut views, 2);
    assert!(views.get(a).unwrap().is_dirty());
    notify.row_added(&mut views, 3, 2);
    assert_eq!(views.get(a).unwrap().len(), 5);
    notify.row_removed(&mut views, 0, 4);
    assert_eq!(ids(views.get(a).unwrap()), vec![None]);
}
