//! Models, and the views that repeat a component for each row of a model.
//!
//! A model tells its views of every change, row by row. A view is registered
//! with a model through a handle that does not keep it alive: a view that is
//! gone is passed over.

pub mod model;
pub mod notify;

pub use model::{Model, VecModel};
pub use notify::{ModelChange, ModelNotify, ModelPeer, ViewArena};

use vstd::prelude::*;

verus! {

/// Whether a repeated component shows the data of its row.
#[derive(Debug, Clone, Copy, PartialEq, Eq, Structural)]
pub enum RepeatedComponentState {
    /// The component is up to date.
    Clean,
    /// The model data is stale and needs to be refreshed.
    Dirty,
}

/// Component that can be instantiated by a repeater.
pub trait RepeatedComponent {
    /// The data corresponding to the model.
    type Data;

    /// Update this component at the given index and the given data.
    fn update(&self, index: usize, data: Self::Data);
}

/// A view as a mathematical value.
#[verifier::ext_equal]
pub struct RepeaterModel<C> {
    /// One entry for each row that the view shows, with the component that
    /// was instantiated for it, if one was.
    pub components: Seq<(RepeatedComponentState, Option<C>)>,
    /// Some entry may be dirty or missing.
    pub is_dirty: bool,
    /// The row of the model that the first entry shows.
    pub offset: usize,
}

impl<C> RepeaterModel<C> {
    /// A view that shows nothing yet.
    pub open spec fn empty() -> Self {
        RepeaterModel { components: Seq::empty(), is_dirty: true, offset: 0 }
    }

    /// What every view satisfies: a component that counts as clean exists.
    pub open spec fn wf(self) -> bool {
        forall|i: int|
            0 <= i < self.components.len() && (#[trigger] self.components[i]).0
                == RepeatedComponentState::Clean ==> self.components[i].1 is Some
    }

    /// The entries cut or filled up to `count`; an entry that is added is
    /// dirty and has no component.
    pub open spec fn resized(
        components: Seq<(RepeatedComponentState, Option<C>)>,
        count: usize,
    ) -> Seq<(RepeatedComponentState, Option<C>)> {
        Seq::new(
            count as nat,
            |i: int|
                if i < components.len() {
                    components[i]
                } else {
                    (RepeatedComponentState::Dirty, None::<C>)
                },
        )
    }

    /// The view after it was moved to show `count` rows from row `offset`
    /// on. The entries of rows that it showed before stay with their rows;
    /// all others are dirty and have no component.
    pub open spec fn set_offset(self, offset: usize, count: usize) -> Self
        recommends
            offset - self.offset <= self.components.len(),
    {
        let shifted = if offset >= self.offset {
            // Rows are cut off at the front.
            self.components.subrange(offset - self.offset, self.components.len() as int)
        } else {
            // Rows are added at the front.
            Seq::new(
                (self.offset - offset) as nat,
                |i: int| (RepeatedComponentState::Dirty, None::<C>),
            ) + self.components
        };
        RepeaterModel { components: Self::resized(shifted, count), offset, ..self }
    }

    /// The view after the component of `row` was brought up to date, if there
    /// is one.
    pub open spec fn refreshed(self, row: usize) -> Self {
        if row < self.components.len() && self.components[row as int].1 is Some {
            RepeaterModel {
                components: self.components.update(
                    row as int,
                    (RepeatedComponentState::Clean, self.components[row as int].1),
                ),
                ..self
            }
        } else {
            self
        }
    }

    /// Whether this is `before` brought up to date with a model of `count`
    /// rows: it shows `count` rows, each with a clean component, which is the
    /// one that `before` had for that entry, or else one that was `made` for
    /// it.
    pub open spec fn is_update_of(self, before: Self, count: usize, made: spec_fn(C) -> bool) -> bool {
        &&& self.components.len() == count
        &&& !self.is_dirty
        &&& self.offset == before.offset
        &&& forall|i: int|
            0 <= i < count ==> {
                let entry = #[trigger] self.components[i];
                &&& entry.0 == RepeatedComponentState::Clean
                &&& entry.1 is Some
                &&& if i < before.components.len() && before.components[i].1 is Some {
                    entry.1 == before.components[i].1
                } else {
                    made(entry.1->0)
                }
            }
    }

    /// The part of the rows `index .. index + count` that concerns the view,
    /// as a position among its entries and a length. Rows before the first
    /// entry do not count, unless the range runs up to it; an empty range
    /// does not count.
    pub open spec fn window(self, index: usize, count: usize) -> Option<(int, int)> {
        if index < self.offset {
            if index + count < self.offset || index + count == self.offset {
                None
            } else {
                Some((0, index + count - self.offset))
            }
        } else if count == 0 {
            None
        } else {
            Some((index - self.offset, count as int))
        }
    }

    /// The entries with every entry from `from` on marked dirty.
    pub open spec fn dirty_from(
        components: Seq<(RepeatedComponentState, Option<C>)>,
        from: int,
    ) -> Seq<(RepeatedComponentState, Option<C>)> {
        Seq::new(
            components.len(),
            |i: int|
                if i >= from {
                    (RepeatedComponentState::Dirty, components[i].1)
                } else {
                    components[i]
                },
        )
    }

    /// The view after it was told that `row` has changed.
    pub open spec fn row_changed(self, row: usize) -> Self {
        let i = row.wrapping_sub(self.offset) as int;
        RepeaterModel {
            is_dirty: true,
            components: if i < self.components.len() {
                self.components.update(i, (RepeatedComponentState::Dirty, self.components[i].1))
            } else {
                self.components
            },
            ..self
        }
    }

    /// Whether the view can follow the insertion of `count` rows at `index`:
    /// the new rows are to touch the rows it shows.
    pub open spec fn accepts_added(self, index: usize, count: usize) -> bool {
        &&& index + count <= usize::MAX
        &&& self.window(index, count) matches Some((at, _)) ==> at <= self.components.len()
    }

    /// The view after it was told that `count` rows were added at `index`.
    pub open spec fn row_added(self, index: usize, count: usize) -> Self {
        match self.window(index, count) {
            Some((at, n)) => RepeaterModel {
                is_dirty: true,
                components: self.components.subrange(0, at) + Seq::new(
                    n as nat,
                    |i: int| (RepeatedComponentState::Dirty, None::<C>),
                ) + self.components.subrange(at, self.components.len() as int),
                ..self
            },
            None => self,
        }
    }

    /// Whether the view can follow the removal of `count` rows at `index`:
    /// it is to show all of them that lie behind its first entry.
    pub open spec fn accepts_removed(self, index: usize, count: usize) -> bool {
        &&& index + count <= usize::MAX
        &&& self.window(index, count) matches Some((at, n)) ==> at + n <= self.components.len()
    }

    /// The view after it was told that `count` rows were removed at `index`.
    /// The entries behind them now show other rows, so they are dirty.
    pub open spec fn row_removed(self, index: usize, count: usize) -> Self {
        match self.window(index, count) {
            Some((at, n)) => RepeaterModel {
                is_dirty: true,
                components: Self::dirty_from(
                    self.components.subrange(0, at) + self.components.subrange(
                        at + n,
                        self.components.len() as int,
                    ),
                    at,
                ),
                ..self
            },
            None => self,
        }
    }
}

/// A view stays well-formed whatever it is told by its model, and wherever it
/// is moved.
pub proof fn law_view_stays_well_formed<C>(
    view: RepeaterModel<C>,
    row: usize,
    index: usize,
    count: usize,
)
    requires
        view.wf(),
    ensures
        RepeaterModel::<C>::empty().wf(),
        view.row_changed(row).wf(),
        view.accepts_added(index, count) ==> view.row_added(index, count).wf(),
        view.accepts_removed(index, count) ==> view.row_removed(index, count).wf(),
        index - view.offset <= view.components.len() ==> view.set_offset(index, count).wf(),
        view.refreshed(row).wf(),
{
    if view.accepts_added(index, count) {
        let after = view.row_added(index, count);
        match view.window(index, count) {
            Some((at, n)) => {
                assert forall|i: int|
                    0 <= i < after.components.len() && (#[trigger] after.components[i]).0
                        == RepeatedComponentState::Clean implies after.components[i].1 is Some by {
                    if i < at {
                        assert(after.components[i] == view.components[i]);
                    } else if i >= at + n {
                        assert(after.components[i] == view.components[i - n]);
                    }
                }
            },
            None => {},
        }
    }
    if index - view.offset <= view.components.len() {
        let after = view.set_offset(index, count);
        assert forall|i: int|
            0 <= i < after.components.len() && (#[trigger] after.components[i]).0
                == RepeatedComponentState::Clean implies after.components[i].1 is Some by {
            if index >= view.offset {
                if i < view.components.len() - (index - view.offset) {
                    assert(after.components[i] == view.components[i + (index - view.offset)]);
                }
            } else {
                if view.offset - index <= i < view.offset - index + view.components.len() {
                    assert(after.components[i] == view.components[i - (view.offset - index)]);
                }
            }
        }
    }
}

/// The components among the entries, in order.
pub open spec fn instantiated<C>(components: Seq<(RepeatedComponentState, Option<C>)>) -> Seq<C>
    decreases components.len(),
{
    if components.len() == 0 {
        Seq::empty()
    } else {
        match components.last().1 {
            Some(c) => instantiated(components.drop_last()).push(c),
            None => instantiated(components.drop_last()),
        }
    }
}

/// A view of a model: it instantiates a component for each row that it
/// shows, and keeps track of which of them are stale.
pub struct Repeater<C> {
    components: Vec<(RepeatedComponentState, Option<C>)>,
    is_dirty: bool,
    /// The model row of the first component in the `components` vector.
    /// Only a list view has another than 0.
    offset: usize,
}

impl<C> View for Repeater<C> {
    type V = RepeaterModel<C>;

    closed spec fn view(&self) -> RepeaterModel<C> {
        RepeaterModel {
            components: self.components@,
            is_dirty: self.is_dirty,
            offset: self.offset,
        }
    }
}

impl<C> Default for Repeater<C> {
    fn default() -> (inner: Self)
        ensures
            inner@ == RepeaterModel::<C>::empty(),
    {
        Repeater { components: Vec::new(), is_dirty: true, offset: 0 }
    }
}

impl<C> Repeater<C> {
    /// The part of the rows `index .. index + count` that concerns the view.
    fn window(&self, index: usize, count: usize) -> (window: Option<(usize, usize)>)
        requires
            index + count <= usize::MAX,
        ensures
            match window {
                Some((at, n)) => self@.window(index, count) == Some((at as int, n as int)),
                None => self@.window(index, count) is None,
            },
    {
        if index < self.offset {
            if index + count <= self.offset {
                None
            } else {
                Some((0, count - (self.offset - index)))
            }
        } else if count == 0 {
            None
        } else {
            Some((index - self.offset, count))
        }
    }

    /// Takes note that a specific row was changed.
    pub fn row_changed(&mut self, row: usize)
        ensures
            final(self)@ == old(self)@.row_changed(row),
    {
        self.is_dirty = true;
        let i = row.wrapping_sub(self.offset);
        if i < self.components.len() {
            self.components[i].0 = RepeatedComponentState::Dirty;
        }
    }

    /// Takes note that rows were added.
    pub fn row_added(&mut self, index: usize, count: usize)
        requires
            old(self)@.accepts_added(index, count),
        ensures
            final(self)@ == old(self)@.row_added(index, count),
    {
        let (at, n) = match self.window(index, count) {
            Some(window) => window,
            None => {
                return ;
            },
        };
        self.is_dirty = true;
        let mut tail = self.components.split_off(at);
        let ghost head = self.components@;
        let mut added: usize = 0;
        while added < n
            invariant
                added <= n,
                self.components@ == head + Seq::new(
                    added as nat,
                    |i: int| (RepeatedComponentState::Dirty, None::<C>),
                ),
                self.is_dirty,
                self.offset == old(self).offset,
            decreases n - added,
        {
            self.components.push((RepeatedComponentState::Dirty, None));
            added += 1;
        }
        self.components.append(&mut tail);
    }

    /// Takes note that rows were removed.
    pub fn row_removed(&mut self, index: usize, count: usize)
        requires
            old(self)@.accepts_removed(index, count),
        ensures
            final(self)@ == old(self)@.row_removed(index, count),
    {
        let (at, n) = match self.window(index, count) {
            Some(window) => window,
            None => {
                return ;
            },
        };
        self.is_dirty = true;
        let mut tail = self.components.split_off(at);
        let mut rest = tail.split_off(n);
        self.components.append(&mut rest);
        let ghost kept = self.components@;
        let mut i: usize = at;
        while i < self.components.len()
            invariant
                at <= i <= self.components.len(),
                self.components.len() == kept.len(),
                forall|k: int|
                    0 <= k < kept.len() ==> #[trigger] self.components@[k] == (if at <= k < i {
                        (RepeatedComponentState::Dirty, kept[k].1)
                    } else {
                        kept[k]
                    }),
                self.is_dirty,
                self.offset == old(self).offset,
            decreases self.components.len() - i,
        {
            // Because all the indexes are dirty
            self.components[i].0 = RepeatedComponentState::Dirty;
            i += 1;
        }
    }

    /// Cuts the entries or fills them up to `count`.
    fn resize(&mut self, count: usize)
        ensures
            final(self)@ == (RepeaterModel {
                components: RepeaterModel::resized(old(self)@.components, count),
                ..old(self)@
            }),
    {
        self.components.truncate(count);
        while self.components.len() < count
            invariant
                self.components.len() <= count,
                old(self)@.components.len() <= self.components.len() || count
                    <= self.components.len(),
                self.is_dirty == old(self).is_dirty,
                self.offset == old(self).offset,
                self.components@ == RepeaterModel::resized(
                    old(self)@.components,
                    self.components.len(),
                ),
            decreases count - self.components.len(),
        {
            self.components.push((RepeatedComponentState::Dirty, None));
            assert(self.components@ =~= RepeaterModel::resized(
                old(self)@.components,
                self.components.len(),
            ));
        }
    }

    /// Moves the view to the `count` rows from row `offset` on: removes the
    /// entries before the offset, or adds entries up to the old offset.
    pub fn set_offset(&mut self, offset: usize, count: usize)
        requires
            offset - old(self)@.offset <= old(self)@.components.len(),
        ensures
            final(self)@ == old(self)@.set_offset(offset, count),
    {
        let old_offset = self.offset;
        if offset >= old_offset {
            let kept = self.components.split_off(offset - old_offset);
            self.components = kept;
        } else {
            let mut shown = Vec::new();
            std::mem::swap(&mut self.components, &mut shown);
            let mut added: usize = 0;
            while added < old_offset - offset
                invariant
                    added <= old_offset - offset,
                    self.components@ == Seq::new(
                        added as nat,
                        |i: int| (RepeatedComponentState::Dirty, None::<C>),
                    ),
                    self.is_dirty == old(self).is_dirty,
                    self.offset == old(self).offset,
                    shown@ == old(self)@.components,
                decreases old_offset - offset - added,
            {
                self.components.push((RepeatedComponentState::Dirty, None));
                added += 1;
            }
            self.components.append(&mut shown);
        }
        self.resize(count);
        self.offset = offset;
    }

    /// Forgets all components.
    pub fn clear(&mut self)
        ensures
            final(self)@ == (RepeaterModel { components: Seq::empty(), ..old(self)@ }),
    {
        self.components.clear();
    }

    /// The component that was instantiated for the entry at `index`, if there
    /// is one.
    pub fn component(&self, index: usize) -> (component: Option<&C>)
        ensures
            component == (if index < self@.components.len() {
                match self@.components[index as int].1 {
                    Some(c) => Some(&c),
                    None => None,
                }
            } else {
                None
            }),
    {
        if index < self.components.len() {
            self.components[index].1.as_ref()
        } else {
            None
        }
    }

    /// A vector containing all components, in the order of their rows.
    pub fn components_vec(&self) -> (all: Vec<&C>)
        ensures
            all@.map_values(|c: &C| *c) == instantiated(self@.components),
    {
        let mut all: Vec<&C> = Vec::new();
        let mut i: usize = 0;
        assert(self.components@.subrange(0, 0) =~= Seq::empty());
        assert(all@.map_values(|c: &C| *c) =~= Seq::empty());
        while i < self.components.len()
            invariant
                i <= self.components.len(),
                all@.map_values(|c: &C| *c) == instantiated(
                    self.components@.subrange(0, i as int),
                ),
            decreases self.components.len() - i,
        {
            let ghost before = all@;
            let ghost prefix = self.components@.subrange(0, i + 1);
            assert(prefix.drop_last() =~= self.components@.subrange(0, i as int));
            assert(prefix.last() == self.components@[i as int]);
            match &self.components[i].1 {
                Some(c) => {
                    all.push(c);
                    assert(all@.map_values(|c: &C| *c) =~= before.map_values(|c: &C| *c).push(*c));
                },
                None => {},
            }
            i += 1;
        }
        assert(self.components@.subrange(0, self.components.len() as int) =~= self.components@);
        all
    }

    /// The number of rows that the view shows.
    pub fn len(&self) -> (len: usize)
        ensures
            len == self@.components.len(),
    {
        self.components.len()
    }

    /// Whether some component may be stale or missing.
    pub fn is_dirty(&self) -> (dirty: bool)
        ensures
            dirty == self@.is_dirty,
    {
        self.is_dirty
    }

    /// The model row of the first component.
    pub fn offset(&self) -> (offset: usize)
        ensures
            offset == self@.offset,
    {
        self.offset
    }
}

impl<C: RepeatedComponent> Repeater<C> {
    /// Brings the view up to date with the first `count` rows that it shows
    /// of `model`: each entry that is dirty gets a component from `init`,
    /// unless it has one, and the component is updated with the data of its
    /// row.
    pub fn ensure_updated_impl<M: Model<Data = C::Data>, F: Fn() -> C>(
        &mut self,
        init: &F,
        model: &M,
        count: usize,
    )
        requires
            old(self)@.wf(),
            init.requires(()),
            model.wf(),
            old(self)@.offset + count <= model.rows() <= usize::MAX,
        ensures
            final(self)@.wf(),
            final(self)@.is_update_of(old(self)@, count, |c: C| init.ensures((), c)),
    {
        self.resize(count);
        let offset = self.offset;
        let ghost resized = self@.components;
        let mut i: usize = 0;
        while i < self.components.len()
            invariant
                i <= self.components.len() == count,
                self.offset == offset == old(self)@.offset,
                resized == RepeaterModel::resized(old(self)@.components, count),
                old(self)@.wf(),
                init.requires(()),
                model.wf(),
                offset + count <= model.rows() <= usize::MAX,
                forall|k: int| i <= k < count ==> self.components@[k] == resized[k],
                forall|k: int|
                    0 <= k < i ==> {
                        let entry = #[trigger] self.components@[k];
                        &&& entry.0 == RepeatedComponentState::Clean
                        &&& entry.1 is Some
                        &&& if resized[k].1 is Some {
                            entry.1 == resized[k].1
                        } else {
                            init.ensures((), entry.1->0)
                        }
                    },
            decreases count - i,
        {
            let dirty = match self.components[i].0 {
                RepeatedComponentState::Dirty => true,
                RepeatedComponentState::Clean => false,
            };
            if dirty {
                if self.components[i].1.is_none() {
                    let component = init();
                    self.components[i].1 = Some(component);
                }
                let data = model.row_data(i + offset);
                match &self.components[i].1 {
                    Some(component) => component.update(i + offset, data),
                    None => {},
                }
                self.components[i].0 = RepeatedComponentState::Clean;
            } else {
                assert(old(self)@.components[i as int] == resized[i as int]);
            }
            i += 1;
        }
        self.is_dirty = false;
    }

    /// Call this function to make sure that the view is up to date with
    /// `model`. The `init` function is the function to create a component. A
    /// view without a model shows nothing.
    pub fn ensure_updated<M: Model<Data = C::Data>, F: Fn() -> C>(
        &mut self,
        init: &F,
        model: Option<&M>,
    )
        requires
            old(self)@.wf(),
            init.requires(()),
            model matches Some(m) ==> m.wf() && m.rows() <= usize::MAX && old(self)@.offset == 0,
        ensures
            final(self)@.wf(),
            match model {
                Some(m) => if old(self)@.is_dirty {
                    final(self)@.is_update_of(
                        old(self)@,
                        m.rows() as usize,
                        |c: C| init.ensures((), c),
                    )
                } else {
                    final(self)@ == old(self)@
                },
                None => final(self)@ == (RepeaterModel {
                    components: Seq::empty(),
                    ..old(self)@
                }),
            },
    {
        match model {
            Some(model) => {
                if self.is_dirty {
                    let count = model.row_count();
                    self.ensure_updated_impl(init, model, count)
                }
            },
            None => {
                self.components.clear();
            },
        }
    }

    /// Brings the component of `row` up to date after the data of the row
    /// was set in the model, unless the component is clean or missing.
    pub fn refresh_row<M: Model<Data = C::Data>>(&mut self, model: &M, row: usize)
        requires
            model.wf(),
            row < model.rows(),
        ensures
            final(self)@ == old(self)@.refreshed(row),
    {
        if row < self.components.len() {
            let dirty = match self.components[row].0 {
                RepeatedComponentState::Dirty => true,
                RepeatedComponentState::Clean => false,
            };
            match &self.components[row].1 {
                Some(component) => {
                    if dirty {
                        component.update(row, model.row_data(row));
                    }
                    self.components[row].0 = RepeatedComponentState::Clean;
                },
                None => {},
            }
        }
    }
}

} // verus!
