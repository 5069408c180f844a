//! The views of a thread of control, and how a model tells them of its
//! changes.

use super::model::Model;
use super::{RepeatedComponent, Repeater, RepeaterModel};
use vstd::prelude::*;

verus! {

/// A handle to a view that listens to the changes of a model. It does not
/// keep the view alive.
#[derive(Debug, Clone, Copy, PartialEq, Eq, Structural)]
pub struct ModelPeer {
    inner: usize,
}

/// The views of one thread of control.
pub struct ViewArena<C> {
    /// A view that was removed leaves its place empty, and the place is not
    /// used again.
    views: Vec<Option<Repeater<C>>>,
}

impl<C> View for ViewArena<C> {
    type V = Map<ModelPeer, RepeaterModel<C>>;

    closed spec fn view(&self) -> Map<ModelPeer, RepeaterModel<C>> {
        Map::new(
            |peer: ModelPeer| peer.inner < self.views.len() && self.views[peer.inner as int] is Some,
            |peer: ModelPeer| self.views[peer.inner as int]->0@,
        )
    }
}

impl<C> ViewArena<C> {
    /// The handles that were handed out, whether their views are alive or
    /// not.
    pub closed spec fn issued(&self) -> Set<ModelPeer> {
        Set::new(|peer: ModelPeer| peer.inner < self.views.len())
    }

    /// An arena without views.
    pub fn new() -> (arena: Self)
        ensures
            arena@ == Map::<ModelPeer, RepeaterModel<C>>::empty(),
            arena.issued() == Set::<ModelPeer>::empty(),
    {
        let arena = ViewArena { views: Vec::new() };
        assert(arena@ =~= Map::<ModelPeer, RepeaterModel<C>>::empty());
        assert(arena.issued() =~= Set::<ModelPeer>::empty());
        arena
    }

    /// Adds a view, under a handle that was never used.
    pub fn insert(&mut self, view: Repeater<C>) -> (peer: ModelPeer)
        ensures
            !old(self).issued().contains(peer),
            final(self).issued() == old(self).issued().insert(peer),
            final(self)@ == old(self)@.insert(peer, view@),
    {
        let peer = ModelPeer { inner: self.views.len() };
        self.views.push(Some(view));
        assert(self@ =~= old(self)@.insert(peer, view@));
        assert(self.issued() =~= old(self).issued().insert(peer));
        peer
    }

    /// Removes the view of `peer`, if it is alive, and hands it back. The
    /// models it was attached to pass over it from now on.
    pub fn remove(&mut self, peer: ModelPeer) -> (view: Option<Repeater<C>>)
        ensures
            final(self).issued() == old(self).issued(),
            final(self)@ == old(self)@.remove(peer),
            match view {
                Some(v) => old(self)@.contains_key(peer) && v@ == old(self)@[peer],
                None => !old(self)@.contains_key(peer),
            },
    {
        if peer.inner < self.views.len() {
            let view = self.views[peer.inner].take();
            assert(self@ =~= old(self)@.remove(peer));
            assert(self.issued() =~= old(self).issued());
            view
        } else {
            assert(self@ =~= old(self)@.remove(peer));
            None
        }
    }

    /// Whether the view of `peer` is alive.
    pub fn is_live(&self, peer: ModelPeer) -> (live: bool)
        ensures
            live == self@.contains_key(peer),
    {
        peer.inner < self.views.len() && self.views[peer.inner].is_some()
    }

    /// The view of `peer`, if it is alive.
    pub fn get(&self, peer: ModelPeer) -> (view: Option<&Repeater<C>>)
        ensures
            match view {
                Some(v) => self@.contains_key(peer) && v@ == self@[peer],
                None => !self@.contains_key(peer),
            },
    {
        if peer.inner < self.views.len() {
            self.views[peer.inner].as_ref()
        } else {
            None
        }
    }
}

impl<C: RepeatedComponent> ViewArena<C> {
    /// Sets the data of `row` directly in the model, and brings the component
    /// that the view of `peer` has for the row up to date at once.
    pub fn model_set_row_data<M: Model<Data = C::Data>>(
        &mut self,
        peer: ModelPeer,
        model: &mut M,
        row: usize,
        data: C::Data,
    )
        requires
            old(model).wf(),
            row < old(model).rows(),
        ensures
            final(model).wf(),
            final(model).rows() == old(model).rows(),
            final(model).peers() == old(model).peers(),
            final(self).issued() == old(self).issued(),
            ({
                // Whether the model has changed the row is for the model to
                // say.
                let told = (ModelChange::RowChanged { row }).tell(old(model).peers(), old(self)@);
                ||| final(self)@ == Self::refreshed_at(old(self)@, peer, row)
                ||| final(self)@ == Self::refreshed_at(told, peer, row)
            }),
    {
        model.set_row_data(self, row, data);
        let ghost told = self@;
        if peer.inner < self.views.len() {
            match self.views[peer.inner].take() {
                Some(mut view) => {
                    view.refresh_row(model, row);
                    self.views[peer.inner] = Some(view);
                },
                None => {},
            }
        }
        assert(self.issued() =~= old(self).issued());
        assert(self@ =~= Self::refreshed_at(told, peer, row));
    }

    /// The views with the component that the view of `peer` has for `row`
    /// brought up to date.
    pub open spec fn refreshed_at(
        views: Map<ModelPeer, RepeaterModel<C>>,
        peer: ModelPeer,
        row: usize,
    ) -> Map<ModelPeer, RepeaterModel<C>> {
        if views.contains_key(peer) {
            views.insert(peer, views[peer].refreshed(row))
        } else {
            views
        }
    }
}

/// What a model tells its views.
pub enum ModelChange {
    /// A specific row was changed.
    RowChanged { row: usize },
    /// Rows were added.
    RowAdded { index: usize, count: usize },
    /// Rows were removed.
    RowRemoved { index: usize, count: usize },
}

impl ModelChange {
    /// Whether `view` can follow the change.
    pub open spec fn accepted_by<C>(self, view: RepeaterModel<C>) -> bool {
        match self {
            ModelChange::RowChanged { .. } => true,
            ModelChange::RowAdded { index, count } => view.accepts_added(index, count),
            ModelChange::RowRemoved { index, count } => view.accepts_removed(index, count),
        }
    }

    /// `view` after it was told of the change.
    pub open spec fn apply<C>(self, view: RepeaterModel<C>) -> RepeaterModel<C> {
        match self {
            ModelChange::RowChanged { row } => view.row_changed(row),
            ModelChange::RowAdded { index, count } => view.row_added(index, count),
            ModelChange::RowRemoved { index, count } => view.row_removed(index, count),
        }
    }

    /// The views after those among `peers` were told of the change.
    pub open spec fn tell<C>(
        self,
        peers: Set<ModelPeer>,
        views: Map<ModelPeer, RepeaterModel<C>>,
    ) -> Map<ModelPeer, RepeaterModel<C>> {
        Map::new(
            |peer: ModelPeer| views.contains_key(peer),
            |peer: ModelPeer|
                if peers.contains(peer) {
                    self.apply(views[peer])
                } else {
                    views[peer]
                },
        )
    }

    /// Whether all of `peers` that are alive can follow the change.
    pub open spec fn accepted_by_all<C>(
        self,
        peers: Set<ModelPeer>,
        views: Map<ModelPeer, RepeaterModel<C>>,
    ) -> bool {
        forall|peer: ModelPeer|
            peers.contains(peer) && #[trigger] views.contains_key(peer) ==> self.accepted_by(
                views[peer],
            )
    }
}

/// Dispatches the notifications of a model to its views. A model keeps one
/// and forwards to it.
pub struct ModelNotify {
    /// The views that were attached, each once.
    inner: Vec<ModelPeer>,
}

impl View for ModelNotify {
    type V = Set<ModelPeer>;

    closed spec fn view(&self) -> Set<ModelPeer> {
        self.inner@.to_set()
    }
}

impl Default for ModelNotify {
    fn default() -> (notify: Self)
        ensures
            notify@ == Set::<ModelPeer>::empty(),
            notify.wf(),
    {
        let notify = ModelNotify { inner: Vec::new() };
        assert(notify@ =~= Set::<ModelPeer>::empty());
        notify
    }
}

impl ModelNotify {
    /// No view is attached twice: none is told twice of one change.
    pub closed spec fn wf(&self) -> bool {
        self.inner@.no_duplicates()
    }

    /// Whether `peer` is attached.
    fn is_attached(&self, peer: ModelPeer) -> (attached: bool)
        ensures
            attached == self@.contains(peer),
    {
        let mut i: usize = 0;
        while i < self.inner.len()
            invariant
                i <= self.inner.len(),
                forall|k: int| 0 <= k < i ==> self.inner@[k] != peer,
            decreases self.inner.len() - i,
        {
            if self.inner[i] == peer {
                return true;
            }
            i += 1;
        }
        false
    }

    /// Tells every attached view that is alive of `change`.
    fn notify<C>(&self, views: &mut ViewArena<C>, change: ModelChange)
        requires
            self.wf(),
            change.accepted_by_all(self@, old(views)@),
        ensures
            final(views)@ == change.tell(self@, old(views)@),
            final(views).issued() == old(views).issued(),
    {
        let ghost before = views@;
        let mut i: usize = 0;
        while i < self.inner.len()
            invariant
                i <= self.inner.len(),
                self.wf(),
                before == old(views)@,
                change.accepted_by_all(self@, before),
                views.views.len() == old(views).views.len(),
                views@ == change.tell(self.inner@.subrange(0, i as int).to_set(), before),
            decreases self.inner.len() - i,
        {
            let peer = self.inner[i];
            let ghost told = self.inner@.subrange(0, i as int);
            assert(!told.to_set().contains(peer)) by {
                if told.to_set().contains(peer) {
                    let k = choose|k: int| 0 <= k < told.len() && told[k] == peer;
                    assert(self.inner@[k] == self.inner@[i as int]);
                }
            }
            assert(self.inner@.subrange(0, i + 1) =~= told.push(peer));
            proof {
                told.lemma_push_to_set_commute(peer);
            }
            assert(self@.contains(peer));
            let ghost views_before = views@;
            if peer.inner < views.views.len() {
                match views.views[peer.inner].take() {
                    Some(mut view) => {
                        assert(views_before.contains_key(peer));
                        assert(view@ == views_before[peer]);
                        assert(views_before[peer] == before[peer]);
                        match change {
                            ModelChange::RowChanged { row } => view.row_changed(row),
                            ModelChange::RowAdded { index, count } => view.row_added(index, count),
                            ModelChange::RowRemoved { index, count } => view.row_removed(
                                index,
                                count,
                            ),
                        }
                        views.views[peer.inner] = Some(view);
                        assert(views@[peer] == change.apply(before[peer]));
                    },
                    None => {
                        assert(!views_before.contains_key(peer));
                    },
                }
            }
            assert forall|p: ModelPeer| views@.contains_key(p) == views_before.contains_key(p) by {}
            assert forall|p: ModelPeer| p != peer && views@.contains_key(p) implies views@[p]
                == views_before[p] by {}
            let ghost now_told = told.push(peer).to_set();
            assert(now_told == told.to_set().insert(peer));
            let ghost expected = change.tell(now_told, before);
            assert forall|p: ModelPeer| #[trigger] views@.contains_key(p) implies views@[p]
                == expected[p] by {
                if p == peer {
                    assert(views_before.contains_key(peer));
                } else {
                    assert(views@[p] == views_before[p]);
                    assert(now_told.contains(p) == told.to_set().contains(p));
                }
            }
            assert(views@ =~= expected);
            i += 1;
        }
        assert(self.inner@.subrange(0, self.inner.len() as int) =~= self.inner@);
        assert(views.issued() =~= old(views).issued());
    }

    /// Notify the peers that a specific row was changed.
    pub fn row_changed<C>(&self, views: &mut ViewArena<C>, row: usize)
        requires
            self.wf(),
        ensures
            final(views)@ == (ModelChange::RowChanged { row }).tell(self@, old(views)@),
            final(views).issued() == old(views).issued(),
    {
        self.notify(views, ModelChange::RowChanged { row })
    }

    /// Notify the peers that rows were added.
    pub fn row_added<C>(&self, views: &mut ViewArena<C>, index: usize, count: usize)
        requires
            self.wf(),
            (ModelChange::RowAdded { index, count }).accepted_by_all(self@, old(views)@),
        ensures
            final(views)@ == (ModelChange::RowAdded { index, count }).tell(self@, old(views)@),
            final(views).issued() == old(views).issued(),
    {
        self.notify(views, ModelChange::RowAdded { index, count })
    }

    /// Notify the peers that rows were removed.
    pub fn row_removed<C>(&self, views: &mut ViewArena<C>, index: usize, count: usize)
        requires
            self.wf(),
            (ModelChange::RowRemoved { index, count }).accepted_by_all(self@, old(views)@),
        ensures
            final(views)@ == (ModelChange::RowRemoved { index, count }).tell(self@, old(views)@),
            final(views).issued() == old(views).issued(),
    {
        self.notify(views, ModelChange::RowRemoved { index, count })
    }

    /// Attach one peer. The peer will be notified when the model changes. A
    /// peer whose view is gone is not attached.
    pub fn attach<C>(&mut self, views: &ViewArena<C>, peer: ModelPeer)
        requires
            old(self).wf(),
        ensures
            final(self).wf(),
            final(self)@ == (if views@.contains_key(peer) {
                old(self)@.insert(peer)
            } else {
                old(self)@
            }),
    {
        if views.is_live(peer) && !self.is_attached(peer) {
            proof {
                self.inner@.lemma_push_to_set_commute(peer);
            }
            self.inner.push(peer);
        } else {
            assert(views@.contains_key(peer) ==> old(self)@.insert(peer) =~= old(self)@);
        }
    }
}

} // verus!
