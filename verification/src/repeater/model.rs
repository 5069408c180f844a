//! What provides the rows: the models.

use super::notify::{ModelChange, ModelNotify, ModelPeer, ViewArena};
use vstd::prelude::*;

verus! {

/// A model provides the data for the repeated elements: a number of rows,
/// and the data of each.
pub trait Model: Sized {
    /// The model data: a model is a set of rows and each row has this data.
    type Data;

    /// What the model needs to hold to work.
    spec fn wf(&self) -> bool;

    /// The number of rows.
    spec fn rows(&self) -> nat;

    /// The views that the model tells of its changes.
    spec fn peers(&self) -> Set<ModelPeer>;

    /// The amount of rows in the model.
    fn row_count(&self) -> (count: usize)
        requires
            self.wf(),
        ensures
            count == self.rows(),
    ;

    /// Returns the data for a particular row.
    fn row_data(&self, row: usize) -> Self::Data
        requires
            self.wf(),
            row < self.rows(),
    ;

    /// Sets the data for a particular row. A model that cannot support data
    /// changes does nothing, and that is what a model does that has no
    /// function of its own for this. A model that changes the data tells its
    /// views that the row has changed.
    fn set_row_data<C>(&mut self, views: &mut ViewArena<C>, row: usize, data: Self::Data)
        requires
            old(self).wf(),
            row < old(self).rows(),
        ensures
            final(self).wf(),
            final(self).rows() == old(self).rows(),
            final(self).peers() == old(self).peers(),
            final(views).issued() == old(views).issued(),
            final(views)@ == old(views)@ || final(views)@ == (ModelChange::RowChanged {
                row,
            }).tell(old(self).peers(), old(views)@),
    {
    }

    /// Attaches a view, which is told of the changes from now on. A model
    /// that never changes does nothing.
    fn attach_peer<C>(&mut self, views: &ViewArena<C>, peer: ModelPeer)
        requires
            old(self).wf(),
        ensures
            final(self).wf(),
            final(self).rows() == old(self).rows(),
            final(self).peers() == old(self).peers() || (views@.contains_key(peer)
                && final(self).peers() == old(self).peers().insert(peer)),
    ;
}

/// A model backed by a vector.
pub struct VecModel<T> {
    array: Vec<T>,
    notify: ModelNotify,
}

impl<T> View for VecModel<T> {
    type V = Seq<T>;

    closed spec fn view(&self) -> Seq<T> {
        self.array@
    }
}

impl<T> VecModel<T> {
    /// The views that the model tells of its changes.
    pub closed spec fn attached(&self) -> Set<ModelPeer> {
        self.notify@
    }

    /// No view is attached twice.
    pub closed spec fn well_formed(&self) -> bool {
        self.notify.wf()
    }

    /// Allocate a new model from a slice.
    pub fn from_slice(slice: &[T]) -> (model: Self) where T: Clone
        ensures
            model.well_formed(),
            model.attached() == Set::<ModelPeer>::empty(),
            model@.len() == slice@.len(),
            forall|i: int| 0 <= i < slice@.len() ==> cloned(slice@[i], #[trigger] model@[i]),
    {
        let mut array: Vec<T> = Vec::new();
        let mut i: usize = 0;
        while i < slice.len()
            invariant
                i <= slice@.len(),
                array@.len() == i,
                forall|k: int| 0 <= k < i ==> cloned(slice@[k], #[trigger] array@[k]),
            decreases slice@.len() - i,
        {
            array.push(slice[i].clone());
            i += 1;
        }
        VecModel { array, notify: ModelNotify::default() }
    }

    /// Add a row at the end of the model.
    pub fn push<C>(&mut self, views: &mut ViewArena<C>, value: T)
        requires
            old(self).well_formed(),
            old(self)@.len() < usize::MAX,
            (ModelChange::RowAdded { index: old(self)@.len() as usize, count: 1 }).accepted_by_all(
                old(self).attached(),
                old(views)@,
            ),
        ensures
            final(self).well_formed(),
            final(self).attached() == old(self).attached(),
            final(self)@ == old(self)@.push(value),
            final(views).issued() == old(views).issued(),
            final(views)@ == (ModelChange::RowAdded {
                index: old(self)@.len() as usize,
                count: 1,
            }).tell(old(self).attached(), old(views)@),
    {
        self.array.push(value);
        self.notify.row_added(views, self.array.len() - 1, 1)
    }

    /// Remove the row at the given index from the model.
    pub fn remove<C>(&mut self, views: &mut ViewArena<C>, index: usize)
        requires
            old(self).well_formed(),
            index < old(self)@.len(),
            (ModelChange::RowRemoved { index, count: 1 }).accepted_by_all(
                old(self).attached(),
                old(views)@,
            ),
        ensures
            final(self).well_formed(),
            final(self).attached() == old(self).attached(),
            final(self)@ == old(self)@.remove(index as int),
            final(views).issued() == old(views).issued(),
            final(views)@ == (ModelChange::RowRemoved { index, count: 1 }).tell(
                old(self).attached(),
                old(views)@,
            ),
    {
        self.array.remove(index);
        self.notify.row_removed(views, index, 1)
    }
}

impl<T> From<Vec<T>> for VecModel<T> {
    fn from(array: Vec<T>) -> (model: Self)
        ensures
            model@ == array@,
            model.well_formed(),
            model.attached() == Set::<ModelPeer>::empty(),
    {
        VecModel { array, notify: ModelNotify::default() }
    }
}

impl<T> vstd::std_specs::convert::FromSpecImpl<Vec<T>> for VecModel<T> {
    /// The conversion is stated by what `from` ensures of the rows: a model
    /// is no value that a specification could build.
    open spec fn obeys_from_spec() -> bool {
        false
    }

    open spec fn from_spec(array: Vec<T>) -> Self {
        arbitrary()
    }
}

impl<T: Clone> Model for VecModel<T> {
    type Data = T;

    open spec fn wf(&self) -> bool {
        self.well_formed()
    }

    open spec fn rows(&self) -> nat {
        self@.len()
    }

    open spec fn peers(&self) -> Set<ModelPeer> {
        self.attached()
    }

    fn row_count(&self) -> (count: usize) {
        self.array.len()
    }

    fn row_data(&self, row: usize) -> (data: T)
        ensures
            cloned(self@[row as int], data),
    {
        self.array[row].clone()
    }

    fn set_row_data<C>(&mut self, views: &mut ViewArena<C>, row: usize, data: T)
        ensures
            final(self)@ == old(self)@.update(row as int, data),
            final(views)@ == (ModelChange::RowChanged { row }).tell(
                old(self).peers(),
                old(views)@,
            ),
    {
        self.array[row] = data;
        self.notify.row_changed(views, row);
    }

    fn attach_peer<C>(&mut self, views: &ViewArena<C>, peer: ModelPeer)
        ensures
            final(self)@ == old(self)@,
            final(self).peers() == (if views@.contains_key(peer) {
                old(self).peers().insert(peer)
            } else {
                old(self).peers()
            }),
    {
        self.notify.attach(views, peer);
    }
}

/// A number is a model of as many rows, each of which holds its index.
impl Model for usize {
    type Data = i32;

    open spec fn wf(&self) -> bool {
        true
    }

    open spec fn rows(&self) -> nat {
        *self as nat
    }

    open spec fn peers(&self) -> Set<ModelPeer> {
        Set::empty()
    }

    fn row_count(&self) -> (count: usize) {
        *self
    }

    fn row_data(&self, row: usize) -> (data: i32)
        ensures
            data == row as i32,
    {
        #[verifier::truncate]
        (row as i32)
    }

    fn attach_peer<C>(&mut self, views: &ViewArena<C>, peer: ModelPeer)
        ensures
            *final(self) == *old(self),
    {
        // The model is read-only: nothing to do.
    }
}

/// A boolean is a model of one row without data, or of none.
impl Model for bool {
    type Data = ();

    open spec fn wf(&self) -> bool {
        true
    }

    open spec fn rows(&self) -> nat {
        if *self {
            1
        } else {
            0
        }
    }

    open spec fn peers(&self) -> Set<ModelPeer> {
        Set::empty()
    }

    fn row_count(&self) -> (count: usize) {
        if *self {
            1
        } else {
            0
        }
    }

    fn row_data(&self, row: usize) -> (data: ()) {
    }

    fn attach_peer<C>(&mut self, views: &ViewArena<C>, peer: ModelPeer)
        ensures
            *final(self) == *old(self),
    {
        // The model is read-only: nothing to do.
    }
}

} // verus!
