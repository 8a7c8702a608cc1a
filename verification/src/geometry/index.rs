use crate::geometry::attribute::new_id;
use uuid::Uuid;
use vstd::prelude::*;

verus! {

/// The vertex indices of the triangles of a geometry.
pub struct Index {
    count: u32,
    data: Vec<u16>,
    id: Uuid,
}

/// What an [`Index`] holds, but for its identifier.
pub struct IndexView {
    /// The number of indices.
    pub count: u32,
    pub data: Seq<u16>,
}

impl View for Index {
    type V = IndexView;

    closed spec fn view(&self) -> IndexView {
        IndexView { count: self.count, data: self.data@ }
    }
}

impl Index {
    /// The identifier of the index.
    pub closed spec fn id(self) -> Uuid {
        self.id
    }

    /// An index with a fresh identifier that holds `data`.
    pub fn new(data: Vec<u16>) -> (index: Self)
        requires
            data@.len() <= u32::MAX,
        ensures
            index@ == (IndexView { count: data@.len() as u32, data: data@ }),
    {
        Index { count: data.len() as u32, data, id: new_id() }
    }

    pub fn get_id(&self) -> (id: Uuid)
        ensures
            id == self.id(),
    {
        self.id
    }

    pub fn get_count(&self) -> (count: u32)
        ensures
            count == self@.count,
    {
        self.count
    }

    pub fn borrow_data(&self) -> (data: &Vec<u16>)
        ensures
            data@ == self@.data,
    {
        &self.data
    }
}

} // verus!
