use vstd::prelude::*;

verus! {

/// The vertex indices of the triangles of a geometry, under a number that
/// an [`IndexManager`] gave them.
pub struct Index {
    count: u32,
    data: Vec<u16>,
    id: usize,
}

/// What an [`Index`] holds.
pub struct IndexView {
    pub id: usize,
    /// The number of indices.
    pub count: u32,
    pub data: Seq<u16>,
}

impl View for Index {
    type V = IndexView;

    closed spec fn view(&self) -> IndexView {
        IndexView { id: self.id, count: self.count, data: self.data@ }
    }
}

impl Index {
    fn new(id: usize, data: Vec<u16>) -> (index: Self)
        requires
            data@.len() <= u32::MAX,
        ensures
            index@ == (IndexView { id, count: data@.len() as u32, data: data@ }),
    {
        Index { count: data.len() as u32, data, id }
    }

    pub fn get_id(&self) -> (id: usize)
        ensures
            id == self@.id,
    {
        self.id
    }

    pub fn get_count(&self) -> (count: u32)
        ensures
            count == self@.count,
    {
        self.count
    }

    pub fn borrow_data(&self) -> (data: &Vec<u16>)
        ensures
            data@ == self@.data,
    {
        &self.data
    }
}

/// Numbers the indices it creates: 0, 1, 2 and so on.
pub struct IndexManager {
    count: usize,
}

impl View for IndexManager {
    type V = nat;

    /// The number of indices created so far.
    closed spec fn view(&self) -> nat {
        self.count as nat
    }
}

impl IndexManager {
    pub fn new() -> (manager: Self)
        ensures
            manager@ == 0,
    {
        IndexManager { count: 0 }
    }

    /// An index that holds `data`, under the next number.
    pub fn create(&mut self, data: Vec<u16>) -> (index: Index)
        requires
            old(self)@ < usize::MAX,
            data@.len() <= u32::MAX,
        ensures
            index@ == (IndexView {
                id: old(self)@ as usize,
                count: data@.len() as u32,
                data: data@,
            }),
            final(self)@ == old(self)@ + 1,
    {
        let index = Index::new(self.count, data);
        self.count += 1;
        index
    }
}

} // verus!
