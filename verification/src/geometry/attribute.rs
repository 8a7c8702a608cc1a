use crate::math::scalar::Scalar;
use uuid::Uuid;
use vstd::prelude::*;

verus! {

/// A universally unique identifier.
#[verifier::external_type_specification]
#[verifier::external_body]
pub struct ExUuid(Uuid);

/// Draws a fresh identifier with `Uuid::new_v4`. The identifier is random:
/// nothing is claimed of it.
#[verifier::external_body]
pub(crate) fn new_id() -> Uuid {
    Uuid::new_v4()
}

/// One attribute of the vertices of a geometry: a flat list of numbers,
/// one item of `item_size` numbers for each vertex.
pub struct Attribute {
    count: u32,
    data: Vec<Scalar>,
    id: Uuid,
    _item_size: u32,
}

/// What an [`Attribute`] holds, but for its identifier.
pub struct AttributeView {
    /// The number of items.
    pub count: u32,
    pub data: Seq<Scalar>,
    /// The number of numbers in one item.
    pub item_size: u32,
}

impl View for Attribute {
    type V = AttributeView;

    closed spec fn view(&self) -> AttributeView {
        AttributeView { count: self.count, data: self.data@, item_size: self._item_size }
    }
}

impl Attribute {
    /// The identifier of the attribute.
    pub closed spec fn id(self) -> Uuid {
        self.id
    }

    /// An attribute with a fresh identifier that holds `data`; its count is
    /// the number of whole items in `data`.
    pub fn new(data: Vec<Scalar>, item_size: u32) -> (attribute: Self)
        requires
            item_size > 0,
            data@.len() <= u32::MAX,
        ensures
            attribute@ == (AttributeView {
                count: (data@.len() / item_size as nat) as u32,
                data: data@,
                item_size,
            }),
    {
        Attribute { count: data.len() as u32 / item_size, data, id: new_id(), _item_size: item_size }
    }

    pub fn get_id(&self) -> (id: Uuid)
        ensures
            id == self.id(),
    {
        self.id
    }

    pub fn get_count(&self) -> (count: u32)
        ensures
            count == self@.count,
    {
        self.count
    }

    pub fn borrow_data(&self) -> (data: &Vec<Scalar>)
        ensures
            data@ == self@.data,
    {
        &self.data
    }
}

} // verus!
