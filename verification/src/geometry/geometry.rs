use crate::geometry::attribute::Attribute;
use crate::geometry::index::Index;
use crate::resource::resource::ResourceId;
use vstd::hash_map::StringHashMap;
use vstd::prelude::*;

verus! {

/// The shape of a mesh: its vertex attributes, each under a name, and
/// optionally its index.
pub struct Geometry {
    attributes: StringHashMap<ResourceId<Attribute>>,
    index: Option<ResourceId<Index>>,
}

/// What a [`Geometry`] holds.
pub struct GeometryView {
    /// The index of each attribute, by its name.
    pub attributes: Map<Seq<char>, nat>,
    pub index: Option<nat>,
}

impl View for Geometry {
    type V = GeometryView;

    closed spec fn view(&self) -> GeometryView {
        GeometryView {
            attributes: Map::new(
                |key: Seq<char>| self.attributes@.contains_key(key),
                |key: Seq<char>| self.attributes@[key]@,
            ),
            index: match self.index {
                Some(index) => Some(index@),
                None => None,
            },
        }
    }
}

impl Geometry {
    /// A geometry without attributes and without index.
    pub fn new() -> (geometry: Self)
        ensures
            geometry@ == (GeometryView { attributes: Map::empty(), index: None }),
    {
        let geometry = Geometry { attributes: StringHashMap::new(), index: None };
        assert(geometry@.attributes =~= Map::empty());
        geometry
    }

    /// Puts `attribute` under the name `key`, in place of what stood there.
    pub fn set_attribute(&mut self, key: &'static str, attribute: ResourceId<Attribute>) -> (geometry:
        &mut Self)
        ensures
            geometry@ == (GeometryView {
                attributes: old(self)@.attributes.insert(key@, attribute@),
                ..old(self)@
            }),
            *final(self) == *final(geometry),
    {
        self.attributes.insert(String::from_str(key), attribute);
        assert(self@.attributes =~= old(self)@.attributes.insert(key@, attribute@));
        self
    }

    pub fn borrow_attribute(&self, key: &'static str) -> (attribute: Option<&ResourceId<Attribute>>)
        ensures
            attribute is Some <==> self@.attributes.contains_key(key@),
            attribute is Some ==> attribute->0@ == self@.attributes[key@],
    {
        self.attributes.get(key)
    }

    pub fn set_index(&mut self, index: ResourceId<Index>) -> (geometry: &mut Self)
        ensures
            geometry@ == (GeometryView { index: Some(index@), ..old(self)@ }),
            *final(self) == *final(geometry),
    {
        self.index = Some(index);
        assert(self@.attributes =~= old(self)@.attributes);
        self
    }

    pub fn remove_index(&mut self) -> (geometry: &mut Self)
        ensures
            geometry@ == (GeometryView { index: None, ..old(self)@ }),
            *final(self) == *final(geometry),
    {
        self.index = None;
        assert(self@.attributes =~= old(self)@.attributes);
        self
    }

    pub fn borrow_index(&self) -> (index: Option<&ResourceId<Index>>)
        ensures
            index is Some <==> self@.index is Some,
            index is Some ==> index->0@ == self@.index->0,
    {
        self.index.as_ref()
    }
}

} // verus!
