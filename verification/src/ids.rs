//! Strongly-typed row identifiers. Newtypes over `i64` so an image id, tag id,
//! and collection id can never be transposed (the `image_tags` /
//! `collection_images` inserts take two adjacent ids).

use vstd::prelude::*;

verus! {

#[derive(Debug, Clone, Copy, PartialEq, Eq, Hash, Structural)]
pub struct ImageId(pub i64);

impl ImageId {
    pub fn get(self) -> (r: i64)
        ensures
            r == self.0,
    {
        self.0
    }
}

impl From<i64> for ImageId {
    fn from(v: i64) -> (r: Self) {
        ImageId(v)
    }
}

impl vstd::std_specs::convert::FromSpecImpl<i64> for ImageId {
    open spec fn obeys_from_spec() -> bool {
        true
    }

    open spec fn from_spec(v: i64) -> ImageId {
        ImageId(v)
    }
}

#[derive(Debug, Clone, Copy, PartialEq, Eq, Hash, Structural)]
pub struct TagId(pub i64);

impl TagId {
    pub fn get(self) -> (r: i64)
        ensures
            r == self.0,
    {
        self.0
    }
}

impl From<i64> for TagId {
    fn from(v: i64) -> (r: Self) {
        TagId(v)
    }
}

impl vstd::std_specs::convert::FromSpecImpl<i64> for TagId {
    open spec fn obeys_from_spec() -> bool {
        true
    }

    open spec fn from_spec(v: i64) -> TagId {
        TagId(v)
    }
}

#[derive(Debug, Clone, Copy, PartialEq, Eq, Hash, Structural)]
pub struct CollectionId(pub i64);

impl CollectionId {
    pub fn get(self) -> (r: i64)
        ensures
            r == self.0,
    {
        self.0
    }
}

impl From<i64> for CollectionId {
    fn from(v: i64) -> (r: Self) {
        CollectionId(v)
    }
}

impl vstd::std_specs::convert::FromSpecImpl<i64> for CollectionId {
    open spec fn obeys_from_spec() -> bool {
        true
    }

    open spec fn from_spec(v: i64) -> CollectionId {
        CollectionId(v)
    }
}

} // verus!
