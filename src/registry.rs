//! The registry of claim-token identifiers, keyed by name.
use vstd::prelude::*;
use crate::store::ByteMap;
use crate::types::{AssetId, Error};

verus! {

/// Names registered so far, and the identifier that the next new name gets.
pub struct AssetRegistry {
    names: ByteMap<AssetId>,
    next_asset_id: AssetId,
}

/// The abstract state of an [`AssetRegistry`].
pub struct RegistryView {
    pub names: Map<Seq<u8>, AssetId>,
    pub next_asset_id: AssetId,
}

impl View for AssetRegistry {
    type V = RegistryView;

    closed spec fn view(&self) -> RegistryView {
        RegistryView { names: self.names@, next_asset_id: self.next_asset_id }
    }
}

/// The identifier of `name` and the registry afterwards: the one registered,
/// or else the next free one, which is then registered.
pub open spec fn get_or_create_of(r: RegistryView, name: Seq<u8>) -> Result<(AssetId, RegistryView), Error> {
    if r.names.contains_key(name) {
        Ok((r.names[name], r))
    } else if r.next_asset_id == u32::MAX {
        Err(Error::NoIdAvailable)
    } else {
        Ok((
            r.next_asset_id,
            RegistryView { names: r.names.insert(name, r.next_asset_id), next_asset_id: (r.next_asset_id + 1) as AssetId },
        ))
    }
}

impl AssetRegistry {
    /// An empty registry that hands out identifiers from `first_id` on.
    pub fn new(first_id: AssetId) -> (r: Self)
        ensures
            r@.names == Map::<Seq<u8>, AssetId>::empty(),
            r@.next_asset_id == first_id,
    {
        AssetRegistry { names: ByteMap::new(), next_asset_id: first_id }
    }

    /// The identifier that the next new name gets.
    pub fn next_asset_id(&self) -> (r: AssetId)
        ensures
            r == self@.next_asset_id,
    {
        self.next_asset_id
    }

    /// The identifier registered under `name`, if any.
    pub fn retrieve_asset(&self, name: &Vec<u8>) -> (r: Option<AssetId>)
        ensures
            r == (if self@.names.contains_key(name@) {
                Some(self@.names[name@])
            } else {
                None
            }),
    {
        self.names.get(name)
    }

    /// The identifier registered under `name`, registering a new one if there is none.
    pub fn get_or_create_asset(&mut self, name: &Vec<u8>) -> (r: Result<AssetId, Error>)
        ensures
            match get_or_create_of(old(self)@, name@) {
                Ok((id, s)) => r == Ok::<AssetId, Error>(id) && final(self)@ == s,
                Err(e) => r == Err::<AssetId, Error>(e) && final(self)@ == old(self)@,
            },
    {
        match self.names.get(name) {
            Some(id) => Ok(id),
            None => {
                if self.next_asset_id == u32::MAX {
                    return Err(Error::NoIdAvailable);
                }
                let id = self.next_asset_id;
                self.names.insert(name, id);
                self.next_asset_id = id + 1;
                Ok(id)
            },
        }
    }
}

} // verus!
