//! How models are laid out in the store: one namespace per model, named by
//! the sixteen bytes of its identifier, with one slot for each part of the
//! model.

use crate::clouds::Cloud;
use crate::ident::{big_endian, from_slice, to_bytes};
use crate::server::error::{Error, ErrorView};
use crate::server::model::{Active, Completed, Model, Queued};
use std::collections::VecDeque;
use vstd::prelude::*;

verus! {

/// The name of the namespace that the store keeps for itself:
/// `__sled__default`.
pub open spec fn reserved_namespace() -> Seq<u8> {
    seq![
        0x5fu8,
        0x5fu8,
        0x73u8,
        0x6cu8,
        0x65u8,
        0x64u8,
        0x5fu8,
        0x5fu8,
        0x64u8,
        0x65u8,
        0x66u8,
        0x61u8,
        0x75u8,
        0x6cu8,
        0x74u8,
    ]
}

/// The identifier of the model that a namespace belongs to: its name read as
/// sixteen bytes. The reserved namespace, and any namespace whose name is not
/// sixteen bytes long, belongs to no model.
pub open spec fn id_of_namespace(name: Seq<u8>) -> Option<u128> {
    if name == reserved_namespace() || name.len() != 16 {
        None
    } else {
        Some(big_endian(name) as u128)
    }
}

/// The identifiers of the models that the namespaces belong to, in the order
/// of the namespaces.
pub open spec fn ids_of_namespaces(names: Seq<Seq<u8>>) -> Seq<u128>
    decreases names.len(),
{
    if names.len() == 0 {
        Seq::empty()
    } else {
        match id_of_namespace(names.last()) {
            Some(id) => ids_of_namespaces(names.drop_last()).push(id),
            None => ids_of_namespaces(names.drop_last()),
        }
    }
}

/// The name of the namespace of the model with the identifier `id`.
pub fn namespace_of(id: u128) -> (r: Vec<u8>)
    ensures
        r@.len() == 16,
        big_endian(r@) == id,
        id_of_namespace(r@) == Some(id),
{
    let r = to_bytes(id);
    proof {
        assert(reserved_namespace().len() == 15);
    }
    r
}

/// The identifier of the model that the namespace `name` belongs to.
pub fn model_id_of(name: &[u8]) -> (r: Option<u128>)
    ensures
        r == id_of_namespace(name@),
{
    proof {
        assert(reserved_namespace().len() == 15);
    }
    from_slice(name)
}

/// The identifiers of the models in a store with the namespaces `names`.
pub fn list_model_ids(names: &Vec<Vec<u8>>) -> (r: Vec<u128>)
    ensures
        r@ == ids_of_namespaces(names.deep_view()),
{
    let mut ids: Vec<u128> = Vec::new();
    let mut i: usize = 0;
    proof {
        assert(names.deep_view().take(0).len() == 0);
    }
    while i < names.len()
        invariant
            i <= names@.len(),
            ids@ == ids_of_namespaces(names.deep_view().take(i as int)),
        decreases names@.len() - i,
    {
        proof {
            let next = names.deep_view().take(i + 1);
            assert(next.drop_last() == names.deep_view().take(i as int));
            assert(next.last() == names@[i as int]@);
        }
        match model_id_of(names[i].as_slice()) {
            Some(id) => {
                ids.push(id);
            },
            None => {},
        }
        i += 1;
    }
    proof {
        assert(names.deep_view().take(i as int) == names.deep_view());
    }
    ids
}

/// What the slots of a namespace hold, each as far as it is there.
#[derive(Clone, Debug, PartialEq)]
pub struct Slots {
    pub id: Option<u128>,
    pub name: Option<String>,
    pub cloud: Option<Cloud>,
    pub backlog: Option<VecDeque<Queued>>,
    pub active: Option<Option<Active>>,
    pub history: Option<Vec<Completed>>,
}

impl Slots {
    /// Whether every slot is there.
    pub open spec fn complete(self) -> bool {
        &&& self.id is Some
        &&& self.name is Some
        &&& self.cloud is Some
        &&& self.backlog is Some
        &&& self.active is Some
        &&& self.history is Some
    }

    /// The slots of a model.
    pub fn from_model(model: Model) -> (r: Self)
        ensures
            r.complete(),
            r.id == Some(model.id),
            r.name == Some(model.name),
            r.cloud == Some(model.cloud),
            r.backlog == Some(model.backlog),
            r.active == Some(model.active),
            r.history == Some(model.history),
    {
        Slots {
            id: Some(model.id),
            name: Some(model.name),
            cloud: Some(model.cloud),
            backlog: Some(model.backlog),
            active: Some(model.active),
            history: Some(model.history),
        }
    }
}

impl Model {
    /// The model that the slots of the namespace with the key `key` make up.
    /// Fails where a slot is missing.
    pub fn from_tree(key: u128, slots: Slots) -> (r: Result<Model, Error>)
        ensures
            match r {
                Ok(m) => {
                    &&& slots.complete()
                    &&& Some(m.id) == slots.id
                    &&& Some(m.name) == slots.name
                    &&& Some(m.cloud) == slots.cloud
                    &&& Some(m.backlog) == slots.backlog
                    &&& Some(m.active) == slots.active
                    &&& Some(m.history) == slots.history
                },
                Err(e) => !slots.complete() && e@ == ErrorView::ModelLoad(key),
            },
    {
        match (slots.id, slots.name, slots.cloud, slots.backlog, slots.active, slots.history) {
            (Some(id), Some(name), Some(cloud), Some(backlog), Some(active), Some(history)) => Ok(
                Model { id, name, cloud, backlog, active, history },
            ),
            _ => Err(Error::ModelLoad(key)),
        }
    }
}

} // verus!
