//! Model discovery: entries of `GET /models` as neutral models.

use vstd::prelude::*;
use crate::domain::model::{model_label, Model};

verus! {

/// One catalog entry: only `id` is required; `owned_by` is widespread enough
/// to be surfaced as the vendor.
#[derive(Debug, Clone, PartialEq)]
pub struct ModelEntry {
    pub id: String,
    pub owned_by: Option<String>,
}

/// The model an entry describes: its id, and its owner as vendor unless the
/// owner is missing or empty.
pub open spec fn entry_model(e: ModelEntry) -> Model {
    Model {
        id: e.id,
        display_name: None,
        vendor: match e.owned_by {
            Some(o) => if o@.len() == 0 {
                None
            } else {
                Some(o)
            },
            None => None,
        },
        preview: false,
        limits: None,
    }
}

impl ModelEntry {
    /// The model this entry describes; an empty owner is not a vendor.
    pub fn into_model(self) -> (m: Model)
        ensures
            m == entry_model(self),
            m.id == self.id,
            m.display_name is None,
            model_label(m) == self.id@,
            !m.preview,
            m.limits is None,
    {
        let vendor = match self.owned_by {
            Some(owner) => if owner.as_str().is_empty() {
                None
            } else {
                Some(owner)
            },
            None => None,
        };
        Model { id: self.id, display_name: None, vendor, preview: false, limits: None }
    }
}

/// Law: a listed model carries no display name of its own, so it is labelled
/// by its id; its owner, when there is one and it is not empty, is its vendor
/// and nothing else.
pub proof fn law_a_listed_model_is_labelled_by_its_id(e: ModelEntry)
    ensures
        entry_model(e).id == e.id,
        entry_model(e).display_name is None,
        model_label(entry_model(e)) == e.id@,
        e.owned_by is Some && e.owned_by->0@.len() > 0 ==> entry_model(e).vendor == e.owned_by,
        !(e.owned_by is Some && e.owned_by->0@.len() > 0) ==> entry_model(e).vendor is None,
{
}

/// The models of a listing, in the order listed.
pub fn models_from_entries(entries: Vec<ModelEntry>) -> (models: Vec<Model>)
    ensures
        models@ == entries@.map_values(|e: ModelEntry| entry_model(e)),
        models@.len() == entries@.len(),
        forall|i: int|
            0 <= i < models@.len() ==> (#[trigger] models@[i]).id == entries@[i].id
                && models@[i].display_name is None && model_label(models@[i]) == entries@[i].id@,
{
    let ghost all = entries@;
    let mut models: Vec<Model> = Vec::new();
    for e in it: entries.into_iter()
        invariant
            it.seq() == all,
            models@ == all.take(it.index() as int).map_values(|e: ModelEntry| entry_model(e)),
    {
        models.push(e.into_model());
        assert(all.take(it.index() + 1) == all.take(it.index() as int).push(e));
    }
    assert(all.take(all.len() as int) == all);
    assert forall|i: int| 0 <= i < models@.len() implies (#[trigger] models@[i]).id == entries@[i].id
        && models@[i].display_name is None && model_label(models@[i]) == entries@[i].id@ by {
        law_a_listed_model_is_labelled_by_its_id(entries@[i]);
    }
    models
}

} // verus!
