use crate::idgen::new_char_id;
use crate::store::built_view;
use crate::store::find_id;
use crate::store::has_id;
use crate::store::lemma_find_id_has;
use crate::store::Character;
use crate::store::CharacterRequest;
use crate::store::CharacterStore;
use vstd::prelude::*;

verus! {

/// The one failure the handlers distinguish: no record carries the
/// requested id.
#[derive(Clone, Copy, Debug, PartialEq, Eq, Structural)]
pub enum StoreError {
    NotFound,
}

impl StoreError {
    /// The plain-text message sent back to the caller.
    pub fn message(&self) -> (m: String)
        ensures
            m@ == "Character not found"@,
    {
        "Character not found".to_owned()
    }
}

/// The greeting served at the root route.
pub fn greeting() -> (r: &'static str)
    ensures
        r@ == "Hello, World!"@,
{
    "Hello, World!"
}

/// All current records, in creation order.
pub fn get_all_chars(store: &CharacterStore) -> (r: Vec<Character>)
    ensures
        r@.map_values(|c: Character| c@) == store@,
{
    store.list()
}

/// Builds a record from the request under the given id and appends it;
/// an id already in use is rejected and the store left unchanged.
pub fn create_char_with_id(store: &mut CharacterStore, id: String, req: CharacterRequest) -> (r:
    Option<Character>)
    requires
        old(store).wf(),
    ensures
        final(store).wf(),
        if has_id(old(store)@, id@) {
            r is None && final(store)@ == old(store)@
        } else {
            (r matches Some(c) && c@ == built_view(id@, req@)) && final(store)@ == old(
                store,
            )@.push(built_view(id@, req@))
        },
{
    proof {
        lemma_find_id_has(store@, id@);
    }
    match store.find(&id) {
        Some(_) => None,
        None => {
            let record = Character { name: req.name, id, abilities: req.abilities, bio: req.bio };
            let copy = record.clone();
            store.insert(record);
            Some(copy)
        },
    }
}

/// Creates a record from the request under a freshly generated id and
/// appends it. `None` comes back, with nothing inserted, only when the
/// generated id collides with a live record — so only when some live record
/// already carries an id of slug length; in particular a create into an
/// empty store always succeeds. In practice the generator never collides.
pub fn create_char(store: &mut CharacterStore, req: CharacterRequest) -> (r: Option<Character>)
    requires
        old(store).wf(),
    ensures
        final(store).wf(),
        match r {
            Some(c) => {
                &&& c@.name == req@.name
                &&& c@.abilities == req@.abilities
                &&& c@.bio == req@.bio
                &&& 1 <= c@.id.len() <= 10
                &&& !has_id(old(store)@, c@.id)
                &&& final(store)@ == old(store)@.push(c@)
            },
            None => {
                &&& final(store)@ == old(store)@
                &&& exists|i: int|
                    #![trigger old(store)@[i].id]
                    0 <= i < old(store)@.len() && 1 <= old(store)@[i].id.len() <= 10
            },
        },
{
    let id = new_char_id();
    let ghost idv = id@;
    let r = create_char_with_id(store, id, req);
    proof {
        if r is None {
            assert(has_id(old(store)@, idv));
            let w = choose|i: int| 0 <= i < old(store)@.len() && old(store)@[i].id == idv;
            assert(0 <= w < old(store)@.len() && 1 <= old(store)@[w].id.len() <= 10);
        }
    }
    r
}

/// A copy of the record with the given id, or not-found.
pub fn get_char_by_id(store: &CharacterStore, id: &String) -> (r: Result<Character, StoreError>)
    ensures
        match find_id(store@, id@) {
            Some(i) => r matches Ok(c) && c@ == store@[i],
            None => r matches Err(e) && e == StoreError::NotFound,
        },
{
    match store.find(id) {
        Some(c) => Ok(c),
        None => Err(StoreError::NotFound),
    }
}

/// Overwrites name, abilities and bio of the record with the given id,
/// leaving the id untouched, and returns the updated copy; not-found leaves
/// the store unchanged.
pub fn update_char_by_id(store: &mut CharacterStore, id: &String, req: CharacterRequest) -> (r:
    Result<Character, StoreError>)
    requires
        old(store).wf(),
    ensures
        final(store).wf(),
        match find_id(old(store)@, id@) {
            Some(i) => final(store)@ == old(store)@.update(
                i,
                built_view(old(store)@[i].id, req@),
            ) && (r matches Ok(c) && c@ == final(store)@[i]),
            None => final(store)@ == old(store)@ && (r matches Err(e) && e
                == StoreError::NotFound),
        },
{
    match store.update(id, req) {
        Some(c) => Ok(c),
        None => Err(StoreError::NotFound),
    }
}

/// Removes the record with the given id; not-found leaves the store
/// unchanged.
pub fn delete_char_by_id(store: &mut CharacterStore, id: &String) -> (r: Result<(), StoreError>)
    requires
        old(store).wf(),
    ensures
        final(store).wf(),
        match find_id(old(store)@, id@) {
            Some(i) => r is Ok && final(store)@ == old(store)@.remove(i),
            None => final(store)@ == old(store)@ && (r matches Err(e) && e
                == StoreError::NotFound),
        },
{
    if store.remove(id) {
        Ok(())
    } else {
        Err(StoreError::NotFound)
    }
}

} // verus!
