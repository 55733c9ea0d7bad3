use crate::store::built_view;
use crate::store::find_id;
use crate::store::has_id;
use crate::store::lemma_find_id;
use crate::store::lemma_find_id_at;
use crate::store::lemma_find_id_has;
use crate::store::unique_ids;
use crate::store::CharacterView;
use crate::store::RequestView;
use vstd::prelude::*;

verus! {

/// Law: records stand in the store in exactly the order created. Each
/// create appends its record (as `create_char` ensures), so a run of
/// creates, folded over the starting contents, leaves those contents
/// followed by the new records in creation order — which `list` returns
/// verbatim.
pub proof fn lemma_creates_in_order(s0: Seq<CharacterView>, cs: Seq<CharacterView>)
    ensures
        cs.fold_left(s0, |acc: Seq<CharacterView>, c: CharacterView| acc.push(c)) == s0 + cs,
    decreases cs.len(),
{
    let f = |acc: Seq<CharacterView>, c: CharacterView| acc.push(c);
    if cs.len() == 0 {
        assert(cs.fold_left(s0, f) == s0);
        assert(s0 + cs =~= s0);
    } else {
        lemma_creates_in_order(s0, cs.drop_last());
        assert(cs.fold_left(s0, f) == f(cs.drop_last().fold_left(s0, f), cs.last()));
        assert((s0 + cs.drop_last()).push(cs.last()) =~= s0 + cs);
    }
}

/// Law: after a create, fetching the returned id finds exactly the created
/// record. Appending a record whose id is fresh makes the first match of
/// that id the new position, which holds the record itself.
pub proof fn lemma_create_then_get(s: Seq<CharacterView>, c: CharacterView)
    requires
        !has_id(s, c.id),
    ensures
        find_id(s.push(c), c.id) == Some(s.len() as int),
        s.push(c)[s.len() as int] == c,
{
    assert forall|k: int| 0 <= k < s.len() implies s.push(c)[k].id != c.id by {
        assert(s.push(c)[k] == s[k]);
        assert(!(0 <= k < s.len() && s[k].id == c.id));
    }
    lemma_find_id_at(s.push(c), c.id, s.len() as int);
}

/// Law: updating an existing id overwrites name, abilities and bio, leaves
/// the id itself unchanged, and a fetch of the same id afterwards finds the
/// record with the new values.
pub proof fn lemma_update_then_get(s: Seq<CharacterView>, id: Seq<char>, f: RequestView)
    requires
        has_id(s, id),
    ensures
        find_id(s, id) is Some,
        ({
            let i = find_id(s, id)->Some_0;
            let t = s.update(i, built_view(s[i].id, f));
            &&& t.len() == s.len()
            &&& t[i].id == s[i].id
            &&& t[i].name == f.name
            &&& t[i].abilities == f.abilities
            &&& t[i].bio == f.bio
            &&& find_id(t, id) == Some(i)
        }),
{
    lemma_find_id_has(s, id);
    lemma_find_id(s, id);
    let i = find_id(s, id)->Some_0;
    let t = s.update(i, built_view(s[i].id, f));
    assert(s[i].id == id);
    assert forall|k: int| 0 <= k < i implies t[k].id != id by {
        assert(t[k] == s[k]);
    }
    lemma_find_id_at(t, id, i);
}

/// Law: deleting an existing id removes exactly one record — the length
/// drops by exactly one — and a subsequent fetch of that id fails with
/// not-found.
pub proof fn lemma_delete_then_get(s: Seq<CharacterView>, id: Seq<char>)
    requires
        unique_ids(s),
        has_id(s, id),
    ensures
        find_id(s, id) is Some,
        ({
            let t = s.remove(find_id(s, id)->Some_0);
            &&& t.len() == s.len() - 1
            &&& find_id(t, id) is None
        }),
{
    lemma_find_id_has(s, id);
    lemma_find_id(s, id);
    let i = find_id(s, id)->Some_0;
    let t = s.remove(i);
    s.remove_ensures(i);
    assert(s[i].id == id);
    assert forall|k: int| 0 <= k < t.len() implies t[k].id != id by {
        if k < i {
            assert(t[k] == s[k]);
        } else {
            assert(t[k] == s[k + 1]);
            assert(s[i].id != s[k + 1].id);
        }
    }
    lemma_find_id(t, id);
    if find_id(t, id) is Some {
        let m = find_id(t, id)->Some_0;
        assert(t[m].id == id);
    }
}

} // verus!
