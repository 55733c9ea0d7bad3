use vstd::prelude::*;

verus! {

/// A single character record. `id` is the unique lookup key, assigned by the
/// system on creation and never overwritten; the other fields are free-form
/// content supplied by the caller.
pub struct Character {
    pub name: String,
    pub id: String,
    pub abilities: Vec<String>,
    pub bio: String,
}

/// The mathematical value of a `Character`: each field as a sequence.
#[verifier::ext_equal]
pub ghost struct CharacterView {
    pub name: Seq<char>,
    pub id: Seq<char>,
    pub abilities: Seq<Seq<char>>,
    pub bio: Seq<char>,
}

/// The character sequences held by a sequence of strings.
pub open spec fn strings_view(v: Seq<String>) -> Seq<Seq<char>> {
    v.map_values(|s: String| s@)
}

impl View for Character {
    type V = CharacterView;

    open spec fn view(&self) -> CharacterView {
        CharacterView {
            name: self.name@,
            id: self.id@,
            abilities: strings_view(self.abilities@),
            bio: self.bio@,
        }
    }
}

impl Clone for Character {
    fn clone(&self) -> (r: Self)
        ensures
            r@ == self@,
    {
        let abilities = self.abilities.clone();
        proof {
            assert(abilities@ =~= self.abilities@);
        }
        Character {
            name: self.name.clone(),
            id: self.id.clone(),
            abilities,
            bio: self.bio.clone(),
        }
    }
}

/// The fields a caller supplies when creating or updating a character:
/// everything but the system-assigned `id`.
pub struct CharacterRequest {
    pub name: String,
    pub abilities: Vec<String>,
    pub bio: String,
}

/// The mathematical value of a `CharacterRequest`.
#[verifier::ext_equal]
pub ghost struct RequestView {
    pub name: Seq<char>,
    pub abilities: Seq<Seq<char>>,
    pub bio: Seq<char>,
}

impl View for CharacterRequest {
    type V = RequestView;

    open spec fn view(&self) -> RequestView {
        RequestView {
            name: self.name@,
            abilities: strings_view(self.abilities@),
            bio: self.bio@,
        }
    }
}

/// The record with the given id and the request's content.
pub open spec fn built_view(id: Seq<char>, req: RequestView) -> CharacterView {
    CharacterView { name: req.name, id: id, abilities: req.abilities, bio: req.bio }
}

/// No two records in `s` share an id.
pub open spec fn unique_ids(s: Seq<CharacterView>) -> bool {
    forall|i: int, j: int| 0 <= i < j < s.len() ==> s[i].id != s[j].id
}

/// Whether some record in `s` carries the id.
pub open spec fn has_id(s: Seq<CharacterView>, id: Seq<char>) -> bool {
    exists|i: int| 0 <= i < s.len() && s[i].id == id
}

/// Index of the first record in `s` with the given id, if any.
pub open spec fn find_id(s: Seq<CharacterView>, id: Seq<char>) -> Option<int>
    decreases s.len(),
{
    if s.len() == 0 {
        None
    } else if s[0].id == id {
        Some(0int)
    } else {
        match find_id(s.drop_first(), id) {
            Some(i) => Some(i + 1),
            None => None,
        }
    }
}

/// `find_id` returns the first matching index: a match with nothing matching
/// before it, and `None` exactly when nothing matches at all.
pub proof fn lemma_find_id(s: Seq<CharacterView>, id: Seq<char>)
    ensures
        match find_id(s, id) {
            Some(i) => 0 <= i < s.len() && s[i].id == id && (forall|k: int|
                0 <= k < i ==> s[k].id != id),
            None => forall|k: int| 0 <= k < s.len() ==> s[k].id != id,
        },
    decreases s.len(),
{
    if s.len() == 0 {
    } else if s[0].id == id {
    } else {
        lemma_find_id(s.drop_first(), id);
        assert forall|k: int| 1 <= k < s.len() implies s.drop_first()[k - 1] == s[k] by {}
    }
}

/// When position `j` carries the first occurrence of the id, `find_id`
/// returns exactly `j`.
pub proof fn lemma_find_id_at(s: Seq<CharacterView>, id: Seq<char>, j: int)
    requires
        0 <= j < s.len(),
        s[j].id == id,
        forall|k: int| 0 <= k < j ==> s[k].id != id,
    ensures
        find_id(s, id) == Some(j),
{
    lemma_find_id(s, id);
    match find_id(s, id) {
        Some(i) => {
            if i < j {
                assert(s[i].id != id);
            }
            if i > j {
                assert(s[j].id != id);
            }
        },
        None => {
            assert(s[j].id != id);
        },
    }
}

/// `find_id` finds something exactly when `has_id` holds.
pub proof fn lemma_find_id_has(s: Seq<CharacterView>, id: Seq<char>)
    ensures
        find_id(s, id) is Some <==> has_id(s, id),
{
    lemma_find_id(s, id);
    if find_id(s, id) is Some {
        let i = find_id(s, id)->Some_0;
        assert(0 <= i < s.len() && s[i].id == id);
    }
}

/// The authoritative ordered collection of character records.
pub struct CharacterStore {
    characters: Vec<Character>,
}

impl View for CharacterStore {
    type V = Seq<CharacterView>;

    closed spec fn view(&self) -> Seq<CharacterView> {
        self.characters@.map_values(|c: Character| c@)
    }
}

impl CharacterStore {
    /// Well-formed: no two live records share an id.
    pub open spec fn wf(&self) -> bool {
        unique_ids(self@)
    }

    /// An empty store.
    pub fn new() -> (s: Self)
        ensures
            s@ == Seq::<CharacterView>::empty(),
            s.wf(),
    {
        let s = CharacterStore { characters: Vec::new() };
        proof {
            assert(s@ =~= Seq::<CharacterView>::empty());
        }
        s
    }

    /// A copy of the full current sequence, in insertion order.
    pub fn list(&self) -> (r: Vec<Character>)
        ensures
            r@.map_values(|c: Character| c@) == self@,
    {
        let r = self.characters.clone();
        proof {
            assert forall|i: int| 0 <= i < r@.len() implies r@[i]@ == self.characters@[i]@ by {
                assert(cloned::<Character>(self.characters@[i], r@[i]));
            }
            assert(r@.map_values(|c: Character| c@) =~= self@);
        }
        r
    }

    /// Appends a fully formed record; the caller supplies a fresh id.
    pub fn insert(&mut self, record: Character)
        requires
            old(self).wf(),
            !has_id(old(self)@, record@.id),
        ensures
            final(self)@ == old(self)@.push(record@),
            final(self).wf(),
    {
        let ghost pre = self@;
        let ghost rv = record@;
        self.characters.push(record);
        proof {
            assert(self@ =~= pre.push(rv));
            assert forall|i: int, j: int| 0 <= i < j < self@.len() implies self@[i].id
                != self@[j].id by {
                if j == pre.len() {
                    assert(!(0 <= i < pre.len() && pre[i].id == rv.id));
                }
            }
        }
    }

    /// A copy of the first record with the given id, if any.
    pub fn find(&self, id: &String) -> (r: Option<Character>)
        ensures
            match find_id(self@, id@) {
                Some(i) => r matches Some(c) && c@ == self@[i],
                None => r is None,
            },
    {
        let mut j: usize = 0;
        while j < self.characters.len()
            invariant
                j <= self.characters.len(),
                forall|k: int| 0 <= k < j ==> self@[k].id != id@,
            decreases self.characters.len() - j,
        {
            if self.characters[j].id == *id {
                proof {
                    assert(self@[j as int].id == id@);
                    lemma_find_id_at(self@, id@, j as int);
                }
                return Some(self.characters[j].clone());
            }
            j += 1;
        }
        proof {
            lemma_find_id(self@, id@);
        }
        None
    }

    /// Overwrites name, abilities and bio of the first record with the given
    /// id, leaving the id itself untouched, and returns a copy of the updated
    /// record; changes nothing when no record matches.
    pub fn update(&mut self, id: &String, fields: CharacterRequest) -> (r: Option<Character>)
        requires
            old(self).wf(),
        ensures
            final(self).wf(),
            match find_id(old(self)@, id@) {
                Some(i) => final(self)@ == old(self)@.update(
                    i,
                    built_view(old(self)@[i].id, fields@),
                ) && (r matches Some(c) && c@ == final(self)@[i]),
                None => final(self)@ == old(self)@ && r is None,
            },
    {
        let mut j: usize = 0;
        while j < self.characters.len()
            invariant
                self == old(self),
                self.wf(),
                j <= self.characters.len(),
                forall|k: int| 0 <= k < j ==> self@[k].id != id@,
            decreases self.characters.len() - j,
        {
            if self.characters[j].id == *id {
                let ghost pre = self@;
                let ghost fv = fields@;
                proof {
                    assert(self@[j as int].id == id@);
                    lemma_find_id_at(pre, id@, j as int);
                }
                let ghost cpre = self.characters@;
                let ghost pj = j as int;
                let prev = self.characters.remove(j);
                let next = Character {
                    name: fields.name,
                    id: prev.id,
                    abilities: fields.abilities,
                    bio: fields.bio,
                };
                self.characters.insert(j, next);
                let copy = self.characters[j].clone();
                proof {
                    let post = pre.update(pj, built_view(pre[pj].id, fv));
                    cpre.remove_ensures(pj);
                    cpre.remove(pj).insert_ensures(pj, next);
                    assert forall|k: int| 0 <= k < self@.len() implies self@[k] == post[k] by {
                        if k < pj {
                            assert(self.characters@[k] == cpre.remove(pj)[k]);
                            assert(cpre.remove(pj)[k] == cpre[k]);
                        } else if k == pj {
                            assert(self.characters@[k] == next);
                            assert(next@ =~= built_view(pre[pj].id, fv));
                        } else {
                            assert(self.characters@[k] == cpre.remove(pj)[k - 1]);
                            assert(cpre.remove(pj)[k - 1] == cpre[k]);
                        }
                    }
                    assert(self@ =~= post);
                    assert forall|a: int, b: int| 0 <= a < b < self@.len() implies self@[a].id
                        != self@[b].id by {
                        assert(self@[a].id == pre[a].id);
                        assert(self@[b].id == pre[b].id);
                    }
                }
                return Some(copy);
            }
            j += 1;
        }
        proof {
            lemma_find_id(self@, id@);
        }
        None
    }

    /// Removes the first record with the given id; reports whether a removal
    /// occurred.
    pub fn remove(&mut self, id: &String) -> (r: bool)
        requires
            old(self).wf(),
        ensures
            final(self).wf(),
            match find_id(old(self)@, id@) {
                Some(i) => r == true && final(self)@ == old(self)@.remove(i),
                None => r == false && final(self)@ == old(self)@,
            },
    {
        let mut j: usize = 0;
        while j < self.characters.len()
            invariant
                self == old(self),
                self.wf(),
                j <= self.characters.len(),
                forall|k: int| 0 <= k < j ==> self@[k].id != id@,
            decreases self.characters.len() - j,
        {
            if self.characters[j].id == *id {
                let ghost pre = self@;
                proof {
                    assert(self@[j as int].id == id@);
                    lemma_find_id_at(pre, id@, j as int);
                }
                let ghost cpre = self.characters@;
                let ghost pj = j as int;
                self.characters.remove(j);
                proof {
                    cpre.remove_ensures(pj);
                    assert forall|k: int| 0 <= k < self@.len() implies self@[k] == pre.remove(
                        pj,
                    )[k] by {
                        pre.remove_ensures(pj);
                        if k < pj {
                            assert(self.characters@[k] == cpre[k]);
                            assert(pre.remove(pj)[k] == pre[k]);
                        } else {
                            assert(self.characters@[k] == cpre[k + 1]);
                            assert(pre.remove(pj)[k] == pre[k + 1]);
                        }
                    }
                    assert(self@ =~= pre.remove(pj));
                    assert forall|a: int, b: int| 0 <= a < b < self@.len() implies self@[a].id
                        != self@[b].id by {
                        pre.remove_ensures(pj);
                        if a < pj {
                            assert(self@[a].id == pre[a].id);
                        } else {
                            assert(self@[a].id == pre[a + 1].id);
                        }
                        if b < pj {
                            assert(self@[b].id == pre[b].id);
                        } else {
                            assert(self@[b].id == pre[b + 1].id);
                        }
                    }
                }
                return true;
            }
            j += 1;
        }
        proof {
            lemma_find_id(self@, id@);
        }
        false
    }
}

} // verus!
