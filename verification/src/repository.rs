//! The repository contract and its in-memory implementation.
//!
//! A repository stores at most one entity per identifier.  Its observable
//! contents are modelled as a map from identifier to the stored name and the
//! (unordered) collection of stored tag names; every operation's contract is
//! stated over that map.  Each implementation additionally publishes its own,
//! stronger guarantees through the `*_post` hooks of the trait.

use vstd::prelude::*;
use vstd::multiset::Multiset;

use crate::entities::{tag_name, Pokemon, PokemonName, PokemonNumber, PokemonType, PokemonTypes};

verus! {

broadcast use vstd::seq_lib::group_to_multiset_ensures, crate::entities::lemma_number_view_injective;

pub enum InsertError {
    Conflict,
    Unknown,
}

pub enum RetrieveAllError {
    Unknown,
}

pub enum RetrieveError {
    Unknown,
    NotFound,
}

pub enum DeleteError {
    Unknown,
    NotFound,
}

/// What a repository stores for one identifier: the name, and the tag names
/// as an unordered collection.
pub type StoredEntry = (Seq<char>, Multiset<Seq<char>>);

/// The modelled contents of a repository.
pub type StoredMap = Map<u16, StoredEntry>;

/// The views of a sequence of strings.
pub open spec fn string_views(v: Seq<String>) -> Seq<Seq<char>> {
    v.map_values(|s: String| s@)
}

/// The canonical names of a sequence of tags, in order.
pub open spec fn tag_names(ts: Seq<PokemonType>) -> Seq<Seq<char>> {
    ts.map_values(|t: PokemonType| tag_name(t))
}

/// The unordered collection of tag names carried by a tag list.
pub open spec fn tag_name_multiset(ts: Seq<PokemonType>) -> Multiset<Seq<char>> {
    tag_names(ts).to_multiset()
}

/// The entry an entity contributes to the stored contents.
pub open spec fn entry_of(p: Pokemon) -> StoredEntry {
    (p.name@, tag_name_multiset(p.types@))
}

/// A valid entity: its identifier in range, its name non-empty, its tag
/// list non-empty.  Entities built from successfully parsed value objects
/// have it; a repository only ever stores and returns such entities.
pub open spec fn valid_entity(p: Pokemon) -> bool {
    PokemonNumber::valid(p.number@) && p.name@.len() > 0 && p.types@.len() > 0
}

/// Every entity of the sequence is valid.
pub open spec fn all_valid(s: Seq<Pokemon>) -> bool {
    forall|i: int| 0 <= i < s.len() ==> valid_entity(#[trigger] s[i])
}

/// Two entities that agree on identifier, name, and the ordered tag list.
pub open spec fn same_entity(a: Pokemon, b: Pokemon) -> bool {
    a.number == b.number && a.name == b.name && a.types@ == b.types@
}

/// No two entities of the sequence share an identifier.
pub open spec fn distinct_numbers(s: Seq<Pokemon>) -> bool {
    forall|i: int, j: int| 0 <= i < j < s.len() ==> s[i].number@ != s[j].number@
}

/// Ascending, and therefore pairwise distinct, identifiers.
pub open spec fn strictly_sorted_by_number(s: Seq<Pokemon>) -> bool {
    forall|i: int, j: int| 0 <= i < j < s.len() ==> s[i].number@ < s[j].number@
}

/// The stored contents of a sequence of entities, keyed by identifier.
pub open spec fn stored_of_seq(s: Seq<Pokemon>) -> StoredMap
    decreases s.len(),
{
    if s.len() == 0 {
        Map::empty()
    } else {
        stored_of_seq(s.drop_last()).insert(s.last().number@, entry_of(s.last()))
    }
}

/// The shared contract of `insert`: success is only for an absent identifier
/// and adds exactly the given entity, echoing it back; `Conflict` is only for
/// a present identifier and changes nothing; a failure leaves the contents
/// either unchanged or — only where the identifier was absent — with the one
/// complete entity added: never partially modified, and never replacing a
/// present entry.
pub open spec fn insert_contract(
    pre: StoredMap,
    post: StoredMap,
    number: PokemonNumber,
    name: PokemonName,
    types: PokemonTypes,
    r: Result<Pokemon, InsertError>,
) -> bool {
    match r {
        Ok(p) => !pre.contains_key(number@) && post == pre.insert(
            number@,
            (name@, tag_name_multiset(types@)),
        ) && p.number == number && p.name == name && p.types@ == types@,
        Err(InsertError::Conflict) => pre.contains_key(number@) && post == pre,
        Err(InsertError::Unknown) => post == pre || (!pre.contains_key(number@) && post
            == pre.insert(number@, (name@, tag_name_multiset(types@)))),
    }
}

/// The shared contract of `fetch_all`: on success, every returned entity is
/// valid and stored under its identifier, every stored identifier is
/// returned, and the result is ordered by ascending identifier.
pub open spec fn fetch_all_contract(
    stored: StoredMap,
    r: Result<Vec<Pokemon>, RetrieveAllError>,
) -> bool {
    match r {
        Ok(v) => strictly_sorted_by_number(v@) && (forall|i: int|
            0 <= i < v@.len() ==> #[trigger] stored.contains_key(v@[i].number@)
                && stored[v@[i].number@] == entry_of(v@[i]) && valid_entity(v@[i])) && (forall|k: u16|
            #[trigger] stored.contains_key(k) ==> exists|i: int|
                0 <= i < v@.len() && v@[i].number@ == k),
        Err(RetrieveAllError::Unknown) => true,
    }
}

/// The shared contract of `fetch_one`: success returns the valid entity
/// stored under the requested identifier; `NotFound` is exactly for an
/// absent one.
pub open spec fn fetch_one_contract(
    stored: StoredMap,
    number: PokemonNumber,
    r: Result<Pokemon, RetrieveError>,
) -> bool {
    match r {
        Ok(p) => stored.contains_key(number@) && p.number == number && stored[number@] == entry_of(
            p,
        ) && valid_entity(p),
        Err(RetrieveError::NotFound) => !stored.contains_key(number@),
        Err(RetrieveError::Unknown) => true,
    }
}

/// The shared contract of `delete`: success is only for a present identifier
/// and removes exactly that entry; `NotFound` is exactly for an absent one;
/// a failure changes nothing.
pub open spec fn delete_contract(
    pre: StoredMap,
    post: StoredMap,
    number: PokemonNumber,
    r: Result<(), DeleteError>,
) -> bool {
    match r {
        Ok(_) => pre.contains_key(number@) && post == pre.remove(number@),
        Err(DeleteError::NotFound) => !pre.contains_key(number@) && post == pre,
        Err(DeleteError::Unknown) => post == pre,
    }
}

/// The storage abstraction: four operations over one instance, each returning
/// a typed success value or a typed error.  `stored` is the modelled
/// contents; `inv` is the well-formedness every operation preserves; the
/// `*_post` hooks are the implementation-specific guarantees an
/// implementation publishes beyond the shared contract.
pub trait Repository: Sized {
    spec fn inv(&self) -> bool;

    spec fn stored(&self) -> StoredMap;

    spec fn insert_post(
        pre: Self,
        post: Self,
        number: PokemonNumber,
        name: PokemonName,
        types: PokemonTypes,
        r: Result<Pokemon, InsertError>,
    ) -> bool;

    spec fn fetch_all_post(pre: Self, r: Result<Vec<Pokemon>, RetrieveAllError>) -> bool;

    spec fn fetch_one_post(pre: Self, number: PokemonNumber, r: Result<Pokemon, RetrieveError>) -> bool;

    spec fn delete_post(pre: Self, post: Self, number: PokemonNumber, r: Result<(), DeleteError>) -> bool;

    /// Stores a new entity built from the three value objects.  Callers
    /// validate before storage is touched, so the value objects arrive
    /// valid.
    fn insert(&mut self, number: PokemonNumber, name: PokemonName, types: PokemonTypes) -> (r:
        Result<Pokemon, InsertError>)
        requires
            old(self).inv(),
            PokemonNumber::valid(number@),
            name@.len() > 0,
            types@.len() > 0,
        ensures
            final(self).inv(),
            insert_contract(old(self).stored(), final(self).stored(), number, name, types, r),
            Self::insert_post(*old(self), *final(self), number, name, types, r),
    ;

    /// Returns every stored entity, ordered by ascending identifier.
    fn fetch_all(&self) -> (r: Result<Vec<Pokemon>, RetrieveAllError>)
        requires
            self.inv(),
        ensures
            fetch_all_contract(self.stored(), r),
            Self::fetch_all_post(*self, r),
    ;

    /// Returns the entity stored under the given identifier.
    fn fetch_one(&self, number: PokemonNumber) -> (r: Result<Pokemon, RetrieveError>)
        requires
            self.inv(),
        ensures
            fetch_one_contract(self.stored(), number, r),
            Self::fetch_one_post(*self, number, r),
    ;

    /// Removes the entity stored under the given identifier.
    fn delete_pokemon(&mut self, number: PokemonNumber) -> (r: Result<(), DeleteError>)
        requires
            old(self).inv(),
        ensures
            final(self).inv(),
            delete_contract(old(self).stored(), final(self).stored(), number, r),
            Self::delete_post(*old(self), *final(self), number, r),
    ;
}

/// An identifier is a key of the stored contents exactly when some entity of
/// the sequence carries it.
proof fn lemma_stored_of_seq_contains(s: Seq<Pokemon>)
    ensures
        forall|k: u16| #[trigger]
            stored_of_seq(s).contains_key(k) <==> exists|i: int|
                0 <= i < s.len() && s[i].number@ == k,
    decreases s.len(),
{
    if s.len() > 0 {
        let dl = s.drop_last();
        lemma_stored_of_seq_contains(dl);
        assert(stored_of_seq(s) == stored_of_seq(dl).insert(s.last().number@, entry_of(s.last())));
        assert forall|k: u16| #[trigger] stored_of_seq(s).contains_key(k) implies exists|i: int|
            0 <= i < s.len() && s[i].number@ == k by {
            if k == s.last().number@ {
                assert(s[s.len() - 1].number@ == k);
            } else {
                assert(stored_of_seq(dl).contains_key(k));
                let i = choose|i: int| 0 <= i < dl.len() && dl[i].number@ == k;
                assert(dl[i] == s[i]);
                assert(s[i].number@ == k);
            }
        }
        assert forall|k: u16| (exists|i: int| 0 <= i < s.len() && s[i].number@ == k) implies #[trigger]
            stored_of_seq(s).contains_key(k) by {
            let i = choose|i: int| 0 <= i < s.len() && s[i].number@ == k;
            if i == s.len() - 1 {
                assert(stored_of_seq(s).contains_key(s.last().number@));
            } else {
                assert(dl[i] == s[i]);
                assert(dl[i].number@ == k);
                assert(stored_of_seq(dl).contains_key(k));
            }
        }
    }
}

/// With distinct identifiers, the entry stored under an entity's identifier
/// is that entity's entry.
proof fn lemma_stored_of_seq_at(s: Seq<Pokemon>, i: int)
    requires
        distinct_numbers(s),
        0 <= i < s.len(),
    ensures
        stored_of_seq(s).contains_key(s[i].number@),
        stored_of_seq(s)[s[i].number@] == entry_of(s[i]),
    decreases s.len(),
{
    if i == s.len() - 1 {
    } else {
        assert(s.drop_last()[i] == s[i]);
        lemma_stored_of_seq_at(s.drop_last(), i);
        assert(s[i].number@ != s.last().number@);
    }
}

/// Appending an entity inserts its entry.
proof fn lemma_stored_of_seq_push(s: Seq<Pokemon>, p: Pokemon)
    ensures
        stored_of_seq(s.push(p)) == stored_of_seq(s).insert(p.number@, entry_of(p)),
{
    assert(s.push(p).drop_last() =~= s);
    assert(s.push(p).last() == p);
}

/// With distinct identifiers, removing an entity removes exactly its entry.
proof fn lemma_stored_of_seq_remove(s: Seq<Pokemon>, i: int)
    requires
        distinct_numbers(s),
        0 <= i < s.len(),
    ensures
        stored_of_seq(s.remove(i)) == stored_of_seq(s).remove(s[i].number@),
    decreases s.len(),
{
    let k = s[i].number@;
    if i == s.len() - 1 {
        assert(s.remove(i) =~= s.drop_last());
        lemma_stored_of_seq_contains(s.drop_last());
        assert(!stored_of_seq(s.drop_last()).contains_key(k));
        assert(stored_of_seq(s.drop_last()).insert(k, entry_of(s.last())).remove(k)
            =~= stored_of_seq(s.drop_last()));
    } else {
        let t = s.remove(i);
        assert(t.drop_last() =~= s.drop_last().remove(i));
        assert(t.last() == s.last());
        assert(s.drop_last()[i] == s[i]);
        lemma_stored_of_seq_remove(s.drop_last(), i);
        assert(k != s.last().number@);
        assert(stored_of_seq(s.drop_last()).remove(k).insert(
            s.last().number@,
            entry_of(s.last()),
        ) =~= stored_of_seq(s.drop_last()).insert(s.last().number@, entry_of(s.last())).remove(k));
    }
}

/// An ordered collection of entities guarded by nothing but exclusive
/// access, plus a fault-injection flag set at construction: with the flag
/// on, every operation fails with `Unknown` and nothing is ever stored or
/// removed.
pub struct InMemoryRepository {
    data: Vec<Pokemon>,
    error: bool,
}

impl InMemoryRepository {
    /// The stored entities, in insertion order.
    pub closed spec fn entities(&self) -> Seq<Pokemon> {
        self.data@
    }

    /// Whether the repository was constructed in error mode.
    pub closed spec fn error_mode(&self) -> bool {
        self.error
    }

    pub fn new() -> (r: Self)
        ensures
            r.inv(),
            !r.error_mode(),
            r.entities() == Seq::<Pokemon>::empty(),
            r.stored() == Map::<u16, StoredEntry>::empty(),
    {
        let r = InMemoryRepository { data: Vec::new(), error: false };
        proof {
            assert(r.entities() =~= Seq::<Pokemon>::empty());
            assert(r.stored() =~= Map::<u16, StoredEntry>::empty());
        }
        r
    }

    /// The same contents, with every operation forced to fail.
    pub fn with_error(self) -> (r: Self)
        ensures
            r.error_mode(),
            r.entities() == self.entities(),
            r.inv() == self.inv(),
    {
        InMemoryRepository { data: self.data, error: true }
    }
}

/// Sorts entities with pairwise distinct identifiers into ascending
/// identifier order, keeping exactly the same entities.
pub(crate) fn sort_by_number(input: Vec<Pokemon>) -> (r: Vec<Pokemon>)
    requires
        distinct_numbers(input@),
    ensures
        r@.len() == input@.len(),
        r@.to_multiset() == input@.to_multiset(),
        strictly_sorted_by_number(r@),
{
    let mut rest = input;
    let mut out: Vec<Pokemon> = Vec::new();
    proof {
        assert(out@.to_multiset().add(rest@.to_multiset()) =~= rest@.to_multiset());
    }
    while rest.len() > 0
        invariant
            out@.len() + rest@.len() == input@.len(),
            out@.to_multiset().add(rest@.to_multiset()) == input@.to_multiset(),
            distinct_numbers(rest@),
            strictly_sorted_by_number(out@),
            forall|a: int, b: int|
                0 <= a < out@.len() && 0 <= b < rest@.len() ==> out@[a].number@ < rest@[b].number@,
        decreases rest@.len(),
    {
        let mut m: usize = 0;
        let mut j: usize = 1;
        while j < rest.len()
            invariant
                0 <= m < j <= rest@.len(),
                rest@.len() > 0,
                forall|t: int| 0 <= t < j ==> rest@[m as int].number@ <= rest@[t].number@,
            decreases rest@.len() - j,
        {
            if rest[j].number.value() < rest[m].number.value() {
                m = j;
            }
            j += 1;
        }
        let ghost prev_rest = rest@;
        let ghost prev_out = out@;
        let p = rest.remove(m);
        out.push(p);
        proof {
            assert(out@ == prev_out.push(p));
            assert(rest@ == prev_rest.remove(m as int));
            assert(out@.to_multiset().add(rest@.to_multiset()) =~= input@.to_multiset());
            assert forall|i2: int, j2: int| 0 <= i2 < j2 < rest@.len() implies rest@[i2].number@
                != rest@[j2].number@ by {
                let oi = if i2 < m { i2 } else { i2 + 1 };
                let oj = if j2 < m { j2 } else { j2 + 1 };
                assert(rest@[i2] == prev_rest[oi]);
                assert(rest@[j2] == prev_rest[oj]);
            }
            assert forall|a: int, b: int|
                0 <= a < out@.len() && 0 <= b < rest@.len() implies out@[a].number@
                < rest@[b].number@ by {
                let ob = if b < m { b } else { b + 1 };
                assert(rest@[b] == prev_rest[ob]);
                if a < prev_out.len() {
                    assert(out@[a] == prev_out[a]);
                } else {
                    assert(out@[a] == p);
                    assert(p.number@ <= prev_rest[ob].number@);
                    assert(p.number@ != prev_rest[ob].number@);
                }
            }
            assert forall|i2: int, j2: int| 0 <= i2 < j2 < out@.len() implies out@[i2].number@
                < out@[j2].number@ by {
                if j2 < prev_out.len() {
                    assert(out@[i2] == prev_out[i2]);
                    assert(out@[j2] == prev_out[j2]);
                } else {
                    assert(out@[j2] == p);
                    assert(out@[i2] == prev_out[i2]);
                    assert(prev_out[i2].number@ < prev_rest[m as int].number@);
                }
            }
        }
    }
    proof {
        assert(rest@.to_multiset().len() == 0);
        assert(rest@.to_multiset() =~= Multiset::<Pokemon>::empty());
        assert(out@.to_multiset().add(Multiset::<Pokemon>::empty()) =~= out@.to_multiset());
    }
    out
}

impl Repository for InMemoryRepository {
    open spec fn inv(&self) -> bool {
        distinct_numbers(self.entities()) && all_valid(self.entities())
    }

    open spec fn stored(&self) -> StoredMap {
        stored_of_seq(self.entities())
    }

    /// With the flag on: always `Unknown`, nothing changed.  Otherwise the
    /// outcome is exact: `Conflict` for a present identifier, success for an
    /// absent one, appending the entity (tag order preserved).
    open spec fn insert_post(
        pre: Self,
        post: Self,
        number: PokemonNumber,
        name: PokemonName,
        types: PokemonTypes,
        r: Result<Pokemon, InsertError>,
    ) -> bool {
        &&& post.error_mode() == pre.error_mode()
        &&& if pre.error_mode() {
            r matches Err(InsertError::Unknown) && post.entities() == pre.entities()
        } else if exists|j: int|
            0 <= j < pre.entities().len() && pre.entities()[j].number@ == number@ {
            r matches Err(InsertError::Conflict) && post.entities() == pre.entities()
        } else {
            &&& (r matches Ok(p) && p.number == number && p.name == name && p.types@ == types@)
            &&& post.entities().len() == pre.entities().len() + 1
            &&& post.entities().drop_last() == pre.entities()
            &&& post.entities().last().number == number
            &&& post.entities().last().name == name
            &&& post.entities().last().types@ == types@
        }
    }

    /// With the flag on: always `Unknown`.  Otherwise success, returning one
    /// copy of each stored entity with its tag order preserved.
    open spec fn fetch_all_post(pre: Self, r: Result<Vec<Pokemon>, RetrieveAllError>) -> bool {
        if pre.error_mode() {
            r matches Err(RetrieveAllError::Unknown)
        } else {
            r matches Ok(v) && v@.len() == pre.entities().len() && forall|i: int|
                0 <= i < v@.len() ==> exists|j: int|
                    0 <= j < pre.entities().len() && same_entity(#[trigger] v@[i], pre.entities()[j])
        }
    }

    /// With the flag on: always `Unknown`.  Otherwise a copy of the stored
    /// entity with that identifier (tag order preserved), or `NotFound`.
    open spec fn fetch_one_post(
        pre: Self,
        number: PokemonNumber,
        r: Result<Pokemon, RetrieveError>,
    ) -> bool {
        if pre.error_mode() {
            r matches Err(RetrieveError::Unknown)
        } else if exists|j: int|
            0 <= j < pre.entities().len() && pre.entities()[j].number@ == number@ {
            r matches Ok(p) && exists|j: int|
                0 <= j < pre.entities().len() && pre.entities()[j].number@ == number@
                    && same_entity(p, pre.entities()[j])
        } else {
            r matches Err(RetrieveError::NotFound)
        }
    }

    /// With the flag on: always `Unknown`, nothing changed.  Otherwise the
    /// entity with that identifier is removed in place, or `NotFound`.
    open spec fn delete_post(
        pre: Self,
        post: Self,
        number: PokemonNumber,
        r: Result<(), DeleteError>,
    ) -> bool {
        &&& post.error_mode() == pre.error_mode()
        &&& if pre.error_mode() {
            r matches Err(DeleteError::Unknown) && post.entities() == pre.entities()
        } else if exists|j: int|
            0 <= j < pre.entities().len() && pre.entities()[j].number@ == number@ {
            r matches Ok(_) && exists|j: int|
                0 <= j < pre.entities().len() && pre.entities()[j].number@ == number@
                    && post.entities() == pre.entities().remove(j)
        } else {
            r matches Err(DeleteError::NotFound) && post.entities() == pre.entities()
        }
    }

    #[verifier::loop_isolation(false)]
    fn insert(&mut self, number: PokemonNumber, name: PokemonName, types: PokemonTypes) -> (r:
        Result<Pokemon, InsertError>) {
        if self.error {
            return Err(InsertError::Unknown);
        }
        let mut i: usize = 0;
        while i < self.data.len()
            invariant
                *self == *old(self),
                i <= self.data@.len(),
                forall|j: int| 0 <= j < i ==> self.data@[j].number@ != number@,
            decreases self.data@.len() - i,
        {
            if self.data[i].number.value() == number.value() {
                proof {
                    lemma_stored_of_seq_at(self.data@, i as int);
                }
                return Err(InsertError::Conflict);
            }
            i += 1;
        }
        let pokemon = Pokemon::new(number, name, types);
        let copy = pokemon.clone();
        let ghost prev = self.data@;
        self.data.push(copy);
        proof {
            lemma_stored_of_seq_push(prev, self.data@.last());
            assert(self.data@.drop_last() =~= prev);
            lemma_stored_of_seq_contains(prev);
            assert(self.stored() =~= old(self).stored().insert(
                number@,
                (name@, tag_name_multiset(types@)),
            ));
        }
        Ok(pokemon)
    }

    #[verifier::loop_isolation(false)]
    fn fetch_all(&self) -> (r: Result<Vec<Pokemon>, RetrieveAllError>) {
        if self.error {
            return Err(RetrieveAllError::Unknown);
        }
        let mut copies: Vec<Pokemon> = Vec::new();
        let mut i: usize = 0;
        while i < self.data.len()
            invariant
                i <= self.data@.len(),
                copies@.len() == i,
                forall|j: int| 0 <= j < i ==> same_entity(#[trigger] copies@[j], self.data@[j]),
            decreases self.data@.len() - i,
        {
            copies.push(self.data[i].clone());
            i += 1;
        }
        proof {
            assert forall|a: int, b: int| 0 <= a < b < copies@.len() implies copies@[a].number@
                != copies@[b].number@ by {
                assert(same_entity(copies@[a], self.data@[a]));
                assert(same_entity(copies@[b], self.data@[b]));
            }
        }
        let ghost copied = copies@;
        let sorted = sort_by_number(copies);
        proof {
            lemma_stored_of_seq_contains(self.data@);
            assert forall|i2: int| 0 <= i2 < sorted@.len() implies #[trigger] self.stored().contains_key(
                sorted@[i2].number@,
            ) && self.stored()[sorted@[i2].number@] == entry_of(sorted@[i2]) && exists|j: int|
                0 <= j < self.entities().len() && same_entity(sorted@[i2], self.entities()[j]) by {
                assert(sorted@.contains(sorted@[i2]));
                assert(sorted@.to_multiset().count(sorted@[i2]) > 0);
                assert(copied.to_multiset().count(sorted@[i2]) > 0);
                assert(copied.contains(sorted@[i2]));
                let j = choose|j: int| 0 <= j < copied.len() && copied[j] == sorted@[i2];
                assert(same_entity(copied[j], self.data@[j]));
                lemma_stored_of_seq_at(self.data@, j);
                assert(entry_of(self.data@[j]) == entry_of(sorted@[i2]));
            }
            assert forall|i2: int| 0 <= i2 < sorted@.len() implies exists|j: int|
                0 <= j < self.entities().len() && same_entity(#[trigger] sorted@[i2], self.entities()[j]) by {
                assert(sorted@.contains(sorted@[i2]));
                assert(sorted@.to_multiset().count(sorted@[i2]) > 0);
                assert(copied.to_multiset().count(sorted@[i2]) > 0);
                assert(copied.contains(sorted@[i2]));
                let j = choose|j: int| 0 <= j < copied.len() && copied[j] == sorted@[i2];
                assert(same_entity(copied[j], self.data@[j]));
            }
            assert forall|k: u16| #[trigger] self.stored().contains_key(k) implies exists|i2: int|
                0 <= i2 < sorted@.len() && sorted@[i2].number@ == k by {
                let j = choose|j: int| 0 <= j < self.data@.len() && self.data@[j].number@ == k;
                assert(same_entity(copied[j], self.data@[j]));
                assert(copied.contains(copied[j]));
                assert(copied.to_multiset().count(copied[j]) > 0);
                assert(sorted@.to_multiset().count(copied[j]) > 0);
                assert(sorted@.contains(copied[j]));
                let i2 = choose|i2: int| 0 <= i2 < sorted@.len() && sorted@[i2] == copied[j];
                assert(sorted@[i2].number@ == k);
            }
            assert(fetch_all_contract(
                self.stored(),
                Result::<Vec<Pokemon>, RetrieveAllError>::Ok(sorted),
            ));
        }
        Ok(sorted)
    }

    #[verifier::loop_isolation(false)]
    fn fetch_one(&self, number: PokemonNumber) -> (r: Result<Pokemon, RetrieveError>) {
        if self.error {
            return Err(RetrieveError::Unknown);
        }
        let mut i: usize = 0;
        while i < self.data.len()
            invariant
                i <= self.data@.len(),
                forall|j: int| 0 <= j < i ==> self.data@[j].number@ != number@,
            decreases self.data@.len() - i,
        {
            if self.data[i].number.value() == number.value() {
                let p = self.data[i].clone();
                proof {
                    lemma_stored_of_seq_at(self.data@, i as int);
                    assert(same_entity(p, self.data@[i as int]));
                    assert(entry_of(p) == entry_of(self.data@[i as int]));
                }
                return Ok(p);
            }
            i += 1;
        }
        proof {
            lemma_stored_of_seq_contains(self.data@);
        }
        Err(RetrieveError::NotFound)
    }

    #[verifier::loop_isolation(false)]
    fn delete_pokemon(&mut self, number: PokemonNumber) -> (r: Result<(), DeleteError>) {
        if self.error {
            return Err(DeleteError::Unknown);
        }
        let mut i: usize = 0;
        while i < self.data.len()
            invariant
                *self == *old(self),
                i <= self.data@.len(),
                forall|j: int| 0 <= j < i ==> self.data@[j].number@ != number@,
            decreases self.data@.len() - i,
        {
            if self.data[i].number.value() == number.value() {
                let ghost prev = self.data@;
                proof {
                    lemma_stored_of_seq_at(prev, i as int);
                    lemma_stored_of_seq_remove(prev, i as int);
                }
                self.data.remove(i);
                proof {
                    assert forall|a: int, b: int| 0 <= a < b < self.data@.len() implies self.data@[a].number@
                        != self.data@[b].number@ by {
                        let oa = if a < i { a } else { a + 1 };
                        let ob = if b < i { b } else { b + 1 };
                        assert(self.data@[a] == prev[oa]);
                        assert(self.data@[b] == prev[ob]);
                    }
                }
                return Ok(());
            }
            i += 1;
        }
        proof {
            lemma_stored_of_seq_contains(self.data@);
        }
        Err(DeleteError::NotFound)
    }
}

/// Idempotent rejection: inserting an identifier twice into an empty
/// repository (not in error mode) yields success and then `Conflict`, and
/// the stored entry for that identifier remains the one the first insert put
/// there.
pub proof fn lemma_idempotent_rejection(
    pre: InMemoryRepository,
    mid: InMemoryRepository,
    post: InMemoryRepository,
    number: PokemonNumber,
    name: PokemonName,
    types: PokemonTypes,
    r1: Result<Pokemon, InsertError>,
    name2: PokemonName,
    types2: PokemonTypes,
    r2: Result<Pokemon, InsertError>,
)
    requires
        pre.inv(),
        !pre.error_mode(),
        pre.entities().len() == 0,
        InMemoryRepository::insert_post(pre, mid, number, name, types, r1),
        InMemoryRepository::insert_post(mid, post, number, name2, types2, r2),
    ensures
        r1 matches Ok(_),
        r2 matches Err(InsertError::Conflict),
        post.entities() == mid.entities(),
        mid.stored().contains_key(number@),
        mid.stored()[number@] == (name@, tag_name_multiset(types@)),
{
    assert(mid.entities().len() == 1);
    assert(mid.entities()[0] == mid.entities().last());
    assert(mid.entities()[0].number@ == number@);
    lemma_stored_of_seq_at(mid.entities(), 0);
    assert(entry_of(mid.entities()[0]) == (name@, tag_name_multiset(types@)));
}

/// Round trip: after a successful insert of an absent identifier, fetching
/// that identifier returns an entity with the same name and the same tags,
/// in the same order.
pub proof fn lemma_insert_fetch_round_trip(
    pre: InMemoryRepository,
    post: InMemoryRepository,
    number: PokemonNumber,
    name: PokemonName,
    types: PokemonTypes,
    p: Pokemon,
    rf: Result<Pokemon, RetrieveError>,
)
    requires
        pre.inv(),
        !pre.error_mode(),
        !pre.stored().contains_key(number@),
        InMemoryRepository::insert_post(pre, post, number, name, types, Ok(p)),
        InMemoryRepository::fetch_one_post(post, number, rf),
    ensures
        (rf matches Ok(q) && q.number == number && q.name == name && q.types@ == types@),
{
    lemma_stored_of_seq_contains(pre.entities());
    let last = post.entities().len() - 1;
    assert(post.entities()[last] == post.entities().last());
    assert(post.entities()[last].number@ == number@);
    let q = rf->Ok_0;
    let j = choose|j: int|
        0 <= j < post.entities().len() && post.entities()[j].number@ == number@ && same_entity(
            q,
            post.entities()[j],
        );
    if j < last {
        assert(pre.entities()[j] == post.entities().drop_last()[j]);
        assert(false);
    }
}

/// Deletion: after a successful delete, fetching the same identifier
/// answers `NotFound`.
pub proof fn lemma_delete_then_fetch_not_found(
    pre: InMemoryRepository,
    post: InMemoryRepository,
    number: PokemonNumber,
    rf: Result<Pokemon, RetrieveError>,
)
    requires
        pre.inv(),
        !pre.error_mode(),
        InMemoryRepository::delete_post(pre, post, number, Ok(())),
        InMemoryRepository::fetch_one_post(post, number, rf),
    ensures
        rf matches Err(RetrieveError::NotFound),
{
    let j = choose|j: int|
        0 <= j < pre.entities().len() && pre.entities()[j].number@ == number@ && post.entities()
            == pre.entities().remove(j);
    assert forall|i: int| 0 <= i < post.entities().len() implies post.entities()[i].number@
        != number@ by {
        let oi = if i < j {
            i
        } else {
            i + 1
        };
        assert(post.entities()[i] == pre.entities()[oi]);
    }
}

} // verus!
