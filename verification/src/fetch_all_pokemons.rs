//! Use case: fetch every stored entity, ordered by ascending identifier.

use vstd::prelude::*;

use crate::entities::Pokemon;
use crate::repository::{entry_of, string_views, tag_names, Repository, RetrieveAllError, StoredMap};

verus! {

pub enum Error {
    Unknown,
}

/// One fetched entity, as raw fields.
pub struct RetrieveAllResponse {
    pub number: u16,
    pub name: String,
    pub types: Vec<String>,
}

/// A response that carries exactly an entity's fields, tag order included.
pub open spec fn reflects_entity(p: Pokemon, resp: RetrieveAllResponse) -> bool {
    resp.number == p.number@ && resp.name@ == p.name@ && string_views(resp.types@) == tag_names(
        p.types@,
    )
}

/// What a successful response promises: ascending identifiers, each response
/// matching the stored entry under its identifier, and every stored
/// identifier present.
pub open spec fn retrieve_all_contract(
    stored: StoredMap,
    r: Result<Vec<RetrieveAllResponse>, Error>,
) -> bool {
    match r {
        Ok(v) => (forall|i: int, j: int| 0 <= i < j < v@.len() ==> v@[i].number < v@[j].number)
            && (forall|i: int|
            0 <= i < v@.len() ==> #[trigger] stored.contains_key(v@[i].number)
                && stored[v@[i].number].0 == v@[i].name@ && stored[v@[i].number].1 == string_views(
                v@[i].types@,
            ).to_multiset()) && (forall|k: u16|
            #[trigger] stored.contains_key(k) ==> exists|i: int|
                0 <= i < v@.len() && v@[i].number == k),
        Err(Error::Unknown) => true,
    }
}

proof fn lemma_retrieve_all_ok(stored: StoredMap, v: Vec<RetrieveAllResponse>)
    requires
        forall|i: int, j: int| 0 <= i < j < v@.len() ==> v@[i].number < v@[j].number,
        forall|i: int|
            0 <= i < v@.len() ==> #[trigger] stored.contains_key(v@[i].number)
                && stored[v@[i].number].0 == v@[i].name@ && stored[v@[i].number].1 == string_views(
                v@[i].types@,
            ).to_multiset(),
        forall|k: u16|
            #[trigger] stored.contains_key(k) ==> exists|i: int|
                0 <= i < v@.len() && v@[i].number == k,
    ensures
        retrieve_all_contract(stored, Result::<Vec<RetrieveAllResponse>, Error>::Ok(v)),
{
    let r = Result::<Vec<RetrieveAllResponse>, Error>::Ok(v);
    assert(r matches Ok(v2) && v2 == v);
}

/// Returns every stored entity as raw fields, ordered by ascending
/// identifier.  An empty store yields an empty sequence, not an error.
#[verifier::loop_isolation(false)]
#[verifier::rlimit(60)]
pub fn execute<R: Repository>(repo: &R) -> (r: Result<Vec<RetrieveAllResponse>, Error>)
    requires
        repo.inv(),
    ensures
        retrieve_all_contract(repo.stored(), r),
        exists|rr: Result<Vec<Pokemon>, RetrieveAllError>|
            #[trigger] R::fetch_all_post(*repo, rr) && (match rr {
                Ok(v) => (r matches Ok(out2) && out2@.len() == v@.len() && (forall|i: int|
                    0 <= i < v@.len() ==> reflects_entity(v@[i], #[trigger] out2@[i]))),
                Err(RetrieveAllError::Unknown) => r matches Err(Error::Unknown),
            }),
{
    let rr = repo.fetch_all();
    let ghost grr = rr;
    match rr {
        Ok(pokemons) => {
            let mut out: Vec<RetrieveAllResponse> = Vec::new();
            let mut i: usize = 0;
            while i < pokemons.len()
                invariant
                    i <= pokemons@.len(),
                    out@.len() == i,
                    forall|j: int|
                        0 <= j < i ==> reflects_entity(pokemons@[j], #[trigger] out@[j]),
                decreases pokemons@.len() - i,
            {
                let ts = pokemons[i].types.names();
                proof {
                    assert(string_views(ts@) =~= tag_names(pokemons@[i as int].types@));
                }
                out.push(
                    RetrieveAllResponse {
                        number: pokemons[i].number.value(),
                        name: pokemons[i].name.value(),
                        types: ts,
                    },
                );
                i += 1;
            }
            proof {
                assert forall|i2: int|
                    0 <= i2 < out@.len() implies #[trigger] repo.stored().contains_key(
                    out@[i2].number,
                ) && repo.stored()[out@[i2].number].0 == out@[i2].name@
                    && repo.stored()[out@[i2].number].1 == string_views(
                    out@[i2].types@,
                ).to_multiset() by {
                    assert(repo.stored().contains_key(pokemons@[i2].number@));
                    assert(repo.stored()[pokemons@[i2].number@] == entry_of(pokemons@[i2]));
                }
                assert forall|k: u16| #[trigger]
                    repo.stored().contains_key(k) implies exists|i2: int|
                    0 <= i2 < out@.len() && out@[i2].number == k by {
                    let i0 = choose|i0: int|
                        0 <= i0 < pokemons@.len() && pokemons@[i0].number@ == k;
                    assert(out@[i0].number == k);
                }
                assert forall|i2: int, j2: int|
                    0 <= i2 < j2 < out@.len() implies out@[i2].number < out@[j2].number by {
                    assert(out@[i2].number == pokemons@[i2].number@);
                    assert(out@[j2].number == pokemons@[j2].number@);
                    assert(pokemons@[i2].number@ < pokemons@[j2].number@);
                }
                lemma_retrieve_all_ok(repo.stored(), out);
            }
            Ok(out)
        },
        Err(RetrieveAllError::Unknown) => Err(Error::Unknown),
    }
}

} // verus!
