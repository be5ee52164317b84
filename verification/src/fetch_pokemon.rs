//! Use case: fetch one entity by its raw identifier.

use vstd::prelude::*;

use crate::entities::{Pokemon, PokemonNumber};
use crate::repository::{entry_of, string_views, tag_names, Repository, RetrieveError};

verus! {

pub struct Request {
    pub number: u16,
}

/// The fetched entity, as raw fields.
pub struct RetrieveResponse {
    pub number: u16,
    pub name: String,
    pub types: Vec<String>,
}

pub enum Error {
    Unknown,
    BadRequest,
    NotFound,
}

/// A response that carries exactly an entity's fields, tag order included.
pub open spec fn reflects_entity(p: Pokemon, resp: RetrieveResponse) -> bool {
    resp.number == p.number@ && resp.name@ == p.name@ && string_views(resp.types@) == tag_names(
        p.types@,
    )
}

/// How the repository's own outcome surfaces as the use case's.
pub open spec fn reflects_retrieve_result(
    rr: Result<Pokemon, RetrieveError>,
    r: Result<RetrieveResponse, Error>,
) -> bool {
    match rr {
        Ok(p) => (r matches Ok(resp) && reflects_entity(p, resp)),
        Err(RetrieveError::NotFound) => r matches Err(Error::NotFound),
        Err(RetrieveError::Unknown) => r matches Err(Error::Unknown),
    }
}

/// Validates the raw identifier and fetches the entity stored under it.
/// `BadRequest` exactly when the identifier is out of range; `NotFound`
/// only when it is absent; success returns the stored name and tags.
pub fn execute<R: Repository>(repo: &R, req: Request) -> (r: Result<RetrieveResponse, Error>)
    requires
        repo.inv(),
    ensures
        r matches Err(Error::BadRequest) <==> !PokemonNumber::valid(req.number),
        (match r {
            Ok(resp) => repo.stored().contains_key(req.number) && resp.number == req.number
                && repo.stored()[req.number].0 == resp.name@ && repo.stored()[req.number].1
                == string_views(resp.types@).to_multiset(),
            Err(Error::BadRequest) => true,
            Err(Error::NotFound) => !repo.stored().contains_key(req.number),
            Err(Error::Unknown) => true,
        }),
        PokemonNumber::valid(req.number) ==> (exists|n: PokemonNumber, rr: Result<
            Pokemon,
            RetrieveError,
        >|
            n@ == req.number && #[trigger] R::fetch_one_post(*repo, n, rr)
                && reflects_retrieve_result(rr, r)),
{
    let number = match PokemonNumber::try_from(req.number) {
        Ok(number) => number,
        Err(_) => {
            return Err(Error::BadRequest);
        },
    };
    let ghost gn = number;
    let rr = repo.fetch_one(number);
    let ghost grr = rr;
    match rr {
        Ok(p) => {
            let ts = p.types.names();
            proof {
                assert(repo.stored()[number@] == entry_of(p));
                assert(string_views(ts@) =~= tag_names(p.types@));
            }
            let resp = RetrieveResponse {
                number: p.number.value(),
                name: p.name.value(),
                types: ts,
            };
            proof {
                assert(reflects_entity(p, resp));
            }
            Ok(resp)
        },
        Err(RetrieveError::NotFound) => Err(Error::NotFound),
        Err(RetrieveError::Unknown) => Err(Error::Unknown),
    }
}

} // verus!
