//! Use case: delete one entity by its raw identifier.

use vstd::prelude::*;

use crate::entities::PokemonNumber;
use crate::repository::{DeleteError, Repository};

verus! {

/// How the repository's own outcome surfaces as the use case's.
pub open spec fn reflects_delete_result(rr: Result<(), DeleteError>, r: Result<(), Error>) -> bool {
    match rr {
        Ok(_) => r is Ok,
        Err(DeleteError::NotFound) => r matches Err(Error::NotFound),
        Err(DeleteError::Unknown) => r matches Err(Error::Unknown),
    }
}

pub struct Request {
    pub number: u16,
}

pub enum Error {
    Unknown,
    BadRequest,
    NotFound,
}

/// Validates the raw identifier and removes the entity stored under it.
/// `BadRequest` exactly when the identifier is out of range; `NotFound`
/// only when it is absent; success removes exactly that entry.
pub fn execute<R: Repository>(repo: &mut R, req: Request) -> (r: Result<(), Error>)
    requires
        old(repo).inv(),
    ensures
        final(repo).inv(),
        r matches Err(Error::BadRequest) <==> !PokemonNumber::valid(req.number),
        (match r {
            Ok(_) => old(repo).stored().contains_key(req.number) && final(repo).stored() == old(repo).stored().remove(req.number),
            Err(Error::BadRequest) => final(repo).stored() == old(repo).stored(),
            Err(Error::NotFound) => !old(repo).stored().contains_key(req.number) && final(repo).stored() == old(repo).stored(),
            Err(Error::Unknown) => final(repo).stored() == old(repo).stored(),
        }),
        PokemonNumber::valid(req.number) ==> (exists|n: PokemonNumber, rr: Result<(), DeleteError>|
            n@ == req.number && #[trigger] R::delete_post(*old(repo), *final(repo), n, rr)
                && reflects_delete_result(rr, r)),
{
    let number = match PokemonNumber::try_from(req.number) {
        Ok(number) => number,
        Err(_) => {
            return Err(Error::BadRequest);
        },
    };
    let ghost gn = number;
    let rr = repo.delete_pokemon(number);
    let ghost grr = rr;
    match rr {
        Ok(_) => Ok(()),
        Err(DeleteError::NotFound) => Err(Error::NotFound),
        Err(DeleteError::Unknown) => Err(Error::Unknown),
    }
}

} // verus!
