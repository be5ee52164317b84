//! Use case: create an entity from raw primitive fields.

use vstd::prelude::*;
use vstd::multiset::Multiset;

use crate::entities::{is_tag_name, Pokemon, PokemonName, PokemonNumber, PokemonTypes};
use crate::repository::{string_views, tag_name_multiset, tag_names, InsertError, Repository};

verus! {

/// How the repository's own outcome surfaces as the use case's.
pub open spec fn reflects_insert_result(
    rr: Result<Pokemon, InsertError>,
    r: Result<InsertResponse, Error>,
) -> bool {
    match rr {
        Ok(_) => r is Ok,
        Err(InsertError::Conflict) => r matches Err(Error::Conflict),
        Err(InsertError::Unknown) => r matches Err(Error::Unknown),
    }
}

/// The raw fields a caller supplies.
pub struct Request {
    pub number: u16,
    pub name: String,
    pub types: Vec<String>,
}

pub enum Error {
    BadRequest,
    Conflict,
    Unknown,
}

/// The created entity, echoed back as raw fields.
pub struct InsertResponse {
    pub number: u16,
    pub name: String,
    pub types: Vec<String>,
}

/// Whether the raw fields pass the three value-object validations.
pub open spec fn valid_request(req: Request) -> bool {
    &&& PokemonNumber::valid(req.number)
    &&& req.name@.len() > 0
    &&& req.types@.len() > 0
    &&& forall|i: int| 0 <= i < req.types@.len() ==> is_tag_name(#[trigger] req.types@[i]@)
}

/// Validates the raw fields, stores a new entity, and echoes the stored
/// entity back.  `BadRequest` exactly when validation fails; otherwise the
/// repository decides, and its contract carries over to the response.
pub fn execute<R: Repository>(repo: &mut R, req: Request) -> (r: Result<InsertResponse, Error>)
    requires
        old(repo).inv(),
    ensures
        final(repo).inv(),
        r matches Err(Error::BadRequest) <==> !valid_request(req),
        !valid_request(req) ==> final(repo).stored() == old(repo).stored(),
        (match r {
            Ok(resp) => !old(repo).stored().contains_key(req.number) && final(repo).stored()
                == old(repo).stored().insert(req.number, (req.name@, resp_tags(req)))
                && resp.number == req.number && resp.name@ == req.name@ && resp.types@.len()
                == req.types@.len() && (forall|i: int|
                0 <= i < req.types@.len() ==> #[trigger] resp.types@[i]@ == req.types@[i]@),
            Err(Error::BadRequest) => true,
            Err(Error::Conflict) => old(repo).stored().contains_key(req.number) && final(repo).stored() == old(repo).stored(),
            Err(Error::Unknown) => final(repo).stored() == old(repo).stored() || (!old(
                repo,
            ).stored().contains_key(req.number) && final(repo).stored() == old(
                repo,
            ).stored().insert(req.number, (req.name@, resp_tags(req)))),
        }),
        valid_request(req) ==> (exists|
            n: PokemonNumber,
            nm: PokemonName,
            ts: PokemonTypes,
            rr: Result<Pokemon, InsertError>,
        |
            n@ == req.number && nm@ == req.name@ && tag_names(ts@) == string_views(req.types@)
                && #[trigger] R::insert_post(*old(repo), *final(repo), n, nm, ts, rr)
                && reflects_insert_result(rr, r)),
{
    let number = match PokemonNumber::try_from(req.number) {
        Ok(number) => number,
        Err(_) => {
            return Err(Error::BadRequest);
        },
    };
    let name = match PokemonName::try_from(req.name) {
        Ok(name) => name,
        Err(_) => {
            return Err(Error::BadRequest);
        },
    };
    let types = match PokemonTypes::try_from(req.types) {
        Ok(types) => types,
        Err(_) => {
            return Err(Error::BadRequest);
        },
    };
    proof {
        assert(tag_names(types@) =~= string_views(req.types@));
        assert(tag_names(types@) == string_views(req.types@));
        assert(tag_name_multiset(types@) == resp_tags(req));
    }
    let ghost gn = number;
    let ghost gnm = name;
    let ghost gts = types;
    let rr = repo.insert(number, name, types);
    let ghost grr = rr;
    match rr {
        Ok(pokemon) => Ok(InsertResponse {
            number: pokemon.number.value(),
            name: pokemon.name.value(),
            types: pokemon.types.names(),
        }),
        Err(InsertError::Conflict) => Err(Error::Conflict),
        Err(InsertError::Unknown) => Err(Error::Unknown),
    }
}

/// The unordered tag-name collection a valid request asks to store.
pub open spec fn resp_tags(req: Request) -> Multiset<Seq<char>> {
    string_views(req.types@).to_multiset()
}

} // verus!
