use pokedex::delete_pokemon::{execute, Error, Request};
use pokedex::entities::{PokemonName, PokemonNumber, PokemonTypes};
use pokedex::repository::{InMemoryRepository, Repository};

#[test]
fn delete_pokemon_it_should_return_an_unknown_error_when_an_unexpected_error_happens() {
    let mut repo = InMemoryRepository::new().with_error();
    let req = Request { number: 25 };
    let res = execute(&mut repo, req);

    match res {
        Err(Error::Unknown) => {},
        _ => unreachable!(),
    }
}

#[test]
fn delete_pokemon_it_should_return_a_bad_request_error_when_request_is_invalid() {
    let mut repo = InMemoryRepository::new();
    let req = Request { number: 0 };

    let res = execute(&mut repo, req);

    match res {
        Err(Error::BadRequest) => {},
        _ => unreachable!(),
    }
}

#[test]
fn delete_pokemon_it_should_return_a_not_found_error_when_the_repo_does_not_contain_the_pokemon() {
    let mut repo = InMemoryRepository::new();
    let req = Request { number: 25 };

    let res = execute(&mut repo, req);

    match res {
        Err(Error::NotFound) => {},
        _ => unreachable!(),
    }
}

#[test]
fn it_should_return_ok_otherwise() {
    let mut repo = InMemoryRepository::new();
    let _ = repo.insert(
        PokemonNumber::pikachu(),
        PokemonName::pikachu(),
        PokemonTypes::pikachu(),
    );
    let req = Request { number: 25 };

    let res = execute(&mut repo, req);

    match res {
        Ok(()) => {},
        _ => unreachable!(),
    }
}
