use pokedex::create_pokemon::{execute, Error, InsertResponse, Request};
use pokedex::entities::{PokemonName, PokemonNumber, PokemonTypes};
use pokedex::repository::{InMemoryRepository, Repository};

#[test]
fn it_should_return_the_pokemon_number_otherwise() {
    let mut repo = InMemoryRepository::new();
    let req = Request {
        number: 25,
        name: String::from("Pikachu"),
        types: vec![String::from("Electric")],
    };
    let res = execute(&mut repo, req);

    match res {
        Ok(InsertResponse { number, name, types }) => {
            assert_eq!(number, 25);
            assert_eq!(name, String::from("Pikachu"));
            assert_eq!(types, vec![String::from("Electric")])
        },
        _ => unreachable!(),
    }
}

#[test]
fn create_pokemon_it_should_return_a_bad_request_error_when_request_is_invalid() {
    let mut repo = InMemoryRepository::new();
    let req = Request {
        number: 25,
        name: String::new(),
        types: vec![String::from("Electric")],
    };

    let res = execute(&mut repo, req);

    match res {
        Err(Error::BadRequest) => {},
        _ => unreachable!(),
    }
}

#[test]
fn it_should_return_a_conflict_error_when_pokemon_number_already_exists() {
    let number = PokemonNumber::pikachu();
    let name = PokemonName::pikachu();
    let types = PokemonTypes::pikachu();
    let mut repo = InMemoryRepository::new();
    let _ = repo.insert(number, name, types);

    let req = Request {
        number: 25,
        name: String::from("Charmander"),
        types: vec![String::from("Fire")],
    };
    let res = execute(&mut repo, req);

    match res {
        Err(Error::Conflict) => {},
        _ => unreachable!(),
    }
}

#[test]
fn it_should_return_an_error_when_an_unexpected_error_happen() {
    let mut repo = InMemoryRepository::new().with_error();
    let req = Request {
        number: 25,
        name: String::from("Pikachu"),
        types: vec![String::from("Electric")],
    };

    let res = execute(&mut repo, req);
    match res {
        Err(Error::Unknown) => {},
        _ => unreachable!(),
    }
}
