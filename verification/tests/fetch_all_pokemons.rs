use pokedex::entities::{PokemonName, PokemonNumber, PokemonTypes};
use pokedex::fetch_all_pokemons::{execute, Error};
use pokedex::repository::{InMemoryRepository, Repository};

#[test]
fn fetch_all_pokemons_it_should_return_an_unknown_error_when_an_unexpected_error_happens() {
    let repo = InMemoryRepository::new().with_error();

    let res = execute(&repo);

    match res {
        Err(Error::Unknown) => {},
        _ => unreachable!(),
    }
}

#[test]
fn it_should_return_all_the_pokemons_ordered_by_increased_number_otherwise() {
    let mut repo = InMemoryRepository::new();

    let _ = repo
        .insert(
            PokemonNumber::pikachu(),
            PokemonName::pikachu(),
            PokemonTypes::pikachu(),
        )
        .ok();
    let _ = repo
        .insert(
            PokemonNumber::try_from(4).unwrap(),
            PokemonName::charmader(),
            PokemonTypes::charmander(),
        )
        .ok();

    let res = execute(&repo);

    match res {
        Ok(res) => {
            assert_eq!(res[0].number, 4);
            assert_eq!(res[0].name, String::from("Charmander"));
            assert_eq!(res[0].types, vec![String::from("Fire")]);
            assert_eq!(res[1].number, 25);
            assert_eq!(res[1].name, String::from("Pikachu"));
            assert_eq!(res[1].types, vec![String::from("Electric")]);
        },
        Err(_) => unreachable!(),
    }
}
