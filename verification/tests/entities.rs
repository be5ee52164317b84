use pokedex::entities::{Pokemon, PokemonName, PokemonNumber, PokemonTypes};
use pokedex::repository::{InMemoryRepository, InsertError, Repository, RetrieveError};

#[test]
fn identifier_accepts_exactly_the_open_range() {
    assert!(PokemonNumber::try_from(0).is_err());
    assert_eq!(PokemonNumber::try_from(1).unwrap().value(), 1);
    assert_eq!(PokemonNumber::try_from(25).unwrap().value(), 25);
    assert_eq!(PokemonNumber::try_from(898).unwrap().value(), 898);
    assert!(PokemonNumber::try_from(899).is_err());
    assert!(PokemonNumber::try_from(65535).is_err());
}

#[test]
fn name_rejects_only_the_empty_string() {
    assert!(PokemonName::try_from(String::new()).is_err());
    let name = PokemonName::try_from(String::from("Pikachu")).unwrap();
    assert_eq!(name.value(), String::from("Pikachu"));
}

#[test]
fn tag_list_rejects_empty_lists_and_unknown_tags() {
    assert!(PokemonTypes::try_from(Vec::new()).is_err());
    assert!(PokemonTypes::try_from(vec![String::from("Water")]).is_err());
    assert!(
        PokemonTypes::try_from(vec![String::from("Electric"), String::from("Shadow")]).is_err()
    );
}

#[test]
fn tag_list_preserves_input_order() {
    let types =
        PokemonTypes::try_from(vec![String::from("Fire"), String::from("Electric")]).unwrap();
    assert_eq!(
        types.names(),
        vec![String::from("Fire"), String::from("Electric")]
    );
}

#[test]
fn inserting_the_same_identifier_twice_keeps_the_first_entity() {
    let mut repo = InMemoryRepository::new();
    let first = repo.insert(
        PokemonNumber::pikachu(),
        PokemonName::pikachu(),
        PokemonTypes::pikachu(),
    );
    assert!(matches!(first, Ok(_)));

    let second = repo.insert(
        PokemonNumber::pikachu(),
        PokemonName::charmader(),
        PokemonTypes::charmander(),
    );
    assert!(matches!(second, Err(InsertError::Conflict)));

    match repo.fetch_one(PokemonNumber::pikachu()) {
        Ok(p) => {
            assert_eq!(p.name.value(), String::from("Pikachu"));
            assert_eq!(p.types.names(), vec![String::from("Electric")]);
        },
        _ => unreachable!(),
    }
}

#[test]
fn deleting_an_entity_makes_a_later_fetch_answer_not_found() {
    let mut repo = InMemoryRepository::new();
    let _ = repo.insert(
        PokemonNumber::pikachu(),
        PokemonName::pikachu(),
        PokemonTypes::pikachu(),
    );
    assert!(matches!(repo.delete_pokemon(PokemonNumber::pikachu()), Ok(())));
    assert!(matches!(
        repo.fetch_one(PokemonNumber::pikachu()),
        Err(RetrieveError::NotFound)
    ));
}

#[test]
fn error_mode_fails_every_operation_even_for_present_entities() {
    let mut repo = InMemoryRepository::new();
    let _ = repo.insert(
        PokemonNumber::pikachu(),
        PokemonName::pikachu(),
        PokemonTypes::pikachu(),
    );
    let mut repo = repo.with_error();
    assert!(matches!(
        repo.fetch_one(PokemonNumber::pikachu()),
        Err(RetrieveError::Unknown)
    ));
    assert!(matches!(
        repo.insert(
            PokemonNumber::try_from(4).unwrap(),
            PokemonName::charmader(),
            PokemonTypes::charmander(),
        ),
        Err(InsertError::Unknown)
    ));
}

#[test]
fn entity_aggregates_the_three_value_objects() {
    let p = Pokemon::new(
        PokemonNumber::pikachu(),
        PokemonName::pikachu(),
        PokemonTypes::pikachu(),
    );
    assert_eq!(p.number.value(), 25);
    assert_eq!(p.name.value(), String::from("Pikachu"));
    assert_eq!(p.types.names(), vec![String::from("Electric")]);
    assert_eq!(PokemonName::empty().value(), String::new());
}
