use pokedex::entities::{PokemonName, PokemonNumber, PokemonTypes};
use pokedex::repository::{DeleteError, InsertError, Repository, RetrieveError};
use pokedex::sqlite::SqliteRepository;

fn setup(name: &str) -> rusqlite::Connection {
    let uri = format!("file:{}?mode=memory&cache=shared", name);
    let conn = rusqlite::Connection::open_with_flags(
        uri.as_str(),
        rusqlite::OpenFlags::SQLITE_OPEN_READ_WRITE
            | rusqlite::OpenFlags::SQLITE_OPEN_CREATE
            | rusqlite::OpenFlags::SQLITE_OPEN_URI,
    )
    .unwrap();
    conn.execute_batch(
        "create table pokemons (number integer primary key, name text not null);
         create table types (pokemon_number integer not null references pokemons(number) on delete cascade, name text not null);",
    )
    .unwrap();
    conn
}

#[test]
fn sqlite_insert_then_fetch_one_round_trips() {
    let _anchor = setup("dbroundtrip");
    let mut repo =
        SqliteRepository::try_new("file:dbroundtrip?mode=memory&cache=shared").ok().unwrap();
    match repo.insert(
        PokemonNumber::pikachu(),
        PokemonName::pikachu(),
        PokemonTypes::pikachu(),
    ) {
        Ok(p) => assert_eq!(p.number.value(), 25),
        _ => unreachable!(),
    }
    match repo.fetch_one(PokemonNumber::pikachu()) {
        Ok(p) => {
            assert_eq!(p.number.value(), 25);
            assert_eq!(p.name.value(), String::from("Pikachu"));
            assert_eq!(p.types.names(), vec![String::from("Electric")]);
        },
        _ => unreachable!(),
    }
}

#[test]
fn sqlite_duplicate_insert_answers_conflict() {
    let _anchor = setup("dbconflict");
    let mut repo =
        SqliteRepository::try_new("file:dbconflict?mode=memory&cache=shared").ok().unwrap();
    assert!(matches!(
        repo.insert(
            PokemonNumber::pikachu(),
            PokemonName::pikachu(),
            PokemonTypes::pikachu(),
        ),
        Ok(_)
    ));
    assert!(matches!(
        repo.insert(
            PokemonNumber::pikachu(),
            PokemonName::charmader(),
            PokemonTypes::charmander(),
        ),
        Err(InsertError::Conflict)
    ));
    match repo.fetch_one(PokemonNumber::pikachu()) {
        Ok(p) => assert_eq!(p.name.value(), String::from("Pikachu")),
        _ => unreachable!(),
    }
}

#[test]
fn sqlite_fetch_all_orders_by_ascending_identifier() {
    let _anchor = setup("dbfetchall");
    let mut repo =
        SqliteRepository::try_new("file:dbfetchall?mode=memory&cache=shared").ok().unwrap();
    let _ = repo.insert(
        PokemonNumber::pikachu(),
        PokemonName::pikachu(),
        PokemonTypes::pikachu(),
    );
    let _ = repo.insert(
        PokemonNumber::try_from(4).unwrap(),
        PokemonName::charmader(),
        PokemonTypes::charmander(),
    );
    match repo.fetch_all() {
        Ok(all) => {
            assert_eq!(all.len(), 2);
            assert_eq!(all[0].number.value(), 4);
            assert_eq!(all[0].name.value(), String::from("Charmander"));
            assert_eq!(all[1].number.value(), 25);
            assert_eq!(all[1].types.names(), vec![String::from("Electric")]);
        },
        _ => unreachable!(),
    }
}

#[test]
fn sqlite_delete_removes_the_entity_and_its_tags() {
    let _anchor = setup("dbdelete");
    let mut repo =
        SqliteRepository::try_new("file:dbdelete?mode=memory&cache=shared").ok().unwrap();
    assert!(matches!(
        repo.delete_pokemon(PokemonNumber::pikachu()),
        Err(DeleteError::NotFound)
    ));
    let _ = repo.insert(
        PokemonNumber::pikachu(),
        PokemonName::pikachu(),
        PokemonTypes::pikachu(),
    );
    assert!(matches!(repo.delete_pokemon(PokemonNumber::pikachu()), Ok(())));
    assert!(matches!(
        repo.fetch_one(PokemonNumber::pikachu()),
        Err(RetrieveError::NotFound)
    ));
    match repo.fetch_all() {
        Ok(all) => assert_eq!(all.len(), 0),
        _ => unreachable!(),
    }
}

#[test]
fn sqlite_try_new_fails_on_a_missing_file() {
    assert!(SqliteRepository::try_new("no_such_database_here.sqlite3").is_err());
}
