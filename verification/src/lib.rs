pub mod create_pokemon;
pub mod delete_pokemon;
pub mod entities;
pub mod fetch_all_pokemons;
pub mod fetch_pokemon;
pub mod repository;
pub mod sqlite;
