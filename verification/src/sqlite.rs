//! The relational repository: two related tables behind one connection.
//!
//! The storage layer itself is the `rusqlite` crate; what it holds is
//! modelled by uninterpreted contents functions over the connection: the
//! primary table (identifier to name), the tag table (identifier to an
//! unordered collection of tag names), whether a transaction is open, and
//! the state saved at the start of the open transaction.  Each statement the
//! repository issues goes through one trusted wrapper whose contract states,
//! over those contents, what the statement does; everything else — the
//! transaction protocol, re-validation of fetched rows, ordering — is
//! verified against the wrappers' contracts.

use vstd::prelude::*;
use vstd::multiset::Multiset;

use rusqlite::Connection;

use crate::entities::{is_tag_name, Pokemon, PokemonName, PokemonNumber, PokemonTypes};
use crate::repository::{
    entry_of, fetch_all_contract, fetch_one_contract, insert_contract, sort_by_number,
    string_views, tag_name_multiset, tag_names, valid_entity, DeleteError, InsertError,
    Repository, RetrieveAllError, RetrieveError, StoredMap,
};

verus! {

broadcast use vstd::seq_lib::group_to_multiset_ensures, crate::entities::lemma_number_view_injective;

#[verifier::external_type_specification]
#[verifier::external_body]
pub struct ExConnection(Connection);

/// The visible rows of the primary table: identifier to name.
pub uninterp spec fn db_pokemons(c: Connection) -> Map<u16, Seq<char>>;

/// The visible rows of the tag table, keyed by identifier: each identifier's
/// unordered collection of tag names.
pub uninterp spec fn db_types(c: Connection) -> Map<u16, Multiset<Seq<char>>>;

/// Whether the connection has an open transaction.
pub uninterp spec fn in_txn(c: Connection) -> bool;

/// The primary-table rows saved when the open transaction began.
pub uninterp spec fn saved_pokemons(c: Connection) -> Map<u16, Seq<char>>;

/// The tag-table rows saved when the open transaction began.
pub uninterp spec fn saved_types(c: Connection) -> Map<u16, Multiset<Seq<char>>>;

/// The tag names stored for one identifier; none for an absent key.
pub open spec fn types_at(t: Map<u16, Multiset<Seq<char>>>, k: u16) -> Multiset<Seq<char>> {
    if t.contains_key(k) {
        t[k]
    } else {
        Multiset::empty()
    }
}

/// The stored contents the two tables amount to: one entry per primary row,
/// carrying its name and its tag names.
pub open spec fn db_stored(
    p: Map<u16, Seq<char>>,
    t: Map<u16, Multiset<Seq<char>>>,
) -> StoredMap {
    Map::new(|k: u16| p.contains_key(k), |k: u16| (p[k], types_at(t, k)))
}

/// Both tables, the transaction flag, and the saved state are unchanged.
pub open spec fn conn_unchanged(pre: Connection, post: Connection) -> bool {
    &&& db_pokemons(post) == db_pokemons(pre)
    &&& db_types(post) == db_types(pre)
    &&& in_txn(post) == in_txn(pre)
    &&& saved_pokemons(post) == saved_pokemons(pre)
    &&& saved_types(post) == saved_types(pre)
}

/// The storage layer itself rolled the open transaction back: the saved
/// state is visible again and no transaction is open.
pub open spec fn conn_auto_rolled_back(pre: Connection, post: Connection) -> bool {
    &&& !in_txn(post)
    &&& db_pokemons(post) == saved_pokemons(pre)
    &&& db_types(post) == saved_types(pre)
}

/// Relies on rusqlite's `Connection::open_with_flags`, opening an existing
/// database file read-write: a fresh connection has no open transaction.
/// The URI flag is set, so a path of the `file:` form is read as a URI
/// (which lets an in-memory database be named); a plain path is unaffected.
#[verifier::external_body]
fn open_rw(path: &str) -> (r: Result<Connection, ()>)
    ensures
        (r matches Ok(c) ==> !in_txn(c)),
{
    let flags = rusqlite::OpenFlags::SQLITE_OPEN_READ_WRITE | rusqlite::OpenFlags::SQLITE_OPEN_URI;
    Connection::open_with_flags(path, flags).map_err(|_| ())
}

/// Relies on rusqlite's `Connection::execute` running
/// `pragma foreign_keys = 1`, which configures the connection and changes no
/// table row and no transaction state, whether it succeeds or fails.
#[verifier::external_body]
fn enable_foreign_keys(conn: &mut Connection) -> (r: Result<(), ()>)
    ensures
        conn_unchanged(*old(conn), *final(conn)),
{
    conn.execute("pragma foreign_keys = 1", []).map(|_| ()).map_err(|_| ())
}

/// Relies on rusqlite's `Connection::execute_batch` running `BEGIN`: on
/// success a transaction is open and the visible rows, now also saved, are
/// unchanged; a failed `BEGIN` changes nothing.
#[verifier::external_body]
fn begin(conn: &mut Connection) -> (r: Result<(), ()>)
    ensures
        (r matches Ok(_) ==> in_txn(*final(conn)) && db_pokemons(*final(conn)) == db_pokemons(
            *old(conn),
        ) && db_types(*final(conn)) == db_types(*old(conn)) && saved_pokemons(*final(conn))
            == db_pokemons(*old(conn)) && saved_types(*final(conn)) == db_types(*old(conn))),
        (r matches Err(_) ==> conn_unchanged(*old(conn), *final(conn))),
{
    conn.execute_batch("BEGIN").map_err(|_| ())
}

/// Relies on rusqlite's `Connection::execute_batch` running `COMMIT`: on
/// success the transaction is closed and the visible rows stay.  On failure,
/// either the transaction is still open and nothing changed, or the storage
/// layer closed it itself — rolling the rows back to the saved state, or,
/// if the commit had already taken effect, keeping them.
#[verifier::external_body]
fn commit(conn: &mut Connection) -> (r: Result<(), ()>)
    requires
        in_txn(*old(conn)),
    ensures
        (r matches Ok(_) ==> !in_txn(*final(conn)) && db_pokemons(*final(conn)) == db_pokemons(
            *old(conn),
        ) && db_types(*final(conn)) == db_types(*old(conn))),
        (r matches Err(_) ==> conn_unchanged(*old(conn), *final(conn)) || conn_auto_rolled_back(
            *old(conn),
            *final(conn),
        ) || (!in_txn(*final(conn)) && db_pokemons(*final(conn)) == db_pokemons(*old(conn))
            && db_types(*final(conn)) == db_types(*old(conn)))),
{
    conn.execute_batch("COMMIT").map_err(|_| ())
}

/// Relies on rusqlite's `Connection::execute_batch` running `ROLLBACK`,
/// whose outcome is ignored: with a transaction open it undoes it and
/// restores the saved rows; with none open it fails and changes nothing.
#[verifier::external_body]
fn rollback_quiet(conn: &mut Connection)
    ensures
        !in_txn(*final(conn)),
        db_pokemons(*final(conn)) == (if in_txn(*old(conn)) {
            saved_pokemons(*old(conn))
        } else {
            db_pokemons(*old(conn))
        }),
        db_types(*final(conn)) == (if in_txn(*old(conn)) {
            saved_types(*old(conn))
        } else {
            db_types(*old(conn))
        }),
{
    let _ = conn.execute_batch("ROLLBACK");
}

/// How the primary-row insertion ended.
enum RowInsert {
    Inserted,
    Duplicate,
    Failed,
}

/// Relies on rusqlite's `Connection::execute` running the primary-row
/// insertion: success adds exactly that row, and only to an absent
/// identifier; the uniqueness-constraint failure comes exactly when the
/// identifier is present and changes nothing.  Any other failure changes
/// nothing — unless the storage layer rolled the transaction back itself.
#[verifier::external_body]
fn insert_pokemon_row(conn: &mut Connection, number: u16, name: &String) -> (r: RowInsert)
    requires
        in_txn(*old(conn)),
    ensures
        (r matches RowInsert::Inserted ==> !db_pokemons(*old(conn)).contains_key(number)
            && db_pokemons(*final(conn)) == db_pokemons(*old(conn)).insert(number, name@)
            && db_types(*final(conn)) == db_types(*old(conn)) && in_txn(*final(conn))
            && saved_pokemons(*final(conn)) == saved_pokemons(*old(conn)) && saved_types(
            *final(conn),
        ) == saved_types(*old(conn))),
        (r matches RowInsert::Duplicate ==> db_pokemons(*old(conn)).contains_key(number)
            && conn_unchanged(*old(conn), *final(conn))),
        (r matches RowInsert::Failed ==> conn_unchanged(*old(conn), *final(conn))
            || conn_auto_rolled_back(*old(conn), *final(conn))),
{
    match conn.execute("insert into pokemons (number, name) values (?, ?)", (number, name.as_str())) {
        Ok(_) => RowInsert::Inserted,
        Err(rusqlite::Error::SqliteFailure(_, Some(m))) => {
            if m == "UNIQUE constraint failed: pokemons.number" {
                RowInsert::Duplicate
            } else {
                RowInsert::Failed
            }
        },
        Err(_) => RowInsert::Failed,
    }
}

/// Relies on rusqlite's `Connection::execute` deleting the tag rows of one
/// identifier: success removes exactly that identifier's tag rows; a failure
/// changes nothing — unless the storage layer rolled the transaction back.
#[verifier::external_body]
fn clear_type_rows(conn: &mut Connection, number: u16) -> (r: Result<(), ()>)
    requires
        in_txn(*old(conn)),
    ensures
        (r matches Ok(_) ==> db_types(*final(conn)) == db_types(*old(conn)).remove(number)
            && db_pokemons(*final(conn)) == db_pokemons(*old(conn)) && in_txn(*final(conn))
            && saved_pokemons(*final(conn)) == saved_pokemons(*old(conn)) && saved_types(
            *final(conn),
        ) == saved_types(*old(conn))),
        (r matches Err(_) ==> conn_unchanged(*old(conn), *final(conn)) || conn_auto_rolled_back(
            *old(conn),
            *final(conn),
        )),
{
    match conn.execute("delete from types where pokemon_number = ?", (number,)) {
        Ok(_) => Ok(()),
        Err(_) => Err(()),
    }
}

/// Relies on rusqlite's `Connection::execute` running the tag-row
/// insertion: success adds exactly that tag name for that identifier; a
/// failure changes nothing — unless the storage layer rolled the
/// transaction back.
#[verifier::external_body]
fn insert_type_row(conn: &mut Connection, number: u16, name: &String) -> (r: Result<(), ()>)
    requires
        in_txn(*old(conn)),
    ensures
        (r matches Ok(_) ==> db_types(*final(conn)) == db_types(*old(conn)).insert(
            number,
            types_at(db_types(*old(conn)), number).insert(name@),
        ) && db_pokemons(*final(conn)) == db_pokemons(*old(conn)) && in_txn(*final(conn))
            && saved_pokemons(*final(conn)) == saved_pokemons(*old(conn)) && saved_types(
            *final(conn),
        ) == saved_types(*old(conn))),
        (r matches Err(_) ==> conn_unchanged(*old(conn), *final(conn)) || conn_auto_rolled_back(
            *old(conn),
            *final(conn),
        )),
{
    match conn.execute(
        "insert into types (pokemon_number, name) values (?, ?)",
        (number, name.as_str()),
    ) {
        Ok(_) => Ok(()),
        Err(_) => Err(()),
    }
}

/// Relies on rusqlite's `Connection::execute` deleting one primary row
/// outside any transaction, with foreign keys enforced: the affected-row
/// count says whether the identifier was present; its row is gone, and its
/// tag rows are either untouched (then the delete could only succeed with
/// none present) or cascaded away, as the stored schema directs; a failure
/// changes nothing.
#[verifier::external_body]
fn delete_pokemon_row(conn: &mut Connection, number: u16) -> (r: Result<usize, ()>)
    requires
        !in_txn(*old(conn)),
    ensures
        (r matches Ok(cnt) ==> (db_pokemons(*old(conn)).contains_key(number) ==> cnt == 1)
            && (!db_pokemons(*old(conn)).contains_key(number) ==> cnt == 0) && db_pokemons(
            *final(conn),
        ) == db_pokemons(*old(conn)).remove(number) && (db_types(*final(conn)) == db_types(
            *old(conn),
        ) || db_types(*final(conn)) == db_types(*old(conn)).remove(number)) && !in_txn(
            *final(conn),
        )),
        (r matches Err(_) ==> db_pokemons(*final(conn)) == db_pokemons(*old(conn)) && db_types(
            *final(conn),
        ) == db_types(*old(conn)) && !in_txn(*final(conn))),
{
    match conn.execute("delete from pokemons where number = ?", (number,)) {
        Ok(cnt) => Ok(cnt),
        Err(_) => Err(()),
    }
}

/// Relies on rusqlite's `Connection::prepare`, `Statement::query`,
/// `Rows::next` and `Row::get` over the primary table filtered by
/// identifier: at most one row exists per identifier, and it is returned
/// exactly when the identifier is present.
#[verifier::external_body]
fn query_pokemon_row(conn: &Connection, number: u16) -> (r: Result<Option<(u16, String)>, ()>)
    ensures
        (r matches Ok(Some(row)) ==> row.0 == number && db_pokemons(*conn).contains_key(number)
            && row.1@ == db_pokemons(*conn)[number]),
        (r matches Ok(None) ==> !db_pokemons(*conn).contains_key(number)),
{
    let mut stmt = match conn.prepare("select number, name from pokemons where number = ?") {
        Ok(s) => s,
        _ => return Err(()),
    };
    let mut rows = match stmt.query([number]) { Ok(r) => r, _ => return Err(()) };
    match rows.next() {
        Ok(Some(row)) => match (row.get(0), row.get(1)) {
            (Ok(n), Ok(s)) => Ok(Some((n, s))),
            _ => Err(()),
        },
        Ok(None) => Ok(None),
        Err(_) => Err(()),
    }
}

/// Relies on rusqlite's `Connection::prepare`, `Statement::query`,
/// `Rows::next` and `Row::get` over the whole primary table: on success the
/// rows are exactly the table's rows, one per identifier, in no promised
/// order.  A failure of any step, a mid-scan one included, is a failure of
/// the whole query — never a truncated result.
#[verifier::external_body]
fn query_all_pokemon_rows(conn: &Connection) -> (r: Result<Vec<(u16, String)>, ()>)
    ensures
        (r matches Ok(v) ==> (forall|i: int|
            0 <= i < v@.len() ==> db_pokemons(*conn).contains_key(#[trigger] v@[i].0)
                && v@[i].1@ == db_pokemons(*conn)[v@[i].0]) && (forall|k: u16|
            #[trigger] db_pokemons(*conn).contains_key(k) ==> exists|i: int|
                0 <= i < v@.len() && v@[i].0 == k) && (forall|i: int, j: int|
            0 <= i < j < v@.len() ==> v@[i].0 != v@[j].0)),
{
    let mut stmt = match conn.prepare("select number, name from pokemons") {
        Ok(s) => s, _ => return Err(()),
    };
    let mut rows = match stmt.query([]) { Ok(r) => r, _ => return Err(()) };
    let mut out: Vec<(u16, String)> = Vec::new();
    loop {
        match rows.next() {
            Ok(Some(row)) => match (row.get(0), row.get(1)) {
                (Ok(n), Ok(s)) => out.push((n, s)),
                _ => return Err(()),
            },
            Ok(None) => return Ok(out),
            Err(_) => return Err(()),
        }
    }
}

/// Relies on rusqlite's `Connection::prepare`, `Statement::query`,
/// `Rows::next` and `Row::get` over the tag table filtered by identifier:
/// on success the returned names are exactly that identifier's tag rows,
/// in no promised order.  A failure of any step, a mid-scan one included,
/// is a failure of the whole query — never a truncated result.
#[verifier::external_body]
fn query_type_rows(conn: &Connection, number: u16) -> (r: Result<Vec<String>, ()>)
    ensures
        (r matches Ok(v) ==> string_views(v@).to_multiset() == types_at(
            db_types(*conn),
            number,
        )),
{
    let mut stmt = match conn.prepare("select name from types where pokemon_number = ?") {
        Ok(s) => s, _ => return Err(()),
    };
    let mut rows = match stmt.query([number]) { Ok(r) => r, _ => return Err(()) };
    let mut out: Vec<String> = Vec::new();
    loop {
        match rows.next() {
            Ok(Some(row)) => match row.get(0) {
                Ok(s) => out.push(s),
                _ => return Err(()),
            },
            Ok(None) => return Ok(out),
            Err(_) => return Err(()),
        }
    }
}

/// Builds an entity from one raw primary row and its raw tag rows,
/// re-validating every field through the value objects; it fails exactly
/// when some field is invalid.
pub fn assemble_pokemon(number: u16, name: String, type_rows: Vec<String>) -> (r: Result<
    Pokemon,
    (),
>)
    ensures
        r is Ok <==> (PokemonNumber::valid(number) && name@.len() > 0 && type_rows@.len() > 0
            && (forall|i: int| 0 <= i < type_rows@.len() ==> is_tag_name(#[trigger] type_rows@[i]@))),
        (r matches Ok(p) ==> p.number@ == number && p.name@ == name@ && tag_names(p.types@)
            == string_views(type_rows@)),
{
    let pn = match PokemonNumber::try_from(number) {
        Ok(pn) => pn,
        Err(_) => {
            return Err(());
        },
    };
    let nm = match PokemonName::try_from(name) {
        Ok(nm) => nm,
        Err(_) => {
            return Err(());
        },
    };
    let ts = match PokemonTypes::try_from(type_rows) {
        Ok(ts) => ts,
        Err(_) => {
            return Err(());
        },
    };
    proof {
        assert(tag_names(ts@) =~= string_views(type_rows@));
    }
    Ok(Pokemon::new(pn, nm, ts))
}

/// Inserting a primary row and replacing its tag rows shifts the stored
/// contents by exactly one complete entry.
proof fn lemma_db_stored_insert(
    p: Map<u16, Seq<char>>,
    t: Map<u16, Multiset<Seq<char>>>,
    t2: Map<u16, Multiset<Seq<char>>>,
    k: u16,
    name: Seq<char>,
    tags: Multiset<Seq<char>>,
)
    requires
        forall|k2: u16| k2 != k ==> types_at(t2, k2) == types_at(t, k2),
        types_at(t2, k) == tags,
    ensures
        db_stored(p.insert(k, name), t2) == db_stored(p, t).insert(k, (name, tags)),
{
    let lhs = db_stored(p.insert(k, name), t2);
    let rhs = db_stored(p, t).insert(k, (name, tags));
    assert forall|k2: u16| lhs.contains_key(k2) implies rhs.contains_key(k2) && lhs[k2]
        == rhs[k2] by {
        if k2 != k {
            assert(types_at(t2, k2) == types_at(t, k2));
        }
    }
    assert forall|k2: u16| rhs.contains_key(k2) implies lhs.contains_key(k2) by {}
    assert(lhs =~= rhs);
}

/// Removing a primary row removes exactly its stored entry, whether or not
/// its tag rows were cascaded away.
proof fn lemma_db_stored_remove(
    p: Map<u16, Seq<char>>,
    t: Map<u16, Multiset<Seq<char>>>,
    t2: Map<u16, Multiset<Seq<char>>>,
    k: u16,
)
    requires
        t2 == t || t2 == t.remove(k),
    ensures
        db_stored(p.remove(k), t2) == db_stored(p, t).remove(k),
{
    let lhs = db_stored(p.remove(k), t2);
    let rhs = db_stored(p, t).remove(k);
    assert forall|k2: u16| lhs.contains_key(k2) implies rhs.contains_key(k2) && lhs[k2]
        == rhs[k2] by {
        assert(types_at(t2, k2) == types_at(t, k2));
    }
    assert forall|k2: u16| rhs.contains_key(k2) implies lhs.contains_key(k2) by {}
    assert(lhs =~= rhs);
}

/// A transactional implementation of the repository contract, backed by a
/// primary table `(number, name)` and a tag table `(pokemon_number, name)`
/// related by an enforced foreign key.  The schema belongs to the stored
/// database file; this type only opens it.
pub struct SqliteRepository {
    connection: Connection,
}

impl SqliteRepository {
    /// The connection's modelled state.
    pub closed spec fn conn(&self) -> Connection {
        self.connection
    }

    /// Opens the database file read-write and enables foreign-key
    /// enforcement on the connection.
    pub fn try_new(path: &str) -> (r: Result<SqliteRepository, ()>)
        ensures
            (r matches Ok(repo) ==> repo.inv()),
    {
        let mut connection = match open_rw(path) {
            Ok(c) => c,
            Err(_) => {
                return Err(());
            },
        };
        match enable_foreign_keys(&mut connection) {
            Ok(_) => Ok(SqliteRepository { connection }),
            Err(_) => Err(()),
        }
    }
}

impl Repository for SqliteRepository {
    open spec fn inv(&self) -> bool {
        !in_txn(self.conn())
    }

    open spec fn stored(&self) -> StoredMap {
        db_stored(db_pokemons(self.conn()), db_types(self.conn()))
    }

    /// Nothing beyond the shared contract: the storage layer may fail at
    /// any point, and the shared contract already carries the atomicity of
    /// the transactional insert.
    open spec fn insert_post(
        pre: Self,
        post: Self,
        number: PokemonNumber,
        name: PokemonName,
        types: PokemonTypes,
        r: Result<Pokemon, InsertError>,
    ) -> bool {
        true
    }

    open spec fn fetch_all_post(pre: Self, r: Result<Vec<Pokemon>, RetrieveAllError>) -> bool {
        true
    }

    open spec fn fetch_one_post(
        pre: Self,
        number: PokemonNumber,
        r: Result<Pokemon, RetrieveError>,
    ) -> bool {
        true
    }

    open spec fn delete_post(
        pre: Self,
        post: Self,
        number: PokemonNumber,
        r: Result<(), DeleteError>,
    ) -> bool {
        true
    }

    #[verifier::loop_isolation(false)]
    fn insert(&mut self, number: PokemonNumber, name: PokemonName, types: PokemonTypes) -> (r:
        Result<Pokemon, InsertError>) {
        let ghost pre_p = db_pokemons(self.connection);
        let ghost pre_t = db_types(self.connection);
        let num = number.value();
        let name_s = name.value();
        if begin(&mut self.connection).is_err() {
            return Err(InsertError::Unknown);
        }
        match insert_pokemon_row(&mut self.connection, num, &name_s) {
            RowInsert::Duplicate => {
                rollback_quiet(&mut self.connection);
                proof {
                    assert(self.stored() =~= db_stored(pre_p, pre_t));
                }
                return Err(InsertError::Conflict);
            },
            RowInsert::Failed => {
                rollback_quiet(&mut self.connection);
                proof {
                    assert(self.stored() =~= db_stored(pre_p, pre_t));
                }
                return Err(InsertError::Unknown);
            },
            RowInsert::Inserted => {},
        }
        if clear_type_rows(&mut self.connection, num).is_err() {
            rollback_quiet(&mut self.connection);
            proof {
                assert(self.stored() =~= db_stored(pre_p, pre_t));
            }
            return Err(InsertError::Unknown);
        }
        proof {
            assert(tag_names(types@).take(0).to_multiset() =~= Multiset::<Seq<char>>::empty());
        }
        let count = types.len();
        let mut i: usize = 0;
        while i < count
            invariant
                i <= count,
                in_txn(self.connection),
                saved_pokemons(self.connection) == pre_p,
                saved_types(self.connection) == pre_t,
                db_pokemons(self.connection) == pre_p.insert(num, name_s@),
                forall|k2: u16|
                    k2 != num ==> types_at(db_types(self.connection), k2) == types_at(pre_t, k2),
                types_at(db_types(self.connection), num) == tag_names(types@).take(
                    i as int,
                ).to_multiset(),
            decreases count - i,
        {
            let tag = types.name_at(i);
            let ghost t_before = db_types(self.connection);
            if insert_type_row(&mut self.connection, num, &tag).is_err() {
                rollback_quiet(&mut self.connection);
                proof {
                    assert(self.stored() =~= db_stored(pre_p, pre_t));
                }
                return Err(InsertError::Unknown);
            }
            proof {
                assert(types_at(t_before, num) == tag_names(types@).take(i as int).to_multiset());
                assert(tag_names(types@).take(i + 1 as int) =~= tag_names(types@).take(
                    i as int,
                ).push(tag_names(types@)[i as int]));
                assert(tag_names(types@).take(i + 1 as int).to_multiset() == tag_names(
                    types@,
                ).take(i as int).to_multiset().insert(tag@));
                assert(types_at(db_types(self.connection), num) == tag_names(types@).take(
                    i + 1 as int,
                ).to_multiset());
            }
            i += 1;
        }
        proof {
            assert(tag_names(types@).take(count as int) =~= tag_names(types@));
            assert(types_at(db_types(self.connection), num) == tag_name_multiset(types@));
        }
        match commit(&mut self.connection) {
            Ok(_) => {
                proof {
                    lemma_db_stored_insert(
                        pre_p,
                        pre_t,
                        db_types(self.connection),
                        num,
                        name_s@,
                        tag_name_multiset(types@),
                    );
                    assert(self.stored() == db_stored(pre_p, pre_t).insert(
                        number@,
                        (name@, tag_name_multiset(types@)),
                    ));
                }
                Ok(Pokemon::new(number, name, types))
            },
            Err(_) => {
                rollback_quiet(&mut self.connection);
                proof {
                    if db_pokemons(self.connection) == pre_p {
                        assert(self.stored() =~= db_stored(pre_p, pre_t));
                    } else {
                        lemma_db_stored_insert(
                            pre_p,
                            pre_t,
                            db_types(self.connection),
                            num,
                            name_s@,
                            tag_name_multiset(types@),
                        );
                        assert(self.stored() == db_stored(pre_p, pre_t).insert(
                            number@,
                            (name@, tag_name_multiset(types@)),
                        ));
                    }
                }
                Err(InsertError::Unknown)
            },
        }
    }

    #[verifier::loop_isolation(false)]
    fn fetch_all(&self) -> (r: Result<Vec<Pokemon>, RetrieveAllError>) {
        let rows = match query_all_pokemon_rows(&self.connection) {
            Ok(rows) => rows,
            Err(_) => {
                return Err(RetrieveAllError::Unknown);
            },
        };
        let mut out: Vec<Pokemon> = Vec::new();
        let mut i: usize = 0;
        while i < rows.len()
            invariant
                i <= rows@.len(),
                out@.len() == i,
                forall|j: int|
                    0 <= j < i ==> (#[trigger] out@[j]).number@ == rows@[j].0
                        && self.stored().contains_key(out@[j].number@)
                        && self.stored()[out@[j].number@] == entry_of(out@[j]) && valid_entity(
                        out@[j],
                    ),
            decreases rows@.len() - i,
        {
            let type_rows = match query_type_rows(&self.connection, rows[i].0) {
                Ok(type_rows) => type_rows,
                Err(_) => {
                    return Err(RetrieveAllError::Unknown);
                },
            };
            let p = match assemble_pokemon(rows[i].0, rows[i].1.clone(), type_rows) {
                Ok(p) => p,
                Err(_) => {
                    return Err(RetrieveAllError::Unknown);
                },
            };
            proof {
                assert(self.stored().contains_key(rows@[i as int].0));
                assert(self.stored()[rows@[i as int].0] == (
                    db_pokemons(self.conn())[rows@[i as int].0],
                    types_at(db_types(self.conn()), rows@[i as int].0),
                ));
                assert(entry_of(p).1 == tag_names(p.types@).to_multiset());
                assert(tag_names(p.types@).len() == p.types@.len());
                assert(valid_entity(p));
            }
            out.push(p);
            i += 1;
        }
        proof {
            assert forall|a: int, b: int| 0 <= a < b < out@.len() implies out@[a].number@
                != out@[b].number@ by {
                assert(out@[a].number@ == rows@[a].0);
                assert(out@[b].number@ == rows@[b].0);
            }
        }
        let ghost unsorted = out@;
        let sorted = sort_by_number(out);
        proof {
            assert forall|i2: int| 0 <= i2 < sorted@.len() implies #[trigger] self.stored().contains_key(
                sorted@[i2].number@,
            ) && self.stored()[sorted@[i2].number@] == entry_of(sorted@[i2]) && valid_entity(
                sorted@[i2],
            ) by {
                assert(sorted@.contains(sorted@[i2]));
                assert(sorted@.to_multiset().count(sorted@[i2]) > 0);
                assert(unsorted.to_multiset().count(sorted@[i2]) > 0);
                assert(unsorted.contains(sorted@[i2]));
                let j = choose|j: int| 0 <= j < unsorted.len() && unsorted[j] == sorted@[i2];
                assert(self.stored().contains_key(unsorted[j].number@));
            }
            assert forall|k: u16| #[trigger] self.stored().contains_key(k) implies exists|i2: int|
                0 <= i2 < sorted@.len() && sorted@[i2].number@ == k by {
                assert(db_pokemons(self.conn()).contains_key(k));
                let j = choose|j: int| 0 <= j < rows@.len() && rows@[j].0 == k;
                assert(unsorted[j].number@ == k);
                assert(unsorted.contains(unsorted[j]));
                assert(unsorted.to_multiset().count(unsorted[j]) > 0);
                assert(sorted@.to_multiset().count(unsorted[j]) > 0);
                assert(sorted@.contains(unsorted[j]));
                let i2 = choose|i2: int| 0 <= i2 < sorted@.len() && sorted@[i2] == unsorted[j];
                assert(sorted@[i2].number@ == k);
            }
            assert(fetch_all_contract(
                self.stored(),
                Result::<Vec<Pokemon>, RetrieveAllError>::Ok(sorted),
            ));
        }
        Ok(sorted)
    }

    fn fetch_one(&self, number: PokemonNumber) -> (r: Result<Pokemon, RetrieveError>) {
        let row = match query_pokemon_row(&self.connection, number.value()) {
            Ok(Some(row)) => row,
            Ok(None) => {
                return Err(RetrieveError::NotFound);
            },
            Err(_) => {
                return Err(RetrieveError::Unknown);
            },
        };
        let type_rows = match query_type_rows(&self.connection, number.value()) {
            Ok(type_rows) => type_rows,
            Err(_) => {
                return Err(RetrieveError::Unknown);
            },
        };
        match assemble_pokemon(row.0, row.1, type_rows) {
            Ok(p) => {
                proof {
                    assert(self.stored().contains_key(number@));
                    assert(self.stored()[number@] == (
                        db_pokemons(self.conn())[number@],
                        types_at(db_types(self.conn()), number@),
                    ));
                    assert(entry_of(p).1 == tag_names(p.types@).to_multiset());
                    assert(tag_names(p.types@).len() == p.types@.len());
                    assert(valid_entity(p));
                }
                Ok(p)
            },
            Err(_) => Err(RetrieveError::Unknown),
        }
    }

    fn delete_pokemon(&mut self, number: PokemonNumber) -> (r: Result<(), DeleteError>) {
        let ghost pre_p = db_pokemons(self.connection);
        let ghost pre_t = db_types(self.connection);
        match delete_pokemon_row(&mut self.connection, number.value()) {
            Ok(cnt) => {
                proof {
                    lemma_db_stored_remove(pre_p, pre_t, db_types(self.connection), number@);
                    if !pre_p.contains_key(number@) {
                        assert(db_stored(pre_p, pre_t).remove(number@) =~= db_stored(
                            pre_p,
                            pre_t,
                        ));
                    }
                }
                if cnt == 0 {
                    Err(DeleteError::NotFound)
                } else {
                    Ok(())
                }
            },
            Err(_) => Err(DeleteError::Unknown),
        }
    }
}

/// Transactional atomicity: a failed insert of an absent identifier never
/// leaves a partially inserted entity.  The contents either still lack the
/// identifier or carry the one complete entry, and a later fetch of it
/// either fails, answers `NotFound`, or returns the complete entity with
/// the full name and tag set.
pub proof fn lemma_failed_insert_not_partial(
    pre: StoredMap,
    post: StoredMap,
    number: PokemonNumber,
    name: PokemonName,
    types: PokemonTypes,
    rf: Result<Pokemon, RetrieveError>,
)
    requires
        !pre.contains_key(number@),
        insert_contract(pre, post, number, name, types, Err(InsertError::Unknown)),
        fetch_one_contract(post, number, rf),
    ensures
        post == pre || post == pre.insert(number@, (name@, tag_name_multiset(types@))),
        (rf matches Ok(q) ==> q.name@ == name@ && tag_name_multiset(q.types@)
            == tag_name_multiset(types@)),
{
}

} // verus!
