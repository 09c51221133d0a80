//! Shielded notes, nullifier syncs and the commitment tree, on a database in memory.

use dash_evo_tool::commitment_tree::TreeStep;
use dash_evo_tool::shielded::{
    blob_to_32_bytes, corrupted_blob_length_error, read_shielded_note, read_shielded_notes,
    ColumnStep, InsertShieldedNote, RawNoteRow, RowError, ShieldedNoteRow, SyncInfoReply,
};
use dash_evo_tool::sql::{from_stored, to_stored, Database, SqlValue, Statement};
use dash_evo_tool::text::decimal_text;
use rusqlite::types::Value;
use rusqlite::{Connection, OptionalExtension, Row};

const WALLET: [u8; 32] = [1u8; 32];
const OTHER_WALLET: [u8; 32] = [2u8; 32];

fn db() -> Database {
    Database {}
}

fn values(statement: &Statement) -> Vec<Value> {
    statement
        .params
        .iter()
        .map(|p| match p {
            SqlValue::Blob(bytes) => Value::Blob(bytes.clone()),
            SqlValue::Integer(n) => Value::Integer(*n),
            SqlValue::Text(text) => Value::Text(text.clone()),
        })
        .collect()
}

fn execute(conn: &Connection, statement: &Statement) -> rusqlite::Result<usize> {
    conn.execute(&statement.sql, rusqlite::params_from_iter(values(statement)))
}

fn number(conn: &Connection, statement: &Statement) -> rusqlite::Result<i64> {
    conn.query_row(
        &statement.sql,
        rusqlite::params_from_iter(values(statement)),
        |row| row.get(0),
    )
}

fn open() -> Connection {
    let conn = Connection::open_in_memory().unwrap();
    conn.execute("CREATE TABLE wallet (seed_hash BLOB PRIMARY KEY)", [])
        .unwrap();
    for wallet in [WALLET, OTHER_WALLET] {
        conn.execute("INSERT INTO wallet VALUES (?1)", [wallet.as_slice()])
            .unwrap();
    }
    for statement in db().create_shielded_tables() {
        execute(&conn, &statement).unwrap();
    }
    execute(&conn, &db().create_shielded_wallet_meta_table()).unwrap();
    conn
}

fn raw(row: &Row<'_>) -> RawNoteRow<String> {
    let text = |e: rusqlite::Error| e.to_string();
    RawNoteRow {
        id: row.get(0).map_err(text),
        note_data: row.get(1).map_err(text),
        position: row.get(2).map_err(text),
        cmx: row.get(3).map_err(text),
        nullifier: row.get(4).map_err(text),
        block_height: row.get(5).map_err(text),
        value: row.get(6).map_err(text),
        is_spent: row.get(7).map_err(text),
    }
}

fn select(conn: &Connection, statement: &Statement) -> Result<Vec<ShieldedNoteRow>, RowError<String>> {
    let mut prepared = conn.prepare(&statement.sql).unwrap();
    let rows = prepared
        .query_map(rusqlite::params_from_iter(values(statement)), |row| Ok(raw(row)))
        .unwrap();
    read_shielded_notes(rows.map(|row| row.map_err(|e| e.to_string())).collect())
}

fn unspent(conn: &Connection, wallet: &[u8; 32], network: &str) -> Vec<ShieldedNoteRow> {
    select(conn, &db().get_unspent_shielded_notes(wallet, network)).unwrap()
}

fn all(conn: &Connection, wallet: &[u8; 32], network: &str) -> Vec<ShieldedNoteRow> {
    select(conn, &db().get_all_shielded_notes(wallet, network)).unwrap()
}

fn insert(conn: &Connection, wallet: &[u8; 32], network: &str, n: u8, position: u64, value: u64) -> usize {
    let note = InsertShieldedNote {
        note_data: &[n, n, n],
        position,
        cmx: &[n; 32],
        nullifier: &[n + 100; 32],
        block_height: 1000 + n as u64,
        value,
        network,
    };
    execute(conn, &db().insert_shielded_note(wallet, &note)).unwrap()
}

fn balance(conn: &Connection, wallet: &[u8; 32], network: &str) -> u64 {
    db().read_shielded_balance(number(conn, &db().get_shielded_balance(wallet, network)).unwrap())
}

#[test]
fn notes_are_read_back_by_position() {
    let conn = open();
    assert_eq!(insert(&conn, &WALLET, "test", 1, 30, 5), 1);
    assert_eq!(insert(&conn, &WALLET, "test", 2, 10, 6), 1);
    assert_eq!(insert(&conn, &WALLET, "test", 3, 20, 7), 1);
    let notes = unspent(&conn, &WALLET, "test");
    let positions: Vec<u64> = notes.iter().map(|n| n.position).collect();
    assert_eq!(positions, vec![10, 20, 30]);
    assert_eq!(
        notes[0],
        ShieldedNoteRow {
            id: 2,
            note_data: vec![2, 2, 2],
            position: 10,
            cmx: [2u8; 32],
            nullifier: [102u8; 32],
            block_height: 1002,
            value: 6,
            is_spent: false,
        }
    );
}

#[test]
fn large_numbers_are_read_back() {
    let conn = open();
    insert(&conn, &WALLET, "test", 1, u64::MAX, u64::MAX - 1);
    let notes = all(&conn, &WALLET, "test");
    assert_eq!(notes[0].position, u64::MAX);
    assert_eq!(notes[0].value, u64::MAX - 1);
    for n in [0u64, 1, i64::MAX as u64, i64::MAX as u64 + 1, u64::MAX] {
        assert_eq!(from_stored(to_stored(n)), n);
    }
    assert_eq!(to_stored(u64::MAX), -1);
    assert_eq!(to_stored(1 << 63), i64::MIN);
}

#[test]
fn a_note_is_inserted_once() {
    let conn = open();
    assert_eq!(insert(&conn, &WALLET, "test", 1, 1, 5), 1);
    assert_eq!(insert(&conn, &WALLET, "test", 1, 9, 9), 0);
    let notes = all(&conn, &WALLET, "test");
    assert_eq!(notes.len(), 1);
    assert_eq!(notes[0].value, 5);
    // Other wallets and networks have their own.
    assert_eq!(insert(&conn, &WALLET, "main", 1, 1, 5), 1);
    assert_eq!(insert(&conn, &OTHER_WALLET, "test", 1, 1, 5), 1);
    assert_eq!(all(&conn, &WALLET, "test"), notes);
}

#[test]
fn unspent_notes_are_those_of_all_that_are_not_spent() {
    let conn = open();
    for n in 1..6u8 {
        insert(&conn, &WALLET, "test", n, n as u64, 5);
    }
    for n in [2u8, 5] {
        let mark = db().mark_shielded_note_spent(&WALLET, &[n + 100; 32], "test");
        assert_eq!(execute(&conn, &mark).unwrap(), 1);
    }
    let every = all(&conn, &WALLET, "test");
    assert_eq!(every.len(), 5);
    let fresh: Vec<ShieldedNoteRow> = every.into_iter().filter(|n| !n.is_spent).collect();
    assert_eq!(unspent(&conn, &WALLET, "test"), fresh);
    assert_eq!(fresh.len(), 3);
}

#[test]
fn a_spent_note_leaves_the_unspent_ones() {
    let conn = open();
    insert(&conn, &WALLET, "test", 1, 1, 5);
    insert(&conn, &WALLET, "test", 2, 2, 6);
    insert(&conn, &OTHER_WALLET, "test", 1, 1, 7);
    let mark = db().mark_shielded_note_spent(&WALLET, &[101u8; 32], "test");
    assert_eq!(execute(&conn, &mark).unwrap(), 1);
    let left: Vec<u64> = unspent(&conn, &WALLET, "test").iter().map(|n| n.value).collect();
    assert_eq!(left, vec![6]);
    let spent: Vec<bool> = all(&conn, &WALLET, "test").iter().map(|n| n.is_spent).collect();
    assert_eq!(spent, vec![true, false]);
    assert_eq!(unspent(&conn, &OTHER_WALLET, "test").len(), 1);
    // To mark it again reports the same number and changes nothing.
    let before = all(&conn, &WALLET, "test");
    assert_eq!(execute(&conn, &mark).unwrap(), 1);
    assert_eq!(all(&conn, &WALLET, "test"), before);
    let unknown = db().mark_shielded_note_spent(&WALLET, &[9u8; 32], "test");
    assert_eq!(execute(&conn, &unknown).unwrap(), 0);
}

#[test]
fn deleted_notes_are_gone() {
    let conn = open();
    insert(&conn, &WALLET, "test", 1, 1, 5);
    insert(&conn, &WALLET, "test", 2, 2, 6);
    insert(&conn, &WALLET, "main", 1, 1, 7);
    assert_eq!(execute(&conn, &db().delete_shielded_notes(&WALLET, "test")).unwrap(), 2);
    assert!(all(&conn, &WALLET, "test").is_empty());
    assert_eq!(execute(&conn, &db().delete_shielded_notes(&WALLET, "test")).unwrap(), 0);
    assert_eq!(all(&conn, &WALLET, "main").len(), 1);
}

#[test]
fn balance_is_the_sum_of_unspent_notes() {
    let conn = open();
    assert_eq!(balance(&conn, &WALLET, "test"), 0);
    insert(&conn, &WALLET, "test", 1, 1, 5);
    insert(&conn, &WALLET, "test", 2, 2, 6);
    insert(&conn, &WALLET, "main", 3, 3, 100);
    assert_eq!(balance(&conn, &WALLET, "test"), 11);
    execute(&conn, &db().mark_shielded_note_spent(&WALLET, &[101u8; 32], "test")).unwrap();
    assert_eq!(balance(&conn, &WALLET, "test"), 6);
    // Values that are stored as negative numbers count up to multiples of 2^64.
    insert(&conn, &WALLET, "test", 4, 4, u64::MAX);
    assert_eq!(balance(&conn, &WALLET, "test"), 5);
}

#[test]
fn corrupted_blobs_are_reported() {
    assert_eq!(
        corrupted_blob_length_error("cmx", 7),
        "cmx blob has invalid length 7, expected 32 bytes"
    );
    assert_eq!(blob_to_32_bytes("cmx", vec![3; 32]).unwrap(), [3u8; 32]);
    assert_eq!(
        blob_to_32_bytes("nullifier", vec![0; 1203]).unwrap_err(),
        "nullifier blob has invalid length 1203, expected 32 bytes"
    );
    assert_eq!(decimal_text(0), "0");
    assert_eq!(decimal_text(u64::MAX), "18446744073709551615");

    let conn = open();
    insert(&conn, &WALLET, "test", 1, 1, 5);
    conn.execute("UPDATE shielded_notes SET nullifier = X'0102'", []).unwrap();
    assert_eq!(
        select(&conn, &db().get_all_shielded_notes(&WALLET, "test")).unwrap_err(),
        RowError::CorruptedBlob("nullifier blob has invalid length 2, expected 32 bytes".to_string())
    );
    conn.execute("UPDATE shielded_notes SET cmx = X''", []).unwrap();
    assert_eq!(
        select(&conn, &db().get_all_shielded_notes(&WALLET, "test")).unwrap_err(),
        RowError::CorruptedBlob("cmx blob has invalid length 0, expected 32 bytes".to_string())
    );
}

fn good_row() -> RawNoteRow<u8> {
    RawNoteRow {
        id: Ok(1),
        note_data: Ok(vec![]),
        position: Ok(2),
        cmx: Ok(vec![3; 32]),
        nullifier: Ok(vec![4; 32]),
        block_height: Ok(5),
        value: Ok(-1),
        is_spent: Ok(2),
    }
}

#[test]
fn the_first_column_that_fails_is_reported() {
    let note = read_shielded_note(good_row()).unwrap();
    assert_eq!((note.value, note.is_spent), (u64::MAX, true));
    let mut row = good_row();
    row.is_spent = Err(8);
    assert_eq!(read_shielded_note(row).unwrap_err(), RowError::Sql(8));
    let mut row = good_row();
    row.cmx = Ok(vec![]);
    row.nullifier = Err(5);
    assert!(matches!(read_shielded_note(row).unwrap_err(), RowError::CorruptedBlob(_)));
    let mut row = good_row();
    row.position = Err(3);
    row.cmx = Ok(vec![]);
    assert_eq!(read_shielded_note(row).unwrap_err(), RowError::Sql(3));
    // The first row that fails ends the reading.
    let mut bad = good_row();
    bad.value = Err(7);
    assert_eq!(
        read_shielded_notes(vec![Ok(good_row()), Ok(bad), Err(9)]).unwrap_err(),
        RowError::Sql(7)
    );
    assert_eq!(
        read_shielded_notes(vec![Ok(good_row()), Err(9)]).unwrap_err(),
        RowError::Sql(9)
    );
    assert_eq!(read_shielded_notes(vec![Ok(good_row())]).unwrap().len(), 1);
}

fn sync_info(conn: &Connection, wallet: &[u8; 32], network: &str) -> Result<(u64, u64), String> {
    let statement = db().get_nullifier_sync_info(wallet, network);
    let reply = match conn.query_row(
        &statement.sql,
        rusqlite::params_from_iter(values(&statement)),
        |row| Ok((row.get::<_, i64>(0)?, row.get::<_, i64>(1)?)),
    ) {
        Ok((height, timestamp)) => SyncInfoReply::Row(height, timestamp),
        Err(rusqlite::Error::QueryReturnedNoRows) => SyncInfoReply::NoRows,
        Err(e) => SyncInfoReply::Failed(e.to_string()),
    };
    db().read_nullifier_sync_info(reply)
}

#[test]
fn sync_info_is_read_back() {
    let conn = open();
    assert_eq!(sync_info(&conn, &WALLET, "test"), Ok((0, 0)));
    for (height, timestamp) in [(5, 6), (u64::MAX, 1 << 63)] {
        let set = db().set_nullifier_sync_info(&WALLET, "test", height, timestamp);
        execute(&conn, &set).unwrap();
        assert_eq!(sync_info(&conn, &WALLET, "test"), Ok((height, timestamp)));
    }
    assert_eq!(sync_info(&conn, &WALLET, "main"), Ok((0, 0)));
    assert_eq!(sync_info(&conn, &OTHER_WALLET, "test"), Ok((0, 0)));
}

#[test]
fn sync_info_may_fail() {
    assert_eq!(
        db().read_nullifier_sync_info(SyncInfoReply::Failed("locked".to_string())),
        Err("Failed to get nullifier sync info: locked".to_string())
    );
    assert_eq!(
        db().nullifier_sync_info_set(Err("locked".to_string())),
        Err("Failed to set nullifier sync info: locked".to_string())
    );
    assert_eq!(db().nullifier_sync_info_set(Ok(())), Ok(()));
}

fn migrate(conn: &Connection) -> (Result<(), rusqlite::Error>, bool) {
    let mut step: ColumnStep<rusqlite::Error> = db().add_nullifier_sync_timestamp_column();
    let mut added = false;
    loop {
        step = match step {
            ColumnStep::AskTable(probe) => {
                let count = number(conn, &probe.statement());
                probe.resume(count)
            }
            ColumnStep::AskColumn(probe) => {
                let count = number(conn, &probe.statement());
                probe.resume(count)
            }
            ColumnStep::Add(addition) => {
                added = true;
                let executed = execute(conn, &addition.statement()).map(|_| ());
                addition.resume(executed)
            }
            ColumnStep::Done(result) => return (result, added),
        }
    }
}

#[test]
fn timestamp_column_is_added_once() {
    let conn = Connection::open_in_memory().unwrap();
    assert!(matches!(migrate(&conn), (Ok(()), false)));
    conn.execute(
        "CREATE TABLE shielded_wallet_meta (wallet_seed_hash BLOB NOT NULL, network TEXT NOT NULL,
         last_nullifier_sync_height INTEGER NOT NULL DEFAULT 0,
         PRIMARY KEY (wallet_seed_hash, network))",
        [],
    )
    .unwrap();
    conn.execute("INSERT INTO shielded_wallet_meta VALUES (?1, 'test', 5)", [WALLET.as_slice()])
        .unwrap();
    assert!(matches!(migrate(&conn), (Ok(()), true)));
    assert!(matches!(migrate(&conn), (Ok(()), false)));
    assert_eq!(sync_info(&conn, &WALLET, "test"), Ok((5, 0)));
    // A timestamp that was set since stays.
    execute(&conn, &db().set_nullifier_sync_info(&WALLET, "test", 6, 7)).unwrap();
    assert!(matches!(migrate(&conn), (Ok(()), false)));
    assert_eq!(sync_info(&conn, &WALLET, "test"), Ok((6, 7)));
}

#[test]
fn a_migration_that_fails_ends() {
    let ColumnStep::AskTable(probe) = db().add_nullifier_sync_timestamp_column::<u8>() else {
        panic!("the table is looked for first")
    };
    assert!(matches!(probe.resume(Err(4u8)), ColumnStep::Done(Err(4))));
}

fn run_tree(conn: &Connection, mut step: TreeStep<rusqlite::Error>) -> Result<(), rusqlite::Error> {
    loop {
        step = match step {
            TreeStep::Execute(command) => {
                let executed = execute(conn, &command.statement()).map(|_| ());
                command.resume(executed)
            }
            TreeStep::ReadOwner(read) => {
                let owner = conn
                    .query_row(&read.statement().sql, [], |row| row.get::<_, String>(0))
                    .optional();
                read.resume(owner)
            }
            TreeStep::Ask(question) => {
                let answer = number(conn, &question.statement());
                question.resume(answer)
            }
            TreeStep::Done(result) => return result,
        }
    }
}

fn prepare(conn: &Connection, network: &str) {
    run_tree(conn, db().prepare_commitment_tree_tables(network)).unwrap();
}

fn clear(conn: &Connection, network: &str) {
    run_tree(conn, db().clear_commitment_tree_tables(network)).unwrap();
}

fn owner(conn: &Connection) -> Option<String> {
    conn.query_row(
        "SELECT network FROM shielded_commitment_tree_meta WHERE singleton = 0",
        [],
        |row| row.get(0),
    )
    .optional()
    .unwrap()
}

const TREE_TABLES: [&str; 4] = [
    "commitment_tree_shards",
    "commitment_tree_cap",
    "commitment_tree_checkpoints",
    "commitment_tree_checkpoint_marks_removed",
];

/// Makes some tables of the tree, with a row in each.
fn grow(conn: &Connection, tables: &[usize]) {
    for k in tables {
        let name = TREE_TABLES[*k];
        conn.execute(&format!("CREATE TABLE IF NOT EXISTS {} (x INTEGER)", name), [])
            .unwrap();
        conn.execute(&format!("INSERT INTO {} VALUES (1)", name), []).unwrap();
    }
}

fn rows(conn: &Connection, tables: &[usize]) -> Vec<i64> {
    tables
        .iter()
        .map(|k| {
            conn.query_row(&format!("SELECT COUNT(*) FROM {}", TREE_TABLES[*k]), [], |row| {
                row.get(0)
            })
            .unwrap()
        })
        .collect()
}

#[test]
fn a_tree_is_bound_to_its_network() {
    let conn = open();
    prepare(&conn, "test");
    assert_eq!(owner(&conn).as_deref(), Some("test"));
    grow(&conn, &[0, 1, 2, 3]);
    prepare(&conn, "test");
    assert_eq!(rows(&conn, &[0, 1, 2, 3]), vec![1, 1, 1, 1]);
    prepare(&conn, "main");
    assert_eq!(owner(&conn).as_deref(), Some("main"));
    assert_eq!(rows(&conn, &[0, 1, 2, 3]), vec![0, 0, 0, 0]);
}

#[test]
fn a_tree_with_missing_tables_is_prepared() {
    let conn = open();
    grow(&conn, &[3]);
    prepare(&conn, "test");
    assert_eq!(rows(&conn, &[3]), vec![0]);
    grow(&conn, &[1, 3]);
    prepare(&conn, "main");
    assert_eq!(rows(&conn, &[1, 3]), vec![0, 0]);
    let tables: i64 = conn
        .query_row(
            "SELECT COUNT(*) FROM sqlite_master WHERE name LIKE 'commitment_tree%'",
            [],
            |row| row.get(0),
        )
        .unwrap();
    assert_eq!(tables, 2);
}

#[test]
fn only_the_tree_of_the_network_is_cleared() {
    let conn = open();
    clear(&conn, "test");
    assert_eq!(owner(&conn), None);
    prepare(&conn, "test");
    grow(&conn, &[0, 2]);
    clear(&conn, "main");
    assert_eq!(rows(&conn, &[0, 2]), vec![1, 1]);
    assert_eq!(owner(&conn).as_deref(), Some("test"));
    clear(&conn, "test");
    assert_eq!(rows(&conn, &[0, 2]), vec![0, 0]);
    assert_eq!(owner(&conn), None);
}

#[test]
fn a_tree_statement_that_fails_ends() {
    let TreeStep::Execute(command) = db().prepare_commitment_tree_tables::<u8>("test") else {
        panic!("the owner has to be readable first")
    };
    assert!(matches!(command.resume(Err(3u8)), TreeStep::Done(Err(3))));
    let TreeStep::Execute(command) = db().clear_commitment_tree_tables::<u8>("test") else {
        panic!("the owner has to be readable first")
    };
    let TreeStep::ReadOwner(read) = command.resume::<u8>(Ok(())) else {
        panic!("the owner is read")
    };
    assert!(matches!(read.resume(Err(4u8)), TreeStep::Done(Err(4))));
}
