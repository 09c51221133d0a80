//! The shielded notes of wallets in the database, and how far their nullifiers were synced.

use vstd::prelude::*;
use vstd::string::*;

use crate::identifier::{to_array_32, WalletSeedHash};
use crate::sql::{
    blob, from_stored, loaded, plain_statement, stored, text, to_stored, Database, SqlModel,
    SqlValue, Statement, StatementModel,
};
use crate::text::{decimal, decimal_text};

verus! {

/// A note to insert.
pub struct InsertShieldedNote<'a> {
    pub note_data: &'a [u8],
    pub position: u64,
    pub cmx: &'a [u8; 32],
    pub nullifier: &'a [u8; 32],
    pub block_height: u64,
    pub value: u64,
    pub network: &'a str,
}

/// A note as it was read.
#[derive(Clone, Debug, PartialEq, Eq)]
pub struct ShieldedNoteRow {
    pub id: i64,
    pub note_data: Vec<u8>,
    pub position: u64,
    pub cmx: [u8; 32],
    pub nullifier: [u8; 32],
    pub block_height: u64,
    pub value: u64,
    pub is_spent: bool,
}

/// The contents of a `ShieldedNoteRow`.
pub struct NoteModel {
    pub id: i64,
    pub note_data: Seq<u8>,
    pub position: u64,
    pub cmx: Seq<u8>,
    pub nullifier: Seq<u8>,
    pub block_height: u64,
    pub value: u64,
    pub is_spent: bool,
}

impl View for ShieldedNoteRow {
    type V = NoteModel;

    open spec fn view(&self) -> NoteModel {
        NoteModel {
            id: self.id,
            note_data: self.note_data@,
            position: self.position,
            cmx: self.cmx@,
            nullifier: self.nullifier@,
            block_height: self.block_height,
            value: self.value,
            is_spent: self.is_spent,
        }
    }
}

/// The columns of a note, in the order in which they are selected. Each may fail to be read.
pub struct RawNoteRow<E> {
    pub id: Result<i64, E>,
    pub note_data: Result<Vec<u8>, E>,
    pub position: Result<i64, E>,
    pub cmx: Result<Vec<u8>, E>,
    pub nullifier: Result<Vec<u8>, E>,
    pub block_height: Result<i64, E>,
    pub value: Result<i64, E>,
    pub is_spent: Result<i64, E>,
}

/// The contents of a `RawNoteRow`.
pub struct RawNoteModel<E> {
    pub id: Result<i64, E>,
    pub note_data: Result<Seq<u8>, E>,
    pub position: Result<i64, E>,
    pub cmx: Result<Seq<u8>, E>,
    pub nullifier: Result<Seq<u8>, E>,
    pub block_height: Result<i64, E>,
    pub value: Result<i64, E>,
    pub is_spent: Result<i64, E>,
}

/// The bytes of a column, where it could be read.
pub open spec fn bytes_read<E>(read: Result<Vec<u8>, E>) -> Result<Seq<u8>, E> {
    match read {
        Ok(bytes) => Ok(bytes@),
        Err(e) => Err(e),
    }
}

impl<E> View for RawNoteRow<E> {
    type V = RawNoteModel<E>;

    open spec fn view(&self) -> RawNoteModel<E> {
        RawNoteModel {
            id: self.id,
            note_data: bytes_read(self.note_data),
            position: self.position,
            cmx: bytes_read(self.cmx),
            nullifier: bytes_read(self.nullifier),
            block_height: self.block_height,
            value: self.value,
            is_spent: self.is_spent,
        }
    }
}

/// Why a row cannot be read.
#[derive(Clone, Debug, PartialEq, Eq)]
pub enum RowError<E> {
    /// The database could not give a row or a column.
    Sql(E),
    /// A blob that should have 32 bytes has another length.
    CorruptedBlob(String),
}

/// The contents of a `RowError`.
pub enum RowErrorModel<E> {
    Sql(E),
    CorruptedBlob(Seq<char>),
}

impl<E> View for RowError<E> {
    type V = RowErrorModel<E>;

    open spec fn view(&self) -> RowErrorModel<E> {
        match self {
            RowError::Sql(e) => RowErrorModel::Sql(*e),
            RowError::CorruptedBlob(message) => RowErrorModel::CorruptedBlob(message@),
        }
    }
}

/// What is said of a blob that should have 32 bytes.
pub open spec fn corrupted_blob_text(column: Seq<char>, len: nat) -> Seq<char> {
    column + " blob has invalid length "@ + decimal(len) + ", expected 32 bytes"@
}

/// The message for a blob that should have 32 bytes.
pub fn corrupted_blob_length_error(column: &'static str, len: usize) -> (r: String)
    ensures
        r@ == corrupted_blob_text(column@, len as nat),
{
    column.to_owned().concat(" blob has invalid length ").concat(
        decimal_text(len as u64).as_str(),
    ).concat(", expected 32 bytes")
}

/// Takes the 32 bytes of a blob.
pub fn blob_to_32_bytes(column: &'static str, bytes: Vec<u8>) -> (r: Result<[u8; 32], String>)
    ensures
        match r {
            Ok(array) => bytes@.len() == 32 && array@ == bytes@,
            Err(message) => bytes@.len() != 32 && message@ == corrupted_blob_text(
                column@,
                bytes@.len(),
            ),
        },
{
    if bytes.len() != 32 {
        return Err(corrupted_blob_length_error(column, bytes.len()));
    }
    Ok(to_array_32(bytes.as_slice()))
}

/// The bytes of a blob column, where it could be read and has 32 of them.
pub open spec fn blob_column<E>(
    column: Seq<char>,
    read: Result<Seq<u8>, E>,
) -> Result<Seq<u8>, RowErrorModel<E>> {
    match read {
        Ok(bytes) => if bytes.len() == 32 {
            Ok(bytes)
        } else {
            Err(RowErrorModel::CorruptedBlob(corrupted_blob_text(column, bytes.len())))
        },
        Err(e) => Err(RowErrorModel::Sql(e)),
    }
}

/// The note that a row holds, or the first column in which it fails.
pub open spec fn note_in<E>(row: RawNoteModel<E>) -> Result<NoteModel, RowErrorModel<E>> {
    match (row.id, row.note_data, row.position) {
        (Err(e), _, _) => Err(RowErrorModel::Sql(e)),
        (_, Err(e), _) => Err(RowErrorModel::Sql(e)),
        (_, _, Err(e)) => Err(RowErrorModel::Sql(e)),
        (Ok(id), Ok(note_data), Ok(position)) => match blob_column("cmx"@, row.cmx) {
            Err(e) => Err(e),
            Ok(cmx) => match blob_column("nullifier"@, row.nullifier) {
                Err(e) => Err(e),
                Ok(nullifier) => match (row.block_height, row.value, row.is_spent) {
                    (Err(e), _, _) => Err(RowErrorModel::Sql(e)),
                    (_, Err(e), _) => Err(RowErrorModel::Sql(e)),
                    (_, _, Err(e)) => Err(RowErrorModel::Sql(e)),
                    (Ok(block_height), Ok(value), Ok(is_spent)) => Ok(
                        NoteModel {
                            id,
                            note_data,
                            position: loaded(position),
                            cmx,
                            nullifier,
                            block_height: loaded(block_height),
                            value: loaded(value),
                            is_spent: is_spent != 0,
                        },
                    ),
                },
            },
        },
    }
}

/// Reads a blob column.
fn read_blob<E>(column: &'static str, read: Result<Vec<u8>, E>) -> (r: Result<
    [u8; 32],
    RowError<E>,
>)
    ensures
        match r {
            Ok(array) => blob_column(column@, bytes_read(read)) == Ok::<_, RowErrorModel<E>>(array@),
            Err(e) => blob_column(column@, bytes_read(read)) == Err::<Seq<u8>, _>(e@),
        },
{
    match read {
        Ok(bytes) => match blob_to_32_bytes(column, bytes) {
            Ok(array) => Ok(array),
            Err(message) => Err(RowError::CorruptedBlob(message)),
        },
        Err(e) => Err(RowError::Sql(e)),
    }
}

/// Reads a note from its columns.
pub fn read_shielded_note<E>(row: RawNoteRow<E>) -> (r: Result<ShieldedNoteRow, RowError<E>>)
    ensures
        match r {
            Ok(note) => note_in(row@) == Ok::<_, RowErrorModel<E>>(note@),
            Err(e) => note_in(row@) == Err::<NoteModel, _>(e@),
        },
{
    let id: i64 = match row.id {
        Ok(id) => id,
        Err(e) => {
            return Err(RowError::Sql(e));
        },
    };
    let note_data = match row.note_data {
        Ok(note_data) => note_data,
        Err(e) => {
            return Err(RowError::Sql(e));
        },
    };
    let position: i64 = match row.position {
        Ok(position) => position,
        Err(e) => {
            return Err(RowError::Sql(e));
        },
    };
    let cmx = match read_blob("cmx", row.cmx) {
        Ok(cmx) => cmx,
        Err(e) => {
            return Err(e);
        },
    };
    let nullifier = match read_blob("nullifier", row.nullifier) {
        Ok(nullifier) => nullifier,
        Err(e) => {
            return Err(e);
        },
    };
    let block_height: i64 = match row.block_height {
        Ok(block_height) => block_height,
        Err(e) => {
            return Err(RowError::Sql(e));
        },
    };
    let value: i64 = match row.value {
        Ok(value) => value,
        Err(e) => {
            return Err(RowError::Sql(e));
        },
    };
    let is_spent: i64 = match row.is_spent {
        Ok(is_spent) => is_spent,
        Err(e) => {
            return Err(RowError::Sql(e));
        },
    };
    Ok(
        ShieldedNoteRow {
            id,
            note_data,
            position: from_stored(position),
            cmx,
            nullifier,
            block_height: from_stored(block_height),
            value: from_stored(value),
            is_spent: is_spent != 0,
        },
    )
}

/// What the next row came to: a note, or why there is none.
pub open spec fn row_note<E>(row: Result<RawNoteRow<E>, E>) -> Result<NoteModel, RowErrorModel<E>> {
    match row {
        Ok(row) => note_in(row@),
        Err(e) => Err(RowErrorModel::Sql(e)),
    }
}

/// The notes that rows hold, or the first row that fails.
pub open spec fn notes_in<E>(
    rows: Seq<Result<RawNoteRow<E>, E>>,
) -> Result<Seq<NoteModel>, RowErrorModel<E>>
    decreases rows.len(),
{
    if rows.len() == 0 {
        Ok(seq![])
    } else {
        match notes_in(rows.drop_last()) {
            Err(e) => Err(e),
            Ok(notes) => match row_note(rows.last()) {
                Ok(note) => Ok(notes.push(note)),
                Err(e) => Err(e),
            },
        }
    }
}

/// The contents of notes.
pub open spec fn note_models(notes: Seq<ShieldedNoteRow>) -> Seq<NoteModel> {
    notes.map_values(|note: ShieldedNoteRow| note@)
}

/// A row that fails makes all rows fail, with the error of the first one.
proof fn lemma_first_failure<E>(rows: Seq<Result<RawNoteRow<E>, E>>, n: int)
    requires
        0 <= n <= rows.len(),
        notes_in(rows.take(n)) is Err,
    ensures
        notes_in(rows) == notes_in(rows.take(n)),
    decreases rows.len() - n,
{
    if n < rows.len() {
        assert(rows.take(n + 1).drop_last() =~= rows.take(n));
        lemma_first_failure(rows, n + 1);
    } else {
        assert(rows.take(n) =~= rows);
    }
}

/// Reads the notes that `get_unspent_shielded_notes` or `get_all_shielded_notes` selected. The
/// first row that fails ends the reading.
pub fn read_shielded_notes<E>(rows: Vec<Result<RawNoteRow<E>, E>>) -> (r: Result<
    Vec<ShieldedNoteRow>,
    RowError<E>,
>)
    ensures
        match r {
            Ok(notes) => notes_in(rows@) == Ok::<_, RowErrorModel<E>>(note_models(notes@)),
            Err(e) => notes_in(rows@) == Err::<Seq<NoteModel>, _>(e@),
        },
{
    let mut notes: Vec<ShieldedNoteRow> = Vec::new();
    let ghost all = rows@;
    assert(note_models(notes@) =~= seq![]);
    for row in it: rows
        invariant
            it.seq() == all,
            notes_in(all.take(it.index() as int)) == Ok::<_, RowErrorModel<E>>(
                note_models(notes@),
            ),
    {
        let ghost n = it.index() as int;
        let ghost before = note_models(notes@);
        proof {
            assert(all.take(n + 1).drop_last() =~= all.take(n));
            assert(all.take(n + 1).last() == row);
        }
        match row {
            Ok(columns) => match read_shielded_note(columns) {
                Ok(note) => {
                    notes.push(note);
                    assert(note_models(notes@) =~= before.push(note@));
                },
                Err(e) => {
                    proof {
                        lemma_first_failure(all, n + 1);
                    }
                    return Err(e);
                },
            },
            Err(e) => {
                proof {
                    lemma_first_failure(all, n + 1);
                }
                return Err(RowError::Sql(e));
            },
        }
    }
    assert(all.take(all.len() as int) =~= all);
    Ok(notes)
}

/// Creates the table of the notes.
pub const CREATE_SHIELDED_NOTES: &'static str = "CREATE TABLE IF NOT EXISTS shielded_notes (
    id INTEGER PRIMARY KEY AUTOINCREMENT,
    wallet_seed_hash BLOB NOT NULL,
    note_data BLOB NOT NULL,
    position INTEGER NOT NULL,
    cmx BLOB NOT NULL,
    nullifier BLOB NOT NULL,
    block_height INTEGER NOT NULL,
    is_spent INTEGER NOT NULL DEFAULT 0,
    value INTEGER NOT NULL,
    network TEXT NOT NULL,
    UNIQUE(wallet_seed_hash, nullifier, network),
    FOREIGN KEY (wallet_seed_hash) REFERENCES wallet(seed_hash) ON DELETE CASCADE
)";

/// Creates the index of the notes.
pub const CREATE_SHIELDED_NOTES_INDEX: &'static str = "CREATE INDEX IF NOT EXISTS idx_shielded_notes_wallet_network
 ON shielded_notes (wallet_seed_hash, network)";

/// Inserts a note, unless the wallet has one with its nullifier on its network.
pub const INSERT_SHIELDED_NOTE: &'static str = "INSERT OR IGNORE INTO shielded_notes
 (wallet_seed_hash, note_data, position, cmx, nullifier, block_height, value, network)
 VALUES (?1, ?2, ?3, ?4, ?5, ?6, ?7, ?8)";

/// Selects the unspent notes of a wallet on a network, by position.
pub const SELECT_UNSPENT_NOTES: &'static str = "SELECT id, note_data, position, cmx, nullifier, block_height, value, is_spent
 FROM shielded_notes
 WHERE wallet_seed_hash = ?1 AND network = ?2 AND is_spent = 0
 ORDER BY position ASC";

/// Selects the notes of a wallet on a network, by position.
pub const SELECT_ALL_NOTES: &'static str = "SELECT id, note_data, position, cmx, nullifier, block_height, value, is_spent
 FROM shielded_notes
 WHERE wallet_seed_hash = ?1 AND network = ?2
 ORDER BY position ASC";

/// Marks the note with a nullifier as spent.
pub const MARK_NOTE_SPENT: &'static str = "UPDATE shielded_notes SET is_spent = 1
 WHERE wallet_seed_hash = ?1 AND nullifier = ?2 AND network = ?3";

/// Deletes the notes of a wallet on a network.
pub const DELETE_NOTES: &'static str = "DELETE FROM shielded_notes WHERE wallet_seed_hash = ?1 AND network = ?2";

/// Creates the table of the nullifier syncs.
pub const CREATE_WALLET_META: &'static str = "CREATE TABLE IF NOT EXISTS shielded_wallet_meta (
    wallet_seed_hash BLOB NOT NULL,
    network TEXT NOT NULL,
    last_nullifier_sync_height INTEGER NOT NULL DEFAULT 0,
    last_nullifier_sync_timestamp INTEGER NOT NULL DEFAULT 0,
    PRIMARY KEY (wallet_seed_hash, network),
    FOREIGN KEY (wallet_seed_hash) REFERENCES wallet(seed_hash) ON DELETE CASCADE
)";

/// Selects how far the nullifiers of a wallet on a network were synced.
pub const SELECT_SYNC_INFO: &'static str = "SELECT last_nullifier_sync_height, last_nullifier_sync_timestamp FROM shielded_wallet_meta
 WHERE wallet_seed_hash = ?1 AND network = ?2";

/// Sets how far the nullifiers of a wallet on a network were synced.
pub const REPLACE_SYNC_INFO: &'static str = "INSERT OR REPLACE INTO shielded_wallet_meta
 (wallet_seed_hash, network, last_nullifier_sync_height, last_nullifier_sync_timestamp)
 VALUES (?1, ?2, ?3, ?4)";

/// Selects the sum of the unspent notes of a wallet on a network.
pub const SELECT_BALANCE: &'static str = "SELECT COALESCE(SUM(value), 0) FROM shielded_notes
 WHERE wallet_seed_hash = ?1 AND network = ?2 AND is_spent = 0";

/// The parameters of a statement about a wallet on a network.
pub open spec fn wallet_params(seed_hash: Seq<u8>, network: Seq<char>) -> Seq<SqlModel> {
    seq![SqlModel::Blob(seed_hash), SqlModel::Text(network)]
}

/// The parameters of the insertion of a note.
pub open spec fn insert_params(seed_hash: Seq<u8>, note: InsertShieldedNote<'_>) -> Seq<SqlModel> {
    seq![
        SqlModel::Blob(seed_hash),
        SqlModel::Blob(note.note_data@),
        SqlModel::Integer(stored(note.position)),
        SqlModel::Blob(note.cmx@),
        SqlModel::Blob(note.nullifier@),
        SqlModel::Integer(stored(note.block_height)),
        SqlModel::Integer(stored(note.value)),
        SqlModel::Text(note.network@),
    ]
}

/// The parameters that name a nullifier of a wallet on a network.
pub open spec fn nullifier_params(
    seed_hash: Seq<u8>,
    nullifier: Seq<u8>,
    network: Seq<char>,
) -> Seq<SqlModel> {
    seq![SqlModel::Blob(seed_hash), SqlModel::Blob(nullifier), SqlModel::Text(network)]
}

/// The parameters that set how far nullifiers were synced.
pub open spec fn sync_params(
    seed_hash: Seq<u8>,
    network: Seq<char>,
    height: u64,
    timestamp: u64,
) -> Seq<SqlModel> {
    seq![
        SqlModel::Blob(seed_hash),
        SqlModel::Text(network),
        SqlModel::Integer(stored(height)),
        SqlModel::Integer(stored(timestamp)),
    ]
}

/// Makes a statement about a wallet on a network.
fn wallet_statement(sql: &str, wallet_seed_hash: &WalletSeedHash, network: &str) -> (r: Statement)
    ensures
        r@ == (StatementModel {
            sql: sql@,
            params: wallet_params(wallet_seed_hash@, network@),
        }),
{
    let params: Vec<SqlValue> = vec![blob(wallet_seed_hash.as_slice()), text(network)];
    let r = Statement { sql: sql.to_owned(), params };
    assert(r@.params =~= wallet_params(wallet_seed_hash@, network@));
    r
}

/// What a query for how far nullifiers were synced came to.
pub enum SyncInfoReply {
    /// The wallet was never synced on the network.
    NoRows,
    Failed(String),
    /// Height and timestamp, as they are stored.
    Row(i64, i64),
}

/// The height and the timestamp that a query came to: zeros where the wallet was never synced.
pub open spec fn sync_info(reply: SyncInfoReply) -> Result<(u64, u64), Seq<char>> {
    match reply {
        SyncInfoReply::NoRows => Ok((0, 0)),
        SyncInfoReply::Row(height, timestamp) => Ok((loaded(height), loaded(timestamp))),
        SyncInfoReply::Failed(e) => Err("Failed to get nullifier sync info: "@ + e@),
    }
}

impl Database {
    /// The statements that create the table of the notes and its index, to be executed in order.
    pub fn create_shielded_tables(&self) -> (r: Vec<Statement>)
        ensures
            r@.len() == 2,
            r@[0]@ == (StatementModel { sql: CREATE_SHIELDED_NOTES@, params: seq![] }),
            r@[1]@ == (StatementModel { sql: CREATE_SHIELDED_NOTES_INDEX@, params: seq![] }),
    {
        vec![
            plain_statement(CREATE_SHIELDED_NOTES.to_owned()),
            plain_statement(CREATE_SHIELDED_NOTES_INDEX.to_owned()),
        ]
    }

    /// The statement that inserts a note of a wallet. A note that the wallet has stays as it is.
    pub fn insert_shielded_note(
        &self,
        wallet_seed_hash: &WalletSeedHash,
        note: &InsertShieldedNote<'_>,
    ) -> (r: Statement)
        ensures
            r@ == (StatementModel {
                sql: INSERT_SHIELDED_NOTE@,
                params: insert_params(wallet_seed_hash@, *note),
            }),
    {
        let params: Vec<SqlValue> = vec![
            blob(wallet_seed_hash.as_slice()),
            blob(note.note_data),
            SqlValue::Integer(to_stored(note.position)),
            blob(note.cmx.as_slice()),
            blob(note.nullifier.as_slice()),
            SqlValue::Integer(to_stored(note.block_height)),
            SqlValue::Integer(to_stored(note.value)),
            text(note.network),
        ];
        let r = Statement { sql: INSERT_SHIELDED_NOTE.to_owned(), params };
        assert(r@.params =~= insert_params(wallet_seed_hash@, *note));
        r
    }

    /// The statement that selects the unspent notes of a wallet on a network, by position.
    pub fn get_unspent_shielded_notes(
        &self,
        wallet_seed_hash: &WalletSeedHash,
        network: &str,
    ) -> (r: Statement)
        ensures
            r@ == (StatementModel {
                sql: SELECT_UNSPENT_NOTES@,
                params: wallet_params(wallet_seed_hash@, network@),
            }),
    {
        wallet_statement(SELECT_UNSPENT_NOTES, wallet_seed_hash, network)
    }

    /// The statement that selects all notes of a wallet on a network, by position.
    pub fn get_all_shielded_notes(
        &self,
        wallet_seed_hash: &WalletSeedHash,
        network: &str,
    ) -> (r: Statement)
        ensures
            r@ == (StatementModel {
                sql: SELECT_ALL_NOTES@,
                params: wallet_params(wallet_seed_hash@, network@),
            }),
    {
        wallet_statement(SELECT_ALL_NOTES, wallet_seed_hash, network)
    }

    /// The statement that marks the note with a nullifier as spent. Its execution reports how many
    /// notes have that nullifier, spent before or not.
    pub fn mark_shielded_note_spent(
        &self,
        wallet_seed_hash: &WalletSeedHash,
        nullifier: &[u8; 32],
        network: &str,
    ) -> (r: Statement)
        ensures
            r@ == (StatementModel {
                sql: MARK_NOTE_SPENT@,
                params: nullifier_params(wallet_seed_hash@, nullifier@, network@),
            }),
    {
        let params: Vec<SqlValue> = vec![
            blob(wallet_seed_hash.as_slice()),
            blob(nullifier.as_slice()),
            text(network),
        ];
        let r = Statement { sql: MARK_NOTE_SPENT.to_owned(), params };
        assert(r@.params =~= nullifier_params(wallet_seed_hash@, nullifier@, network@));
        r
    }

    /// The statement that deletes the notes of a wallet on a network. Its execution reports how
    /// many there were.
    pub fn delete_shielded_notes(
        &self,
        wallet_seed_hash: &WalletSeedHash,
        network: &str,
    ) -> (r: Statement)
        ensures
            r@ == (StatementModel {
                sql: DELETE_NOTES@,
                params: wallet_params(wallet_seed_hash@, network@),
            }),
    {
        wallet_statement(DELETE_NOTES, wallet_seed_hash, network)
    }

    /// The statement that creates the table of the nullifier syncs.
    pub fn create_shielded_wallet_meta_table(&self) -> (r: Statement)
        ensures
            r@ == (StatementModel { sql: CREATE_WALLET_META@, params: seq![] }),
    {
        plain_statement(CREATE_WALLET_META.to_owned())
    }

    /// The statement that selects how far the nullifiers of a wallet on a network were synced.
    pub fn get_nullifier_sync_info(
        &self,
        wallet_seed_hash: &WalletSeedHash,
        network: &str,
    ) -> (r: Statement)
        ensures
            r@ == (StatementModel {
                sql: SELECT_SYNC_INFO@,
                params: wallet_params(wallet_seed_hash@, network@),
            }),
    {
        wallet_statement(SELECT_SYNC_INFO, wallet_seed_hash, network)
    }

    /// The height and the timestamp of the last sync, by what `get_nullifier_sync_info` selected:
    /// zeros where there was none.
    pub fn read_nullifier_sync_info(&self, reply: SyncInfoReply) -> (r: Result<
        (u64, u64),
        String,
    >)
        ensures
            match r {
                Ok(info) => sync_info(reply) == Ok::<_, Seq<char>>(info),
                Err(message) => sync_info(reply) == Err::<(u64, u64), _>(message@),
            },
    {
        match reply {
            SyncInfoReply::NoRows => Ok((0, 0)),
            SyncInfoReply::Row(height, timestamp) => Ok(
                (from_stored(height), from_stored(timestamp)),
            ),
            SyncInfoReply::Failed(e) => Err(
                "Failed to get nullifier sync info: ".to_owned().concat(e.as_str()),
            ),
        }
    }

    /// The statement that sets how far the nullifiers of a wallet on a network were synced.
    pub fn set_nullifier_sync_info(
        &self,
        wallet_seed_hash: &WalletSeedHash,
        network: &str,
        height: u64,
        timestamp: u64,
    ) -> (r: Statement)
        ensures
            r@ == (StatementModel {
                sql: REPLACE_SYNC_INFO@,
                params: sync_params(wallet_seed_hash@, network@, height, timestamp),
            }),
    {
        let params: Vec<SqlValue> = vec![
            blob(wallet_seed_hash.as_slice()),
            text(network),
            SqlValue::Integer(to_stored(height)),
            SqlValue::Integer(to_stored(timestamp)),
        ];
        let r = Statement { sql: REPLACE_SYNC_INFO.to_owned(), params };
        assert(r@.params =~= sync_params(wallet_seed_hash@, network@, height, timestamp));
        r
    }

    /// What the execution of `set_nullifier_sync_info` came to.
    pub fn nullifier_sync_info_set(&self, executed: Result<(), String>) -> (r: Result<(), String>)
        ensures
            match executed {
                Ok(()) => r is Ok,
                Err(e) => r is Err && r->Err_0@ == "Failed to set nullifier sync info: "@ + e@,
            },
    {
        match executed {
            Ok(()) => Ok(()),
            Err(e) => Err("Failed to set nullifier sync info: ".to_owned().concat(e.as_str())),
        }
    }

    /// Begins to add the timestamp of the last sync to a table that was made without it.
    pub fn add_nullifier_sync_timestamp_column<E>(&self) -> (r: ColumnStep<E>)
        ensures
            r@ == ColumnModel::<E>::AskTable,
    {
        ColumnStep::AskTable(TableProbe { begun: () })
    }

    /// The statement that selects the balance of a wallet on a network.
    pub fn get_shielded_balance(&self, wallet_seed_hash: &WalletSeedHash, network: &str) -> (r:
        Statement)
        ensures
            r@ == (StatementModel {
                sql: SELECT_BALANCE@,
                params: wallet_params(wallet_seed_hash@, network@),
            }),
    {
        wallet_statement(SELECT_BALANCE, wallet_seed_hash, network)
    }

    /// The balance, by the sum that `get_shielded_balance` selected.
    pub fn read_shielded_balance(&self, sum: i64) -> (r: u64)
        ensures
            r == loaded(sum),
    {
        from_stored(sum)
    }
}

/// Counts the tables of the nullifier syncs.
pub const COUNT_WALLET_META: &'static str = "SELECT COUNT(*) FROM sqlite_master WHERE type='table' AND name='shielded_wallet_meta'";

/// Counts the columns with the timestamp of the last sync.
pub const COUNT_TIMESTAMP_COLUMNS: &'static str = "SELECT COUNT(*) FROM pragma_table_info('shielded_wallet_meta') WHERE name='last_nullifier_sync_timestamp'";

/// Adds the column with the timestamp of the last sync.
pub const ADD_TIMESTAMP_COLUMN: &'static str = "ALTER TABLE shielded_wallet_meta ADD COLUMN last_nullifier_sync_timestamp INTEGER NOT NULL DEFAULT 0";

/// Waits for the number of tables of the nullifier syncs.
pub struct TableProbe {
    begun: (),
}

/// Waits for the number of columns with the timestamp.
pub struct ColumnProbe {
    begun: (),
}

/// Waits for the column to be added.
pub struct ColumnAddition {
    begun: (),
}

/// What to do next.
pub enum ColumnStep<E> {
    /// Query the number of tables.
    AskTable(TableProbe),
    /// Query the number of columns.
    AskColumn(ColumnProbe),
    /// Execute the statement that adds the column.
    Add(ColumnAddition),
    /// It is done, or a statement failed.
    Done(Result<(), E>),
}

/// The contents of a `ColumnStep`.
pub enum ColumnModel<E> {
    AskTable,
    AskColumn,
    Add,
    Done(Result<(), E>),
}

impl<E> View for ColumnStep<E> {
    type V = ColumnModel<E>;

    open spec fn view(&self) -> ColumnModel<E> {
        match self {
            ColumnStep::AskTable(_) => ColumnModel::AskTable,
            ColumnStep::AskColumn(_) => ColumnModel::AskColumn,
            ColumnStep::Add(_) => ColumnModel::Add,
            ColumnStep::Done(r) => ColumnModel::Done(*r),
        }
    }
}

/// What follows the number of tables: without a table there is nothing to do.
pub open spec fn after_table_count<E>(count: i64) -> ColumnModel<E> {
    if count > 0 {
        ColumnModel::AskColumn
    } else {
        ColumnModel::Done(Ok(()))
    }
}

/// What follows the number of columns: a column that is there is not added.
pub open spec fn after_column_count<E>(count: i64) -> ColumnModel<E> {
    if count > 0 {
        ColumnModel::Done(Ok(()))
    } else {
        ColumnModel::Add
    }
}

impl TableProbe {
    /// The statement to query.
    pub fn statement(&self) -> (r: Statement)
        ensures
            r@ == (StatementModel { sql: COUNT_WALLET_META@, params: seq![] }),
    {
        plain_statement(COUNT_WALLET_META.to_owned())
    }

    /// Goes on with the number of tables.
    pub fn resume<E>(self, count: Result<i64, E>) -> (r: ColumnStep<E>)
        ensures
            r@ == match count {
                Ok(count) => after_table_count(count),
                Err(e) => ColumnModel::Done(Err(e)),
            },
    {
        match count {
            Ok(count) => if count > 0 {
                ColumnStep::AskColumn(ColumnProbe { begun: () })
            } else {
                ColumnStep::Done(Ok(()))
            },
            Err(e) => ColumnStep::Done(Err(e)),
        }
    }
}

impl ColumnProbe {
    /// The statement to query.
    pub fn statement(&self) -> (r: Statement)
        ensures
            r@ == (StatementModel { sql: COUNT_TIMESTAMP_COLUMNS@, params: seq![] }),
    {
        plain_statement(COUNT_TIMESTAMP_COLUMNS.to_owned())
    }

    /// Goes on with the number of columns.
    pub fn resume<E>(self, count: Result<i64, E>) -> (r: ColumnStep<E>)
        ensures
            r@ == match count {
                Ok(count) => after_column_count(count),
                Err(e) => ColumnModel::Done(Err(e)),
            },
    {
        match count {
            Ok(count) => if count > 0 {
                ColumnStep::Done(Ok(()))
            } else {
                ColumnStep::Add(ColumnAddition { begun: () })
            },
            Err(e) => ColumnStep::Done(Err(e)),
        }
    }
}

impl ColumnAddition {
    /// The statement to execute.
    pub fn statement(&self) -> (r: Statement)
        ensures
            r@ == (StatementModel { sql: ADD_TIMESTAMP_COLUMN@, params: seq![] }),
    {
        plain_statement(ADD_TIMESTAMP_COLUMN.to_owned())
    }

    /// Ends once the column was added, or could not be.
    pub fn resume<E>(self, executed: Result<(), E>) -> (r: ColumnStep<E>)
        ensures
            r@ == ColumnModel::Done(executed),
    {
        ColumnStep::Done(executed)
    }
}

/// The statements about notes select, insert, mark and delete what belongs to a wallet and a network,
/// and select it by position.
pub proof fn law_note_statements_have_their_texts()
    ensures
        CREATE_SHIELDED_NOTES@
            == "CREATE TABLE IF NOT EXISTS shielded_notes (
    id INTEGER PRIMARY KEY AUTOINCREMENT,
    wallet_seed_hash BLOB NOT NULL,
    note_data BLOB NOT NULL,
    position INTEGER NOT NULL,
    cmx BLOB NOT NULL,
    nullifier BLOB NOT NULL,
    block_height INTEGER NOT NULL,
    is_spent INTEGER NOT NULL DEFAULT 0,
    value INTEGER NOT NULL,
    network TEXT NOT NULL,
    UNIQUE(wallet_seed_hash, nullifier, network),
    FOREIGN KEY (wallet_seed_hash) REFERENCES wallet(seed_hash) ON DELETE CASCADE
)"@,
        CREATE_SHIELDED_NOTES_INDEX@
            == "CREATE INDEX IF NOT EXISTS idx_shielded_notes_wallet_network
 ON shielded_notes (wallet_seed_hash, network)"@,
        INSERT_SHIELDED_NOTE@
            == "INSERT OR IGNORE INTO shielded_notes
 (wallet_seed_hash, note_data, position, cmx, nullifier, block_height, value, network)
 VALUES (?1, ?2, ?3, ?4, ?5, ?6, ?7, ?8)"@,
        SELECT_UNSPENT_NOTES@
            == "SELECT id, note_data, position, cmx, nullifier, block_height, value, is_spent
 FROM shielded_notes
 WHERE wallet_seed_hash = ?1 AND network = ?2 AND is_spent = 0
 ORDER BY position ASC"@,
        SELECT_ALL_NOTES@
            == "SELECT id, note_data, position, cmx, nullifier, block_height, value, is_spent
 FROM shielded_notes
 WHERE wallet_seed_hash = ?1 AND network = ?2
 ORDER BY position ASC"@,
        MARK_NOTE_SPENT@
            == "UPDATE shielded_notes SET is_spent = 1
 WHERE wallet_seed_hash = ?1 AND nullifier = ?2 AND network = ?3"@,
        DELETE_NOTES@
            == "DELETE FROM shielded_notes WHERE wallet_seed_hash = ?1 AND network = ?2"@,
        SELECT_BALANCE@
            == "SELECT COALESCE(SUM(value), 0) FROM shielded_notes
 WHERE wallet_seed_hash = ?1 AND network = ?2 AND is_spent = 0"@,
{
}

/// The statements about nullifier syncs set and select the height and the timestamp of a wallet on a
/// network, and add the timestamp where it is missing.
pub proof fn law_sync_statements_have_their_texts()
    ensures
        CREATE_WALLET_META@
            == "CREATE TABLE IF NOT EXISTS shielded_wallet_meta (
    wallet_seed_hash BLOB NOT NULL,
    network TEXT NOT NULL,
    last_nullifier_sync_height INTEGER NOT NULL DEFAULT 0,
    last_nullifier_sync_timestamp INTEGER NOT NULL DEFAULT 0,
    PRIMARY KEY (wallet_seed_hash, network),
    FOREIGN KEY (wallet_seed_hash) REFERENCES wallet(seed_hash) ON DELETE CASCADE
)"@,
        SELECT_SYNC_INFO@
            == "SELECT last_nullifier_sync_height, last_nullifier_sync_timestamp FROM shielded_wallet_meta
 WHERE wallet_seed_hash = ?1 AND network = ?2"@,
        REPLACE_SYNC_INFO@
            == "INSERT OR REPLACE INTO shielded_wallet_meta
 (wallet_seed_hash, network, last_nullifier_sync_height, last_nullifier_sync_timestamp)
 VALUES (?1, ?2, ?3, ?4)"@,
        COUNT_WALLET_META@
            == "SELECT COUNT(*) FROM sqlite_master WHERE type='table' AND name='shielded_wallet_meta'"@,
        COUNT_TIMESTAMP_COLUMNS@
            == "SELECT COUNT(*) FROM pragma_table_info('shielded_wallet_meta') WHERE name='last_nullifier_sync_timestamp'"@,
        ADD_TIMESTAMP_COLUMN@
            == "ALTER TABLE shielded_wallet_meta ADD COLUMN last_nullifier_sync_timestamp INTEGER NOT NULL DEFAULT 0"@,
{
}

/// Every parameter is bound where the text of its statement expects it: the wallet first, and its
/// network last, or second where a sync is set. Numbers are bound as they are stored.
pub proof fn law_parameters_stand_in_their_places(
    seed_hash: Seq<u8>,
    network: Seq<char>,
    nullifier: Seq<u8>,
    note: InsertShieldedNote<'_>,
    height: u64,
    timestamp: u64,
)
    ensures
        ({
            let wallet = wallet_params(seed_hash, network);
            let spent = nullifier_params(seed_hash, nullifier, network);
            let sync = sync_params(seed_hash, network, height, timestamp);
            let inserted = insert_params(seed_hash, note);
            &&& wallet.len() == 2
            &&& wallet[0] == SqlModel::Blob(seed_hash)
            &&& wallet[1] == SqlModel::Text(network)
            &&& spent.len() == 3
            &&& spent[0] == SqlModel::Blob(seed_hash)
            &&& spent[1] == SqlModel::Blob(nullifier)
            &&& spent[2] == SqlModel::Text(network)
            &&& sync.len() == 4
            &&& sync[0] == SqlModel::Blob(seed_hash)
            &&& sync[1] == SqlModel::Text(network)
            &&& sync[2] == SqlModel::Integer(stored(height))
            &&& sync[3] == SqlModel::Integer(stored(timestamp))
            &&& inserted.len() == 8
            &&& inserted[0] == SqlModel::Blob(seed_hash)
            &&& inserted[1] == SqlModel::Blob(note.note_data@)
            &&& inserted[2] == SqlModel::Integer(stored(note.position))
            &&& inserted[3] == SqlModel::Blob(note.cmx@)
            &&& inserted[4] == SqlModel::Blob(note.nullifier@)
            &&& inserted[5] == SqlModel::Integer(stored(note.block_height))
            &&& inserted[6] == SqlModel::Integer(stored(note.value))
            &&& inserted[7] == SqlModel::Text(note.network@)
        }),
{
}

/// A note is read exactly where every column is read and both blobs have 32 bytes. It has the value
/// of each column under its own name; numbers are what they were stored from, and any spent column
/// but 0 marks it as spent.
pub proof fn law_note_has_the_values_of_its_columns<E>(row: RawNoteRow<E>, note: ShieldedNoteRow)
    ensures
        note_in(row@) is Ok <==> row.id is Ok && row.note_data is Ok && row.position is Ok
            && row.cmx is Ok && row.cmx->Ok_0@.len() == 32 && row.nullifier is Ok
            && row.nullifier->Ok_0@.len() == 32 && row.block_height is Ok && row.value is Ok
            && row.is_spent is Ok,
        note_in(row@) == Ok::<_, RowErrorModel<E>>(note@) ==> {
            &&& note.id == row.id->Ok_0
            &&& note.note_data@ == row.note_data->Ok_0@
            &&& stored(note.position) == row.position->Ok_0
            &&& note.cmx@ == row.cmx->Ok_0@
            &&& note.nullifier@ == row.nullifier->Ok_0@
            &&& stored(note.block_height) == row.block_height->Ok_0
            &&& stored(note.value) == row.value->Ok_0
            &&& note.is_spent <==> row.is_spent->Ok_0 != 0
        },
{
}

/// Where a note cannot be read, the error is that of the first column, from the left, that cannot be
/// read or has a blob of another length than 32; for such a blob it names the column and the length.
pub proof fn law_first_bad_column_is_reported<E>(row: RawNoteRow<E>)
    ensures
        row.id matches Err(e) ==> note_in(row@) == Err::<NoteModel, _>(RowErrorModel::<E>::Sql(e)),
        row.id is Ok ==> {
            &&& row.note_data matches Err(e) ==> note_in(row@) == Err::<NoteModel, _>(
                RowErrorModel::<E>::Sql(e),
            )
            &&& row.note_data is Ok ==> {
                &&& row.position matches Err(e) ==> note_in(row@) == Err::<NoteModel, _>(
                    RowErrorModel::<E>::Sql(e),
                )
                &&& row.position is Ok ==> {
                    &&& row.cmx matches Err(e) ==> note_in(row@) == Err::<NoteModel, _>(
                        RowErrorModel::<E>::Sql(e),
                    )
                    &&& row.cmx matches Ok(bytes) ==> {
                        &&& bytes@.len() != 32 ==> note_in(row@) == Err::<NoteModel, _>(
                            RowErrorModel::<E>::CorruptedBlob(
                                "cmx"@ + " blob has invalid length "@ + decimal(bytes@.len())
                                    + ", expected 32 bytes"@,
                            ),
                        )
                        &&& bytes@.len() == 32 ==> {
                            &&& row.nullifier matches Err(e) ==> note_in(row@) == Err::<
                                NoteModel,
                                _,
                            >(RowErrorModel::<E>::Sql(e))
                            &&& row.nullifier matches Ok(other) ==> {
                                &&& other@.len() != 32 ==> note_in(row@) == Err::<NoteModel, _>(
                                    RowErrorModel::<E>::CorruptedBlob(
                                        "nullifier"@ + " blob has invalid length "@ + decimal(
                                            other@.len(),
                                        ) + ", expected 32 bytes"@,
                                    ),
                                )
                                &&& other@.len() == 32 ==> {
                                    &&& row.block_height matches Err(e) ==> note_in(row@) == Err::<
                                        NoteModel,
                                        _,
                                    >(RowErrorModel::<E>::Sql(e))
                                    &&& row.block_height is Ok ==> {
                                        &&& row.value matches Err(e) ==> note_in(row@) == Err::<
                                            NoteModel,
                                            _,
                                        >(RowErrorModel::<E>::Sql(e))
                                        &&& row.value is Ok ==> (row.is_spent matches Err(e)
                                            ==> note_in(row@) == Err::<NoteModel, _>(
                                            RowErrorModel::<E>::Sql(e),
                                        ))
                                    }
                                }
                            }
                        }
                    }
                }
            }
        },
{
}

/// Rows are read as one note each, in their order, where each of them is read; otherwise the error
/// is that of the first row that is not.
pub proof fn law_rows_are_read_in_order<E>(rows: Seq<Result<RawNoteRow<E>, E>>)
    ensures
        match notes_in(rows) {
            Ok(notes) => {
                &&& notes.len() == rows.len()
                &&& forall|i: int|
                    0 <= i < rows.len() ==> row_note(#[trigger] rows[i]) == Ok::<
                        _,
                        RowErrorModel<E>,
                    >(notes[i])
            },
            Err(e) => exists|i: int|
                0 <= i < rows.len() && row_note(#[trigger] rows[i]) == Err::<NoteModel, _>(e) && (
                forall|j: int| 0 <= j < i ==> row_note(#[trigger] rows[j]) is Ok),
        },
    decreases rows.len(),
{
    if rows.len() > 0 {
        let rest = rows.drop_last();
        law_rows_are_read_in_order(rest);
        let n = rest.len() as int;
        assert(rows[n] == rows.last());
        match notes_in(rest) {
            Ok(before) => {
                assert forall|j: int| 0 <= j < n implies row_note(#[trigger] rows[j]) is Ok by {
                    assert(rest[j] == rows[j]);
                }
                if let Ok(notes) = notes_in(rows) {
                    assert forall|i: int| 0 <= i < rows.len() implies row_note(
                        #[trigger] rows[i],
                    ) == Ok::<_, RowErrorModel<E>>(notes[i]) by {
                        if i < n {
                            assert(rest[i] == rows[i]);
                        }
                    }
                }
            },
            Err(e) => {
                let i = choose|i: int|
                    0 <= i < rest.len() && row_note(#[trigger] rest[i]) == Err::<NoteModel, _>(e)
                        && (forall|j: int| 0 <= j < i ==> row_note(#[trigger] rest[j]) is Ok);
                assert(rows[i] == rest[i]);
                assert forall|j: int| 0 <= j < i implies row_note(#[trigger] rows[j]) is Ok by {
                    assert(rest[j] == rows[j]);
                }
            },
        }
    }
}

/// A row that the database did not give fails with the error of the database, and one that it gave
/// is read as the note in it.
pub proof fn law_row_is_its_note<E>(row: RawNoteRow<E>, e: E)
    ensures
        row_note(Ok::<_, E>(row)) == note_in(row@),
        row_note(Err::<RawNoteRow<E>, _>(e)) == Err::<NoteModel, _>(RowErrorModel::Sql(e)),
{
}

/// The contents of a list of notes are those of its notes, at their places.
pub proof fn law_note_models_are_those_of_the_notes(notes: Seq<ShieldedNoteRow>)
    ensures
        note_models(notes).len() == notes.len(),
        forall|i: int|
            0 <= i < notes.len() ==> {
                let model = #[trigger] note_models(notes)[i];
                &&& model.id == notes[i].id
                &&& model.note_data == notes[i].note_data@
                &&& model.position == notes[i].position
                &&& model.cmx == notes[i].cmx@
                &&& model.nullifier == notes[i].nullifier@
                &&& model.block_height == notes[i].block_height
                &&& model.value == notes[i].value
                &&& model.is_spent == notes[i].is_spent
            },
{
}

/// Of a blob of another length than 32, the message names the column and the length.
pub proof fn law_corrupted_blob_is_named(column: Seq<char>, len: nat)
    ensures
        corrupted_blob_text(column, len) == column + " blob has invalid length "@ + decimal(len)
            + ", expected 32 bytes"@,
{
}

/// How far a wallet was synced is read as it was set, and as zeros where it was never set. A failure
/// of the database is reported as one to get it.
pub proof fn law_sync_info_is_read_as_it_was_set(height: u64, timestamp: u64, e: String)
    ensures
        sync_info(SyncInfoReply::Row(stored(height), stored(timestamp))) == Ok::<_, Seq<char>>(
            (height, timestamp),
        ),
        sync_info(SyncInfoReply::NoRows) == Ok::<_, Seq<char>>((0u64, 0u64)),
        sync_info(SyncInfoReply::Failed(e)) == Err::<(u64, u64), _>(
            "Failed to get nullifier sync info: "@ + e@,
        ),
{
}

/// The column is added exactly where there is a table without it, so that there is one column in the
/// end, however often this is done.
pub proof fn law_column_is_added_once<E>(tables: i64, columns: i64)
    ensures
        after_table_count::<E>(tables) is AskColumn <==> tables > 0,
        tables <= 0 ==> after_table_count::<E>(tables) == ColumnModel::<E>::Done(Ok(())),
        after_column_count::<E>(columns) is Add <==> columns <= 0,
        columns > 0 ==> after_column_count::<E>(columns) == ColumnModel::<E>::Done(Ok(())),
{
}

/// A step shows what is to be asked or done next, or how the migration ended.
pub proof fn law_column_step_shows_what_to_do<E>(step: ColumnStep<E>)
    ensures
        match step {
            ColumnStep::AskTable(_) => step@ == ColumnModel::<E>::AskTable,
            ColumnStep::AskColumn(_) => step@ == ColumnModel::<E>::AskColumn,
            ColumnStep::Add(_) => step@ == ColumnModel::<E>::Add,
            ColumnStep::Done(result) => step@ == ColumnModel::<E>::Done(result),
        },
{
}

/// An error of a row shows the error of the database, or the message on the blob.
pub proof fn law_row_error_shows_what_failed<E>(error: RowError<E>)
    ensures
        match error {
            RowError::Sql(e) => error@ == RowErrorModel::<E>::Sql(e),
            RowError::CorruptedBlob(message) => error@ == RowErrorModel::<E>::CorruptedBlob(
                message@,
            ),
        },
{
}

} // verus!
