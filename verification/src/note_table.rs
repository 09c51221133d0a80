//! What the statements on shielded notes and nullifier syncs make of their tables.
//!
//! The tables are described as far as the statements reach: which rows a statement adds, changes,
//! removes or selects, by its parameters. This is a model: the proofs below rest on it, and no
//! proof ties it to SQLite. That SQLite does what the model says is shown by the tests in
//! `tests/shielded.rs`, which run the statements on a database in memory.

use vstd::arithmetic::div_mod::lemma_fundamental_div_mod_converse;
use vstd::prelude::*;

use crate::shielded::{
    after_column_count, after_table_count, insert_params, note_in, nullifier_params,
    sync_info, sync_params, wallet_params, ColumnModel, InsertShieldedNote, NoteModel,
    RawNoteModel, RowErrorModel, SyncInfoReply,
};
use crate::sql::{loaded, stored, SqlModel};

verus! {

/// A row of the table of the notes.
pub struct NoteRecord {
    pub id: i64,
    pub wallet_seed_hash: Seq<u8>,
    pub note_data: Seq<u8>,
    pub position: i64,
    pub cmx: Seq<u8>,
    pub nullifier: Seq<u8>,
    pub block_height: i64,
    pub is_spent: i64,
    pub value: i64,
    pub network: Seq<char>,
}

/// The row that the parameters of an insertion make. A new note is unspent.
pub open spec fn record_of(params: Seq<SqlModel>, id: i64) -> NoteRecord {
    NoteRecord {
        id,
        wallet_seed_hash: params[0]->Blob_0,
        note_data: params[1]->Blob_0,
        position: params[2]->Integer_0,
        cmx: params[3]->Blob_0,
        nullifier: params[4]->Blob_0,
        block_height: params[5]->Integer_0,
        is_spent: 0,
        value: params[6]->Integer_0,
        network: params[7]->Text_0,
    }
}

/// Whether two rows may not stand in the table together: same wallet, nullifier and network.
pub open spec fn clash(a: NoteRecord, b: NoteRecord) -> bool {
    a.wallet_seed_hash == b.wallet_seed_hash && a.nullifier == b.nullifier && a.network
        == b.network
}

/// Whether a row clashes with one in the table.
pub open spec fn taken(table: Seq<NoteRecord>, row: NoteRecord) -> bool {
    exists|i: int| 0 <= i < table.len() && clash(#[trigger] table[i], row)
}

/// Whether no two rows clash.
pub open spec fn unique(table: Seq<NoteRecord>) -> bool {
    forall|i: int, j: int|
        0 <= i < j < table.len() ==> !clash(#[trigger] table[i], #[trigger] table[j])
}

/// The table after a note was inserted under a new identifier. A row that clashes with one in
/// the table is ignored.
pub open spec fn after_insert(
    table: Seq<NoteRecord>,
    params: Seq<SqlModel>,
    id: i64,
) -> Seq<NoteRecord> {
    if taken(table, record_of(params, id)) {
        table
    } else {
        table.push(record_of(params, id))
    }
}

/// Whether a row belongs to the wallet and the network that the parameters name.
pub open spec fn belongs(row: NoteRecord, params: Seq<SqlModel>) -> bool {
    row.wallet_seed_hash == params[0]->Blob_0 && row.network == params[1]->Text_0
}

/// Whether a row is the one that the parameters name.
pub open spec fn named(row: NoteRecord, params: Seq<SqlModel>) -> bool {
    row.wallet_seed_hash == params[0]->Blob_0 && row.nullifier == params[1]->Blob_0 && row.network
        == params[2]->Text_0
}

/// The table after a note was marked as spent.
pub open spec fn after_mark_spent(
    table: Seq<NoteRecord>,
    params: Seq<SqlModel>,
) -> Seq<NoteRecord> {
    table.map_values(
        |row: NoteRecord|
            if named(row, params) {
                NoteRecord { is_spent: 1, ..row }
            } else {
                row
            },
    )
}

/// The number of rows that marking a note as spent reports: those that the parameters name,
/// whether they were spent before or not.
pub open spec fn marked_count(table: Seq<NoteRecord>, params: Seq<SqlModel>) -> nat {
    rows_where(table, |row: NoteRecord| named(row, params)).len()
}

/// The rows that meet a condition.
pub open spec fn rows_where(
    table: Seq<NoteRecord>,
    condition: spec_fn(NoteRecord) -> bool,
) -> Seq<NoteRecord>
    decreases table.len(),
{
    if table.len() == 0 {
        seq![]
    } else {
        let before = rows_where(table.drop_last(), condition);
        if condition(table.last()) {
            before.push(table.last())
        } else {
            before
        }
    }
}

/// The table after the notes of a wallet on a network were deleted.
pub open spec fn after_delete(table: Seq<NoteRecord>, params: Seq<SqlModel>) -> Seq<NoteRecord> {
    rows_where(table, |row: NoteRecord| !belongs(row, params))
}

/// The number of rows that the deletion reports: those that are gone.
pub open spec fn deleted_count(table: Seq<NoteRecord>, params: Seq<SqlModel>) -> int {
    table.len() - after_delete(table, params).len()
}

/// The unspent notes of a wallet on a network.
pub open spec fn unspent_rows(table: Seq<NoteRecord>, params: Seq<SqlModel>) -> Seq<NoteRecord> {
    rows_where(table, |row: NoteRecord| belongs(row, params) && row.is_spent == 0)
}

/// The notes of a wallet on a network.
pub open spec fn all_rows(table: Seq<NoteRecord>, params: Seq<SqlModel>) -> Seq<NoteRecord> {
    rows_where(table, |row: NoteRecord| belongs(row, params))
}

/// Whether rows are what a selection hands out: these rows, by position.
pub open spec fn handed_out(handed: Seq<NoteRecord>, rows: Seq<NoteRecord>) -> bool {
    &&& handed.to_multiset() == rows.to_multiset()
    &&& forall|i: int, j: int|
        0 <= i <= j < handed.len() ==> (#[trigger] handed[i]).position <= (
        #[trigger] handed[j]).position
}

/// The columns of a row that a selection hands out.
pub open spec fn columns(row: NoteRecord) -> RawNoteModel<()> {
    RawNoteModel {
        id: Ok(row.id),
        note_data: Ok(row.note_data),
        position: Ok(row.position),
        cmx: Ok(row.cmx),
        nullifier: Ok(row.nullifier),
        block_height: Ok(row.block_height),
        value: Ok(row.value),
        is_spent: Ok(row.is_spent),
    }
}

proof fn lemma_rows_where(
    table: Seq<NoteRecord>,
    condition: spec_fn(NoteRecord) -> bool,
    row: NoteRecord,
)
    ensures
        rows_where(table, condition).contains(row) <==> table.contains(row) && condition(row),
    decreases table.len(),
{
    if table.len() > 0 {
        let rest = table.drop_last();
        let last = table.last();
        lemma_rows_where(rest, condition, row);
        let before = rows_where(rest, condition);
        let all = rows_where(table, condition);
        assert(table =~= rest.push(last));
        assert(table[table.len() - 1] == last);
        assert(table.contains(row) <==> rest.contains(row) || row == last) by {
            if table.contains(row) {
                let i = choose|i: int| 0 <= i < table.len() && table[i] == row;
                if i < rest.len() {
                    assert(rest[i] == row);
                }
            }
            if rest.contains(row) {
                let i = choose|i: int| 0 <= i < rest.len() && rest[i] == row;
                assert(table[i] == row);
            }
        }
        if condition(last) {
            assert(all == before.push(last));
            assert(all[before.len() as int] == last);
            if before.contains(row) {
                let i = choose|i: int| 0 <= i < before.len() && before[i] == row;
                assert(all[i] == row);
            }
            if all.contains(row) {
                let i = choose|i: int| 0 <= i < all.len() && all[i] == row;
                if i < before.len() {
                    assert(before[i] == row);
                }
            }
        }
    }
}

proof fn lemma_rows_where_push(
    table: Seq<NoteRecord>,
    condition: spec_fn(NoteRecord) -> bool,
    row: NoteRecord,
)
    ensures
        rows_where(table.push(row), condition) == if condition(row) {
            rows_where(table, condition).push(row)
        } else {
            rows_where(table, condition)
        },
{
    assert(table.push(row).drop_last() =~= table);
    assert(table.push(row).last() == row);
}

/// A condition that no row meets selects nothing, and one that all rows meet selects all.
proof fn lemma_rows_where_none(table: Seq<NoteRecord>, condition: spec_fn(NoteRecord) -> bool)
    requires
        forall|i: int| 0 <= i < table.len() ==> !condition(#[trigger] table[i]),
    ensures
        rows_where(table, condition) == Seq::<NoteRecord>::empty(),
    decreases table.len(),
{
    if table.len() > 0 {
        let rest = table.drop_last();
        assert forall|i: int| 0 <= i < rest.len() implies !condition(#[trigger] rest[i]) by {
            assert(rest[i] == table[i]);
        }
        lemma_rows_where_none(rest, condition);
        assert(!condition(table[table.len() - 1]));
    }
}

/// Rows that were selected by one condition, selected by another.
proof fn lemma_rows_where_twice(
    table: Seq<NoteRecord>,
    first: spec_fn(NoteRecord) -> bool,
    second: spec_fn(NoteRecord) -> bool,
    both: spec_fn(NoteRecord) -> bool,
)
    requires
        forall|row: NoteRecord| #[trigger] both(row) <==> first(row) && second(row),
    ensures
        rows_where(rows_where(table, first), second) == rows_where(table, both),
    decreases table.len(),
{
    if table.len() > 0 {
        let rest = table.drop_last();
        let last = table.last();
        lemma_rows_where_twice(rest, first, second, both);
        if first(last) {
            lemma_rows_where_push(rows_where(rest, first), second, last);
        }
        assert(both(last) <==> first(last) && second(last));
    }
}

/// A note that was inserted is selected among the unspent ones, whatever their order, and is read
/// back as it was inserted. It stands there beside those that were there before.
pub proof fn law_inserted_note_is_read_back(
    table: Seq<NoteRecord>,
    seed_hash: Seq<u8>,
    note: InsertShieldedNote<'_>,
    id: i64,
    handed: Seq<NoteRecord>,
)
    requires
        !taken(table, record_of(insert_params(seed_hash, note), id)),
        handed_out(
            handed,
            unspent_rows(
                after_insert(table, insert_params(seed_hash, note), id),
                wallet_params(seed_hash, note.network@),
            ),
        ),
    ensures
        handed.contains(record_of(insert_params(seed_hash, note), id)),
        note_in(columns(record_of(insert_params(seed_hash, note), id))) == Ok::<
            _,
            RowErrorModel<()>,
        >(
            NoteModel {
                id,
                note_data: note.note_data@,
                position: note.position,
                cmx: note.cmx@,
                nullifier: note.nullifier@,
                block_height: note.block_height,
                value: note.value,
                is_spent: false,
            },
        ),
        unspent_rows(
            after_insert(table, insert_params(seed_hash, note), id),
            wallet_params(seed_hash, note.network@),
        ) == unspent_rows(table, wallet_params(seed_hash, note.network@)).push(
            record_of(insert_params(seed_hash, note), id),
        ),
{
    let params = insert_params(seed_hash, note);
    let wallet = wallet_params(seed_hash, note.network@);
    let row = record_of(params, id);
    let condition = |row: NoteRecord| belongs(row, wallet) && row.is_spent == 0;
    let rows = unspent_rows(after_insert(table, params, id), wallet);
    lemma_rows_where_push(table, condition, row);
    assert(condition(row));
    assert(rows[rows.len() - 1] == row);
    assert(rows.contains(row));
    rows.to_multiset_ensures();
    handed.to_multiset_ensures();
    assert(rows.to_multiset().count(row) > 0);
}

/// The table after notes of a wallet were inserted one after the other, each under its identifier.
pub open spec fn after_inserts(
    table: Seq<NoteRecord>,
    seed_hash: Seq<u8>,
    notes: Seq<InsertShieldedNote<'_>>,
    ids: Seq<i64>,
) -> Seq<NoteRecord>
    decreases notes.len(),
{
    if notes.len() == 0 {
        table
    } else {
        after_insert(
            after_inserts(table, seed_hash, notes.drop_last(), ids.drop_last()),
            insert_params(seed_hash, notes.last()),
            ids.last(),
        )
    }
}

/// The rows that notes make.
pub open spec fn records_of(
    seed_hash: Seq<u8>,
    notes: Seq<InsertShieldedNote<'_>>,
    ids: Seq<i64>,
) -> Seq<NoteRecord> {
    Seq::new(notes.len(), |i: int| record_of(insert_params(seed_hash, notes[i]), ids[i]))
}

/// Notes of a wallet that clash neither with the table nor with each other are all inserted.
proof fn lemma_all_inserted(
    table: Seq<NoteRecord>,
    seed_hash: Seq<u8>,
    notes: Seq<InsertShieldedNote<'_>>,
    ids: Seq<i64>,
)
    requires
        ids.len() == notes.len(),
        forall|i: int|
            0 <= i < notes.len() ==> !taken(
                table,
                #[trigger] records_of(seed_hash, notes, ids)[i],
            ),
        unique(records_of(seed_hash, notes, ids)),
    ensures
        after_inserts(table, seed_hash, notes, ids) == table + records_of(seed_hash, notes, ids),
    decreases notes.len(),
{
    let records = records_of(seed_hash, notes, ids);
    if notes.len() == 0 {
        assert(table + records =~= table);
    } else {
        let before = records_of(seed_hash, notes.drop_last(), ids.drop_last());
        assert(before =~= records.drop_last());
        assert forall|i: int| 0 <= i < before.len() implies !taken(table, #[trigger] before[i]) by {
            assert(before[i] == records[i]);
        }
        lemma_unique_rest(records);
        lemma_all_inserted(table, seed_hash, notes.drop_last(), ids.drop_last());
        let last = records.last();
        assert(!taken(table, records[records.len() - 1]));
        assert(!taken(table + before, last)) by {
            if taken(table + before, last) {
                let k = choose|k: int|
                    0 <= k < (table + before).len() && clash(#[trigger] (table + before)[k], last);
                if k < table.len() {
                    assert(clash(table[k], last));
                } else {
                    assert(!clash(records[k - table.len()], records[records.len() - 1]));
                }
            }
        }
        assert((table + before).push(last) =~= table + records);
    }
}

/// Several notes of a wallet on a network that were inserted one after the other are all selected
/// by the query for all notes, behind those that were there, and each is read back as it was
/// inserted.
pub proof fn law_inserted_notes_are_all_read_back(
    table: Seq<NoteRecord>,
    seed_hash: Seq<u8>,
    network: Seq<char>,
    notes: Seq<InsertShieldedNote<'_>>,
    ids: Seq<i64>,
    handed: Seq<NoteRecord>,
)
    requires
        ids.len() == notes.len(),
        forall|i: int| 0 <= i < notes.len() ==> (#[trigger] notes[i]).network@ == network,
        forall|i: int|
            0 <= i < notes.len() ==> !taken(
                table,
                #[trigger] records_of(seed_hash, notes, ids)[i],
            ),
        unique(records_of(seed_hash, notes, ids)),
        handed_out(
            handed,
            all_rows(
                after_inserts(table, seed_hash, notes, ids),
                wallet_params(seed_hash, network),
            ),
        ),
    ensures
        all_rows(
            after_inserts(table, seed_hash, notes, ids),
            wallet_params(seed_hash, network),
        ) == all_rows(table, wallet_params(seed_hash, network)) + records_of(seed_hash, notes, ids),
        forall|i: int|
            #![trigger notes[i]]
            0 <= i < notes.len() ==> {
                &&& handed.contains(records_of(seed_hash, notes, ids)[i])
                &&& note_in(columns(records_of(seed_hash, notes, ids)[i])) == Ok::<
                    _,
                    RowErrorModel<()>,
                >(
                    NoteModel {
                        id: ids[i],
                        note_data: notes[i].note_data@,
                        position: notes[i].position,
                        cmx: notes[i].cmx@,
                        nullifier: notes[i].nullifier@,
                        block_height: notes[i].block_height,
                        value: notes[i].value,
                        is_spent: false,
                    },
                )
            },
{
    let wallet = wallet_params(seed_hash, network);
    let mine = |row: NoteRecord| belongs(row, wallet);
    let records = records_of(seed_hash, notes, ids);
    lemma_all_inserted(table, seed_hash, notes, ids);
    assert forall|i: int| 0 <= i < records.len() implies mine(#[trigger] records[i]) by {
        assert(notes[i].network@ == network);
    }
    lemma_rows_where_add(table, records, mine);
    let rows = all_rows(after_inserts(table, seed_hash, notes, ids), wallet);
    rows.to_multiset_ensures();
    handed.to_multiset_ensures();
    assert forall|i: int| 0 <= i < notes.len() implies handed.contains(
        #[trigger] records[i],
    ) by {
        assert(rows[all_rows(table, wallet).len() + i] == records[i]);
        assert(rows.contains(records[i]));
        assert(rows.to_multiset().count(records[i]) > 0);
    }
}

/// Rows behind others that all meet a condition are all selected behind them.
proof fn lemma_rows_where_add(
    table: Seq<NoteRecord>,
    rows: Seq<NoteRecord>,
    condition: spec_fn(NoteRecord) -> bool,
)
    requires
        forall|i: int| 0 <= i < rows.len() ==> condition(#[trigger] rows[i]),
    ensures
        rows_where(table + rows, condition) == rows_where(table, condition) + rows,
    decreases rows.len(),
{
    if rows.len() == 0 {
        assert(table + rows =~= table);
        assert(rows_where(table, condition) + rows =~= rows_where(table, condition));
    } else {
        let rest = rows.drop_last();
        assert forall|i: int| 0 <= i < rest.len() implies condition(#[trigger] rest[i]) by {
            assert(rest[i] == rows[i]);
        }
        lemma_rows_where_add(table, rest, condition);
        assert(condition(rows[rows.len() - 1]));
        assert((table + rows).drop_last() =~= table + rest);
        assert((rows_where(table, condition) + rest).push(rows.last()) =~= rows_where(
            table,
            condition,
        ) + rows);
    }
}

/// The unspent notes are exactly those of all notes that are not spent.
pub proof fn law_unspent_notes_are_those_not_spent(
    table: Seq<NoteRecord>,
    seed_hash: Seq<u8>,
    network: Seq<char>,
)
    ensures
        unspent_rows(table, wallet_params(seed_hash, network)) == rows_where(
            all_rows(table, wallet_params(seed_hash, network)),
            |row: NoteRecord| row.is_spent == 0,
        ),
        forall|row: NoteRecord| #[trigger]
            unspent_rows(table, wallet_params(seed_hash, network)).contains(row) <==> all_rows(
                table,
                wallet_params(seed_hash, network),
            ).contains(row) && row.is_spent == 0,
{
    let wallet = wallet_params(seed_hash, network);
    let mine = |row: NoteRecord| belongs(row, wallet);
    let fresh = |row: NoteRecord| row.is_spent == 0;
    let both = |row: NoteRecord| belongs(row, wallet) && row.is_spent == 0;
    lemma_rows_where_twice(table, mine, fresh, both);
    assert forall|row: NoteRecord| #[trigger]
        unspent_rows(table, wallet).contains(row) <==> all_rows(table, wallet).contains(row)
            && row.is_spent == 0 by {
        lemma_rows_where(table, both, row);
        lemma_rows_where(table, mine, row);
    }
}

/// A note of a wallet on a network is no concern of other wallets and networks.
pub proof fn law_insert_leaves_others_alone(
    table: Seq<NoteRecord>,
    seed_hash: Seq<u8>,
    note: InsertShieldedNote<'_>,
    id: i64,
    other_seed_hash: Seq<u8>,
    other_network: Seq<char>,
)
    requires
        other_seed_hash != seed_hash || other_network != note.network@,
    ensures
        all_rows(
            after_insert(table, insert_params(seed_hash, note), id),
            wallet_params(other_seed_hash, other_network),
        ) == all_rows(table, wallet_params(other_seed_hash, other_network)),
{
    let params = insert_params(seed_hash, note);
    let other = wallet_params(other_seed_hash, other_network);
    lemma_rows_where_push(table, |row: NoteRecord| belongs(row, other), record_of(params, id));
}

/// A note that the wallet has on the network stays as it is: to insert it again changes nothing.
pub proof fn law_inserting_twice(
    table: Seq<NoteRecord>,
    seed_hash: Seq<u8>,
    note: InsertShieldedNote<'_>,
    id: i64,
    other_id: i64,
)
    ensures
        after_insert(
            after_insert(table, insert_params(seed_hash, note), id),
            insert_params(seed_hash, note),
            other_id,
        ) == after_insert(table, insert_params(seed_hash, note), id),
{
    let params = insert_params(seed_hash, note);
    let once = after_insert(table, params, id);
    if taken(table, record_of(params, id)) {
        let i = choose|i: int|
            0 <= i < table.len() && clash(#[trigger] table[i], record_of(params, id));
        assert(clash(once[i], record_of(params, other_id)));
    } else {
        assert(clash(once[table.len() as int], record_of(params, other_id)));
    }
}

/// No statement puts two notes of a wallet with the same nullifier on one network.
pub proof fn law_notes_stay_unique(
    table: Seq<NoteRecord>,
    inserted: Seq<SqlModel>,
    id: i64,
    spent: Seq<SqlModel>,
    deleted: Seq<SqlModel>,
)
    requires
        unique(table),
    ensures
        unique(after_insert(table, inserted, id)),
        unique(after_mark_spent(table, spent)),
        unique(after_delete(table, deleted)),
{
    lemma_rows_where_unique(table, |row: NoteRecord| !belongs(row, deleted));
    assert forall|i: int, j: int| 0 <= i < j < table.len() implies !clash(
        #[trigger] after_mark_spent(table, spent)[i],
        #[trigger] after_mark_spent(table, spent)[j],
    ) by {
        assert(!clash(table[i], table[j]));
    }
}

proof fn lemma_unique_rest(table: Seq<NoteRecord>)
    requires
        unique(table),
        table.len() > 0,
    ensures
        unique(table.drop_last()),
{
    let rest = table.drop_last();
    assert forall|i: int, j: int| 0 <= i < j < rest.len() implies !clash(
        #[trigger] rest[i],
        #[trigger] rest[j],
    ) by {
        assert(!clash(table[i], table[j]));
    }
}

proof fn lemma_rows_where_unique(table: Seq<NoteRecord>, condition: spec_fn(NoteRecord) -> bool)
    requires
        unique(table),
    ensures
        unique(rows_where(table, condition)),
    decreases table.len(),
{
    if table.len() > 0 {
        let rest = table.drop_last();
        let last = table.last();
        lemma_unique_rest(table);
        lemma_rows_where_unique(rest, condition);
        let before = rows_where(rest, condition);
        let all = rows_where(table, condition);
        if condition(last) {
            assert forall|i: int, j: int| 0 <= i < j < all.len() implies !clash(
                #[trigger] all[i],
                #[trigger] all[j],
            ) by {
                if j < before.len() {
                    assert(!clash(before[i], before[j]));
                } else {
                    lemma_rows_where(rest, condition, before[i]);
                    assert(before.contains(before[i]));
                    let k = choose|k: int| 0 <= k < rest.len() && rest[k] == before[i];
                    assert(table[k] == before[i]);
                    assert(!clash(table[k], table[table.len() - 1]));
                }
            }
        }
    }
}

/// A note that was marked as spent is no longer among the unspent ones; all other unspent notes
/// are, and no note leaves the table.
pub proof fn law_spent_note_is_not_unspent(
    table: Seq<NoteRecord>,
    seed_hash: Seq<u8>,
    nullifier: Seq<u8>,
    network: Seq<char>,
)
    ensures
        unspent_rows(
            after_mark_spent(table, nullifier_params(seed_hash, nullifier, network)),
            wallet_params(seed_hash, network),
        ) == rows_where(
            unspent_rows(table, wallet_params(seed_hash, network)),
            |row: NoteRecord| row.nullifier != nullifier,
        ),
        all_rows(
            after_mark_spent(table, nullifier_params(seed_hash, nullifier, network)),
            wallet_params(seed_hash, network),
        ).len() == all_rows(table, wallet_params(seed_hash, network)).len(),
    decreases table.len(),
{
    let params = nullifier_params(seed_hash, nullifier, network);
    let wallet = wallet_params(seed_hash, network);
    let unspent = |row: NoteRecord| belongs(row, wallet) && row.is_spent == 0;
    let other = |row: NoteRecord| row.nullifier != nullifier;
    let after = after_mark_spent(table, params);
    if table.len() > 0 {
        let rest = table.drop_last();
        let last = table.last();
        law_spent_note_is_not_unspent(rest, seed_hash, nullifier, network);
        assert(after.drop_last() =~= after_mark_spent(rest, params));
        if unspent(last) {
            lemma_rows_where_push(rows_where(rest, unspent), other, last);
            assert(named(last, params) <==> last.nullifier == nullifier);
        }
    }
}

/// Marking a note as spent reports the number of notes with that nullifier of the wallet on the
/// network: at most one, spent before or not. That note is spent afterwards and otherwise as it
/// was, and all others are as they were. To mark it again reports the same number and changes
/// nothing.
pub proof fn law_marking_a_note_spent(
    table: Seq<NoteRecord>,
    seed_hash: Seq<u8>,
    nullifier: Seq<u8>,
    network: Seq<char>,
)
    requires
        unique(table),
    ensures
        ({
            let params = nullifier_params(seed_hash, nullifier, network);
            let after = after_mark_spent(table, params);
            &&& marked_count(table, params) <= 1
            &&& marked_count(table, params) == 1 <==> exists|i: int|
                0 <= i < table.len() && named(#[trigger] table[i], params)
            &&& after.len() == table.len()
            &&& forall|i: int|
                #![trigger after[i]]
                0 <= i < table.len() ==> after[i] == if table[i].wallet_seed_hash == seed_hash
                    && table[i].nullifier == nullifier && table[i].network == network {
                    NoteRecord { is_spent: 1, ..table[i] }
                } else {
                    table[i]
                }
            &&& marked_count(after, params) == marked_count(table, params)
            &&& after_mark_spent(after, params) == after
        }),
{
    let params = nullifier_params(seed_hash, nullifier, network);
    let after = after_mark_spent(table, params);
    let condition = |row: NoteRecord| named(row, params);
    let rows = rows_where(table, condition);
    lemma_rows_where_unique(table, condition);
    assert forall|k: int| 0 <= k < rows.len() implies named(#[trigger] rows[k], params) by {
        assert(rows.contains(rows[k]));
        lemma_rows_where(table, condition, rows[k]);
    }
    if rows.len() > 1 {
        assert(clash(rows[0], rows[1]));
    }
    if rows.len() == 1 {
        assert(rows.contains(rows[0]));
        lemma_rows_where(table, condition, rows[0]);
        let i = choose|i: int| 0 <= i < table.len() && table[i] == rows[0];
        assert(named(table[i], params));
    }
    if exists|i: int| 0 <= i < table.len() && named(#[trigger] table[i], params) {
        let i = choose|i: int| 0 <= i < table.len() && named(#[trigger] table[i], params);
        assert(table.contains(table[i]));
        lemma_rows_where(table, condition, table[i]);
        assert(rows.len() > 0);
    }
    lemma_marked_count_stays(table, params);
    assert(after_mark_spent(after, params) =~= after);
}

proof fn lemma_marked_count_stays(table: Seq<NoteRecord>, params: Seq<SqlModel>)
    ensures
        marked_count(after_mark_spent(table, params), params) == marked_count(table, params),
    decreases table.len(),
{
    if table.len() > 0 {
        let rest = table.drop_last();
        lemma_marked_count_stays(rest, params);
        assert(after_mark_spent(table, params).drop_last() =~= after_mark_spent(rest, params));
    }
}

/// Deleting the notes of a wallet on a network reports how many it had there.
pub proof fn law_deleted_notes_are_counted(
    table: Seq<NoteRecord>,
    seed_hash: Seq<u8>,
    network: Seq<char>,
)
    ensures
        deleted_count(table, wallet_params(seed_hash, network)) == all_rows(
            table,
            wallet_params(seed_hash, network),
        ).len(),
        deleted_count(
            after_delete(table, wallet_params(seed_hash, network)),
            wallet_params(seed_hash, network),
        ) == 0,
    decreases table.len(),
{
    let wallet = wallet_params(seed_hash, network);
    let kept = |row: NoteRecord| !belongs(row, wallet);
    lemma_rows_where_twice(table, kept, kept, kept);
    if table.len() > 0 {
        law_deleted_notes_are_counted(table.drop_last(), seed_hash, network);
    }
}

/// After the notes of a wallet on a network were deleted, none of them is left, and those of
/// other wallets and networks are as they were.
pub proof fn law_deleted_notes_are_gone(
    table: Seq<NoteRecord>,
    seed_hash: Seq<u8>,
    network: Seq<char>,
    other_seed_hash: Seq<u8>,
    other_network: Seq<char>,
)
    ensures
        all_rows(
            after_delete(table, wallet_params(seed_hash, network)),
            wallet_params(seed_hash, network),
        ) == Seq::<NoteRecord>::empty(),
        other_seed_hash != seed_hash || other_network != network ==> all_rows(
            after_delete(table, wallet_params(seed_hash, network)),
            wallet_params(other_seed_hash, other_network),
        ) == all_rows(table, wallet_params(other_seed_hash, other_network)),
{
    let wallet = wallet_params(seed_hash, network);
    let other = wallet_params(other_seed_hash, other_network);
    let kept = |row: NoteRecord| !belongs(row, wallet);
    let mine = |row: NoteRecord| belongs(row, wallet);
    let theirs = |row: NoteRecord| belongs(row, other);
    let never = |row: NoteRecord| false;
    lemma_rows_where_twice(table, kept, mine, never);
    lemma_rows_where_none(table, never);
    if other_seed_hash != seed_hash || other_network != network {
        lemma_rows_where_twice(table, kept, theirs, theirs);
    }
}

/// The sum of what notes are worth.
pub open spec fn worth(rows: Seq<NoteRecord>) -> int
    decreases rows.len(),
{
    if rows.len() == 0 {
        0
    } else {
        worth(rows.drop_last()) + loaded(rows.last().value)
    }
}

/// The sum of what is stored for the value of notes.
pub open spec fn stored_sum(rows: Seq<NoteRecord>) -> int
    decreases rows.len(),
{
    if rows.len() == 0 {
        0
    } else {
        stored_sum(rows.drop_last()) + rows.last().value
    }
}

/// By how many multiples of 2^64 the sum of the values exceeds the sum of what is stored.
pub open spec fn negatives(rows: Seq<NoteRecord>) -> int
    decreases rows.len(),
{
    if rows.len() == 0 {
        0
    } else {
        negatives(rows.drop_last()) + if rows.last().value < 0 {
            1int
        } else {
            0int
        }
    }
}

proof fn lemma_stored_sum(rows: Seq<NoteRecord>)
    ensures
        worth(rows) == stored_sum(rows) + negatives(rows) * 0x1_0000_0000_0000_0000,
        worth(rows) >= 0,
        worth(rows) < 0x8000_0000_0000_0000 ==> stored_sum(rows) == worth(rows),
    decreases rows.len(),
{
    if rows.len() > 0 {
        lemma_stored_sum(rows.drop_last());
    }
}

proof fn lemma_loaded_sum(total: int, sum: i64, wraps: int)
    requires
        total == sum + wraps * 0x1_0000_0000_0000_0000,
    ensures
        loaded(sum) == total % 0x1_0000_0000_0000_0000,
{
    let m: int = 0x1_0000_0000_0000_0000;
    if sum >= 0 {
        lemma_fundamental_div_mod_converse(total, m, wraps, sum as int);
    } else {
        lemma_fundamental_div_mod_converse(total, m, wraps - 1, sum + m);
    }
}

/// The balance is what the unspent notes are worth together, as long as that can be stored. Where
/// single values are stored as negative numbers, it is so up to multiples of 2^64.
pub proof fn law_balance_is_the_worth_of_unspent_notes(
    table: Seq<NoteRecord>,
    seed_hash: Seq<u8>,
    network: Seq<char>,
)
    requires
        i64::MIN <= stored_sum(unspent_rows(table, wallet_params(seed_hash, network)))
            <= i64::MAX,
    ensures
        loaded(stored_sum(unspent_rows(table, wallet_params(seed_hash, network))) as i64) == worth(
            unspent_rows(table, wallet_params(seed_hash, network)),
        ) % 0x1_0000_0000_0000_0000,
        worth(unspent_rows(table, wallet_params(seed_hash, network))) < 0x8000_0000_0000_0000
            ==> loaded(
            stored_sum(unspent_rows(table, wallet_params(seed_hash, network))) as i64,
        ) == worth(unspent_rows(table, wallet_params(seed_hash, network))),
{
    let rows = unspent_rows(table, wallet_params(seed_hash, network));
    lemma_stored_sum(rows);
    lemma_loaded_sum(worth(rows), stored_sum(rows) as i64, negatives(rows));
}

/// A note that is inserted adds its value to the balance.
pub proof fn law_inserted_note_adds_its_value(
    table: Seq<NoteRecord>,
    seed_hash: Seq<u8>,
    note: InsertShieldedNote<'_>,
    id: i64,
)
    requires
        !taken(table, record_of(insert_params(seed_hash, note), id)),
    ensures
        worth(
            unspent_rows(
                after_insert(table, insert_params(seed_hash, note), id),
                wallet_params(seed_hash, note.network@),
            ),
        ) == worth(unspent_rows(table, wallet_params(seed_hash, note.network@))) + note.value,
{
    let params = insert_params(seed_hash, note);
    let wallet = wallet_params(seed_hash, note.network@);
    let row = record_of(params, id);
    let condition = |row: NoteRecord| belongs(row, wallet) && row.is_spent == 0;
    lemma_rows_where_push(table, condition, row);
    let before = rows_where(table, condition);
    assert(before.push(row).drop_last() =~= before);
}

/// A note that is marked as spent takes its value from the balance.
pub proof fn law_spent_note_takes_its_value(
    table: Seq<NoteRecord>,
    seed_hash: Seq<u8>,
    network: Seq<char>,
    i: int,
)
    requires
        unique(table),
        0 <= i < table.len(),
        belongs(table[i], wallet_params(seed_hash, network)),
        table[i].is_spent == 0,
    ensures
        worth(
            unspent_rows(
                after_mark_spent(table, nullifier_params(seed_hash, table[i].nullifier, network)),
                wallet_params(seed_hash, network),
            ),
        ) == worth(unspent_rows(table, wallet_params(seed_hash, network))) - loaded(table[i].value),
    decreases table.len(),
{
    let nullifier = table[i].nullifier;
    let params = nullifier_params(seed_hash, nullifier, network);
    let wallet = wallet_params(seed_hash, network);
    let unspent = |row: NoteRecord| belongs(row, wallet) && row.is_spent == 0;
    let after = after_mark_spent(table, params);
    let rest = table.drop_last();
    let last = table.last();
    assert(after.drop_last() =~= after_mark_spent(rest, params));
    lemma_unique_rest(table);
    let kept = unspent_rows(rest, wallet);
    let changed = unspent_rows(after_mark_spent(rest, params), wallet);
    if i == rest.len() {
        assert forall|a: int| 0 <= a < rest.len() implies !named(#[trigger] rest[a], params) by {
            assert(!clash(table[a], table[i]));
        }
        assert(after_mark_spent(rest, params) =~= rest);
        assert(kept.push(last).drop_last() =~= kept);
    } else {
        law_spent_note_takes_its_value(rest, seed_hash, network, i);
        assert(!clash(table[i], table[table.len() - 1]));
        assert(!named(last, params));
        if unspent(last) {
            assert(kept.push(last).drop_last() =~= kept);
            assert(changed.push(last).drop_last() =~= changed);
        }
    }
}

/// How far nullifiers were synced, as it is stored, by wallet and network.
pub type SyncTable = Map<(Seq<u8>, Seq<char>), (i64, i64)>;

/// The table after the sync of a wallet on a network was set.
pub open spec fn after_set_sync(table: SyncTable, params: Seq<SqlModel>) -> SyncTable {
    table.insert(
        (params[0]->Blob_0, params[1]->Text_0),
        (params[2]->Integer_0, params[3]->Integer_0),
    )
}

/// What a query for the sync of a wallet on a network comes to.
pub open spec fn sync_reply(table: SyncTable, params: Seq<SqlModel>) -> SyncInfoReply {
    let key = (params[0]->Blob_0, params[1]->Text_0);
    if table.contains_key(key) {
        SyncInfoReply::Row(table[key].0, table[key].1)
    } else {
        SyncInfoReply::NoRows
    }
}

/// What was set is read back, for every height and timestamp. Other wallets and networks keep
/// theirs, and what was never set is zero.
pub proof fn law_sync_info_is_read_back(
    table: SyncTable,
    seed_hash: Seq<u8>,
    network: Seq<char>,
    height: u64,
    timestamp: u64,
    other_seed_hash: Seq<u8>,
    other_network: Seq<char>,
)
    ensures
        sync_info(
            sync_reply(
                after_set_sync(table, sync_params(seed_hash, network, height, timestamp)),
                wallet_params(seed_hash, network),
            ),
        ) == Ok::<_, Seq<char>>((height, timestamp)),
        other_seed_hash != seed_hash || other_network != network ==> sync_reply(
            after_set_sync(table, sync_params(seed_hash, network, height, timestamp)),
            wallet_params(other_seed_hash, other_network),
        ) == sync_reply(table, wallet_params(other_seed_hash, other_network)),
        !table.contains_key((seed_hash, network)) ==> sync_info(
            sync_reply(table, wallet_params(seed_hash, network)),
        ) == Ok::<_, Seq<char>>((0u64, 0u64)),
{
    let key = (seed_hash, network);
    let after = after_set_sync(table, sync_params(seed_hash, network, height, timestamp));
    assert(after.contains_key(key));
    assert(after[key] == (stored(height), stored(timestamp)));
    assert(loaded(stored(height)) == height);
    assert(loaded(stored(timestamp)) == timestamp);
}

/// A row of the table of the nullifier syncs. The timestamp is there where the table has its
/// column.
pub struct SyncRecord {
    pub wallet_seed_hash: Seq<u8>,
    pub network: Seq<char>,
    pub height: i64,
    pub timestamp: Option<i64>,
}

/// The table of the nullifier syncs, as it may have been made.
pub struct SyncRows {
    pub has_timestamp: bool,
    pub rows: Seq<SyncRecord>,
}

impl SyncRows {
    /// Whether the rows have the columns that the table has.
    pub open spec fn well_formed(self) -> bool {
        forall|i: int|
            0 <= i < self.rows.len() ==> ((#[trigger] self.rows[i]).timestamp is Some
                <==> self.has_timestamp)
    }

    /// The table with the column: the rows that were there get its default.
    pub open spec fn with_timestamp(self) -> SyncRows {
        SyncRows {
            has_timestamp: true,
            rows: self.rows.map_values(
                |row: SyncRecord| SyncRecord { timestamp: Some(0), ..row },
            ),
        }
    }
}

/// The number of tables of the nullifier syncs.
pub open spec fn table_count(table: Option<SyncRows>) -> i64 {
    if table is Some {
        1
    } else {
        0
    }
}

/// The number of columns with the timestamp.
pub open spec fn column_count(table: Option<SyncRows>) -> i64 {
    match table {
        Some(t) => if t.has_timestamp {
            1
        } else {
            0
        },
        None => 0,
    }
}

/// An upper bound of the steps that are still to come.
pub open spec fn column_steps_left(step: ColumnModel<()>) -> nat {
    match step {
        ColumnModel::AskTable => 3,
        ColumnModel::AskColumn => 2,
        ColumnModel::Add => 1,
        ColumnModel::Done(_) => 0,
    }
}

/// The table in the end, and what the migration comes to, where no statement fails.
pub open spec fn migrate_on(
    table: Option<SyncRows>,
    step: ColumnModel<()>,
) -> (Option<SyncRows>, Result<(), ()>)
    decreases column_steps_left(step),
{
    match step {
        ColumnModel::AskTable => migrate_on(table, after_table_count(table_count(table))),
        ColumnModel::AskColumn => migrate_on(table, after_column_count(column_count(table))),
        ColumnModel::Add => migrate_on(
            match table {
                Some(t) => Some(t.with_timestamp()),
                None => None,
            },
            ColumnModel::Done(Ok(())),
        ),
        ColumnModel::Done(r) => (table, r),
    }
}

/// The table after the migration that `add_nullifier_sync_timestamp_column` begins, and what the
/// migration comes to.
pub open spec fn migrated(table: Option<SyncRows>) -> (Option<SyncRows>, Result<(), ()>) {
    migrate_on(table, ColumnModel::AskTable)
}

/// The migration makes no table, and changes nothing in one that has the column. A table without
/// it gets it: every row that was there has a timestamp of 0 and keeps all else, so that its
/// height is read as before and its timestamp as 0. To migrate again changes nothing.
pub proof fn law_migration_adds_the_timestamp(table: Option<SyncRows>)
    requires
        table matches Some(t) ==> t.well_formed(),
    ensures
        migrated(table).1 == Ok::<(), ()>(()),
        match table {
            None => migrated(table).0 is None,
            Some(t) => if t.has_timestamp {
                migrated(table).0 == table
            } else {
                &&& migrated(table).0 matches Some(after)
                &&& after.has_timestamp
                &&& after.well_formed()
                &&& after.rows.len() == t.rows.len()
                &&& forall|i: int|
                    0 <= i < t.rows.len() ==> #[trigger] after.rows[i] == (SyncRecord {
                        wallet_seed_hash: t.rows[i].wallet_seed_hash,
                        network: t.rows[i].network,
                        height: t.rows[i].height,
                        timestamp: Some(0),
                    })
                &&& forall|i: int|
                    0 <= i < t.rows.len() ==> sync_info(
                        SyncInfoReply::Row(
                            (#[trigger] after.rows[i]).height,
                            after.rows[i].timestamp->0,
                        ),
                    ) == Ok::<_, Seq<char>>((loaded(t.rows[i].height), 0u64))
            },
        },
        migrated(migrated(table).0) == migrated(table),
{
    reveal_with_fuel(migrate_on, 4);
}

} // verus!
