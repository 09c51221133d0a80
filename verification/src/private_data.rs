//! The private part of a contact-info document: what the owner noted about a contact.
//!
//! The bytes are a version of four bytes, then the alias and the note, each as one length byte
//! and its UTF-8 text, then a flag that hides the contact, then the number of accounts and the
//! accounts, four bytes each, low byte first.

use vstd::prelude::*;
use vstd::utf8::*;

use crate::text::optional_text;

verus! {

/// What the private part says about a contact.
#[derive(Clone, Debug, PartialEq, Eq)]
pub struct PrivateData {
    pub nickname: Option<String>,
    pub note: Option<String>,
    pub is_hidden: bool,
    pub account_reference: u32,
}

/// The contents of a `PrivateData`.
pub struct PrivateFields {
    pub nickname: Option<Seq<char>>,
    pub note: Option<Seq<char>>,
    pub is_hidden: bool,
    pub account_reference: u32,
}

impl View for PrivateData {
    type V = PrivateFields;

    open spec fn view(&self) -> PrivateFields {
        PrivateFields {
            nickname: optional_text(self.nickname),
            note: optional_text(self.note),
            is_hidden: self.is_hidden,
            account_reference: self.account_reference,
        }
    }
}

/// What stands where nothing was noted.
pub open spec fn blank_fields() -> PrivateFields {
    PrivateFields { nickname: None, note: None, is_hidden: false, account_reference: 0 }
}

/// The text that some bytes encode, where they are UTF-8.
pub open spec fn utf8_text(bytes: Seq<u8>) -> Option<Seq<char>> {
    if valid_utf8(bytes) {
        Some(decode_utf8(bytes))
    } else {
        None
    }
}

/// Whether a text field that is not empty stands at `pos`, with as many bytes as it claims.
pub open spec fn has_text_at(data: Seq<u8>, pos: int) -> bool {
    pos < data.len() && 0 < data[pos] && pos + 1 + data[pos] <= data.len()
}

/// The text field at `pos`: no text where it is empty, cut short or no UTF-8.
pub open spec fn text_at(data: Seq<u8>, pos: int) -> Option<Seq<char>> {
    if has_text_at(data, pos) {
        utf8_text(data.subrange(pos + 1, pos + 1 + data[pos]))
    } else {
        None
    }
}

/// Where the field behind the text field at `pos` begins. Of a text that is cut short only the
/// length byte is passed over.
pub open spec fn after_text(data: Seq<u8>, pos: int) -> int {
    if has_text_at(data, pos) {
        pos + 1 + data[pos]
    } else if pos < data.len() {
        pos + 1
    } else {
        pos
    }
}

/// The number that four bytes encode, low byte first.
pub open spec fn le_u32(bytes: Seq<u8>) -> int {
    bytes[0] + 0x100 * bytes[1] + 0x1_0000 * bytes[2] + 0x100_0000 * bytes[3]
}

/// The first account of the list at `pos`, or 0 where there is none.
pub open spec fn first_account(data: Seq<u8>, pos: int) -> u32 {
    if pos < data.len() && data[pos] > 0 && pos + 5 <= data.len() {
        le_u32(data.subrange(pos + 1, pos + 5)) as u32
    } else {
        0
    }
}

/// What decrypted private data say. Fewer than eight bytes say nothing.
pub open spec fn private_fields(data: Seq<u8>) -> PrivateFields {
    if data.len() < 8 {
        blank_fields()
    } else {
        let note_at = after_text(data, 4);
        let flag_at = after_text(data, note_at);
        PrivateFields {
            nickname: text_at(data, 4),
            note: text_at(data, note_at),
            is_hidden: flag_at < data.len() && data[flag_at] != 0,
            account_reference: first_account(
                data,
                if flag_at < data.len() {
                    flag_at + 1
                } else {
                    flag_at
                },
            ),
        }
    }
}

/// Calls `String::from_utf8`, which makes a text of bytes that are UTF-8 and refuses all others.
#[verifier::external_body]
fn utf8_string(bytes: Vec<u8>) -> (r: Option<String>)
    ensures
        r is Some <==> valid_utf8(bytes@),
        r matches Some(s) ==> s@ == decode_utf8(bytes@),
{
    String::from_utf8(bytes).ok()
}

/// Reads the text field at `pos`, and says where the next field begins.
fn read_text(data: &[u8], pos: usize) -> (r: (Option<String>, usize))
    requires
        pos <= data@.len(),
    ensures
        optional_text(r.0) == text_at(data@, pos as int),
        r.1 == after_text(data@, pos as int),
        r.1 <= data@.len(),
{
    if pos >= data.len() {
        return (None, pos);
    }
    let len: usize = data[pos] as usize;
    let start: usize = pos + 1;
    if len == 0 || data.len() - start < len {
        return (None, start);
    }
    let bytes = vstd::slice::slice_to_vec(&data[start..start + len]);
    (utf8_string(bytes), start + len)
}

/// Reads the first account of the list at `pos`.
fn read_account(data: &[u8], pos: usize) -> (r: u32)
    requires
        pos <= data@.len(),
    ensures
        r == first_account(data@, pos as int),
{
    if pos >= data.len() {
        return 0;
    }
    let accounts: usize = data[pos] as usize;
    let start: usize = pos + 1;
    if accounts == 0 || data.len() - start < 4 {
        return 0;
    }
    let ghost four = data@.subrange(start as int, start + 4);
    assert(four[0] == data@[start as int] && four[1] == data@[start + 1] && four[2]
        == data@[start + 2] && four[3] == data@[start + 3]);
    (data[start] as u32) + 0x100 * (data[start + 1] as u32) + 0x1_0000 * (data[start + 2] as u32)
        + 0x100_0000 * (data[start + 3] as u32)
}

/// Reads decrypted private data. No bytes are refused: what cannot be read stays blank.
pub fn parse_private_data(data: &[u8]) -> (r: PrivateData)
    ensures
        r@ == private_fields(data@),
{
    if data.len() < 8 {
        return PrivateData {
            nickname: None,
            note: None,
            is_hidden: false,
            account_reference: 0,
        };
    }
    let (nickname, note_at) = read_text(data, 4);
    let (note, flag_at) = read_text(data, note_at);
    let mut is_hidden = false;
    let mut accounts_at: usize = flag_at;
    if flag_at < data.len() {
        is_hidden = data[flag_at] != 0;
        accounts_at = flag_at + 1;
    }
    let account_reference = read_account(data, accounts_at);
    PrivateData { nickname, note, is_hidden, account_reference }
}

/// The four bytes of a number, low byte first.
pub open spec fn le_bytes(n: u32) -> Seq<u8> {
    seq![
        (n % 0x100) as u8,
        (n / 0x100 % 0x100) as u8,
        (n / 0x1_0000 % 0x100) as u8,
        (n / 0x100_0000) as u8,
    ]
}

/// The account list, without its count.
pub open spec fn account_bytes(accounts: Seq<u32>) -> Seq<u8>
    decreases accounts.len(),
{
    if accounts.len() == 0 {
        seq![]
    } else {
        le_bytes(accounts[0]) + account_bytes(accounts.skip(1))
    }
}

/// A text field: one length byte and the UTF-8 text.
pub open spec fn text_field(text: Seq<char>) -> Seq<u8> {
    seq![encode_utf8(text).len() as u8] + encode_utf8(text)
}

/// The private data that note these things about a contact.
pub open spec fn private_data_bytes(
    version: Seq<u8>,
    alias: Seq<char>,
    note: Seq<char>,
    hidden: bool,
    accounts: Seq<u32>,
) -> Seq<u8> {
    version + text_field(alias) + text_field(note) + seq![if hidden { 1u8 } else { 0u8 }] + seq![
        accounts.len() as u8,
    ] + account_bytes(accounts)
}

/// A text, or nothing where it is empty.
pub open spec fn unless_empty(text: Seq<char>) -> Option<Seq<char>> {
    if text.len() == 0 {
        None
    } else {
        Some(text)
    }
}

/// A text field that stands in the data at `pos` is read back as its text.
proof fn lemma_text_field(data: Seq<u8>, pos: int, text: Seq<char>)
    requires
        0 <= pos,
        encode_utf8(text).len() <= 255,
        pos + text_field(text).len() <= data.len(),
        data.subrange(pos, pos + text_field(text).len()) == text_field(text),
    ensures
        text_at(data, pos) == unless_empty(text),
        after_text(data, pos) == pos + text_field(text).len(),
{
    let bytes = encode_utf8(text);
    let field = text_field(text);
    assert(data[pos] == data.subrange(pos, pos + field.len())[0]);
    assert(data[pos] == bytes.len() as u8);
    encode_utf8_valid_utf8(text);
    encode_utf8_decode_utf8(text);
    if text.len() == 0 {
        assert(bytes.len() == 0);
    } else {
        encode_utf8_first_scalar(text);
        assert(bytes.len() > 0);
        assert(data.subrange(pos + 1, pos + 1 + data[pos]) =~= data.subrange(
            pos,
            pos + field.len(),
        ).skip(1));
        assert(field.skip(1) =~= bytes);
    }
}

/// What was noted about a contact is read back as it was noted: texts that are not empty, the
/// flag, and the first account of the list.
pub proof fn law_private_data_round_trip(
    version: Seq<u8>,
    alias: Seq<char>,
    note: Seq<char>,
    hidden: bool,
    accounts: Seq<u32>,
)
    requires
        version.len() == 4,
        encode_utf8(alias).len() <= 255,
        encode_utf8(note).len() <= 255,
        accounts.len() <= 255,
    ensures
        private_fields(private_data_bytes(version, alias, note, hidden, accounts)) == (
        PrivateFields {
            nickname: unless_empty(alias),
            note: unless_empty(note),
            is_hidden: hidden,
            account_reference: if accounts.len() > 0 {
                accounts[0]
            } else {
                0
            },
        }),
{
    let data = private_data_bytes(version, alias, note, hidden, accounts);
    let a = text_field(alias).len() as int;
    let n = text_field(note).len() as int;
    let flag_at = 4 + a + n;
    assert(data.subrange(4, 4 + a) =~= text_field(alias));
    lemma_text_field(data, 4, alias);
    assert(data.subrange(4 + a, 4 + a + n) =~= text_field(note));
    lemma_text_field(data, 4 + a, note);
    assert(data[flag_at] == if hidden { 1u8 } else { 0u8 });
    assert(data[flag_at + 1] == accounts.len() as u8);
    if accounts.len() > 0 {
        let m = accounts[0];
        assert(data.subrange(flag_at + 2, flag_at + 6) =~= le_bytes(m));
        assert(le_u32(le_bytes(m)) == m);
    }
}

/// A field of one length byte and as many bytes.
pub open spec fn byte_field(bytes: Seq<u8>) -> Seq<u8> {
    seq![bytes.len() as u8] + bytes
}

/// A field that stands in the data at `pos` is read as its bytes.
proof fn lemma_byte_field(before: Seq<u8>, bytes: Seq<u8>, behind: Seq<u8>)
    requires
        bytes.len() <= 255,
    ensures
        ({
            let data = before + byte_field(bytes) + behind;
            let pos = before.len() as int;
            &&& after_text(data, pos) == pos + 1 + bytes.len()
            &&& bytes.len() == 0 ==> text_at(data, pos) is None
            &&& bytes.len() > 0 ==> text_at(data, pos) == utf8_text(bytes)
        }),
{
    let data = before + byte_field(bytes) + behind;
    let pos = before.len() as int;
    assert(data[pos] == bytes.len() as u8);
    assert(data.subrange(pos + 1, pos + 1 + bytes.len()) =~= bytes);
}

/// The fields stand one behind the other: whatever the version, the alias and the note are the
/// texts that their bytes encode, nothing where they encode none or there are none, any flag but 0
/// hides the contact, and the account is the first four bytes of the list, low byte first, where
/// the count is not 0. What stands behind it is not read.
pub proof fn law_fields_stand_in_order(
    version: Seq<u8>,
    alias: Seq<u8>,
    note: Seq<u8>,
    flag: u8,
    count: u8,
    a: (u8, u8, u8, u8),
    behind: Seq<u8>,
)
    requires
        version.len() == 4,
        alias.len() <= 255,
        note.len() <= 255,
    ensures
        ({
            let fields = private_fields(
                version + byte_field(alias) + byte_field(note) + seq![
                    flag,
                    count,
                    a.0,
                    a.1,
                    a.2,
                    a.3,
                ] + behind,
            );
            &&& fields.nickname == if alias.len() > 0 && valid_utf8(alias) {
                Some(decode_utf8(alias))
            } else {
                None
            }
            &&& fields.note == if note.len() > 0 && valid_utf8(note) {
                Some(decode_utf8(note))
            } else {
                None
            }
            &&& fields.is_hidden == (flag != 0)
            &&& fields.account_reference == if count != 0 {
                a.0 + 256 * a.1 + 65536 * a.2 + 16777216 * a.3
            } else {
                0
            }
        }),
{
    let tail = seq![flag, count, a.0, a.1, a.2, a.3] + behind;
    let data = version + byte_field(alias) + byte_field(note) + seq![
        flag,
        count,
        a.0,
        a.1,
        a.2,
        a.3,
    ] + behind;
    assert(data =~= version + byte_field(alias) + (byte_field(note) + tail));
    lemma_byte_field(version, alias, byte_field(note) + tail);
    assert(data =~= version + byte_field(alias) + byte_field(note) + tail);
    lemma_byte_field(version + byte_field(alias), note, tail);
    let flag_at = (4 + 1 + alias.len() + 1 + note.len()) as int;
    assert(data[flag_at] == flag && data[flag_at + 1] == count);
    assert(data.subrange(flag_at + 2, flag_at + 6) =~= seq![a.0, a.1, a.2, a.3]);
}

/// Data that end early leave blank what they do not reach: fewer than eight bytes say nothing, behind
/// the alias there need not be a note, without a flag the contact is not hidden, and without four bytes behind the count there is no
/// account.
pub proof fn law_data_that_end_early(
    short: Seq<u8>,
    version: Seq<u8>,
    alias: Seq<u8>,
    note: Seq<u8>,
    end: Seq<u8>,
)
    requires
        version.len() == 4,
        alias.len() <= 255,
        note.len() <= 255,
        end.len() < 6,
    ensures
        short.len() < 8 ==> private_fields(short).nickname is None && private_fields(
            short,
        ).note is None && !private_fields(short).is_hidden && private_fields(
            short,
        ).account_reference == 0,
        ({
            let data = version + byte_field(alias);
            let fields = private_fields(data);
            data.len() >= 8 ==> {
                &&& fields.nickname == if valid_utf8(alias) {
                    Some(decode_utf8(alias))
                } else {
                    None
                }
                &&& fields.note is None
                &&& !fields.is_hidden
                &&& fields.account_reference == 0
            }
        }),
        ({
            let data = version + byte_field(alias) + byte_field(note) + end;
            let fields = private_fields(data);
            data.len() >= 8 ==> {
                &&& fields.nickname == if alias.len() > 0 && valid_utf8(alias) {
                    Some(decode_utf8(alias))
                } else {
                    None
                }
                &&& fields.note == if note.len() > 0 && valid_utf8(note) {
                    Some(decode_utf8(note))
                } else {
                    None
                }
                &&& fields.is_hidden == (end.len() > 0 && end[0] != 0)
                &&& fields.account_reference == 0
            }
        }),
{
    let none = Seq::<u8>::empty();
    assert(version + byte_field(alias) =~= version + byte_field(alias) + none);
    lemma_byte_field(version, alias, none);
    let data = version + byte_field(alias) + byte_field(note) + end;
    assert(data =~= version + byte_field(alias) + (byte_field(note) + end));
    lemma_byte_field(version, alias, byte_field(note) + end);
    lemma_byte_field(version + byte_field(alias), note, end);
    let flag_at = (4 + 1 + alias.len() + 1 + note.len()) as int;
    if end.len() > 0 {
        assert(data[flag_at] == end[0]);
    }
}

/// A text that claims more bytes than there are is read as an empty one: its bytes are taken for
/// what follows. This holds of the alias and of the note.
pub proof fn law_text_that_is_cut_short_is_passed_over(
    version: Seq<u8>,
    alias: Seq<u8>,
    claimed: u8,
    rest: Seq<u8>,
)
    requires
        version.len() == 4,
        alias.len() <= 255,
        claimed > rest.len(),
    ensures
        private_fields(version + seq![claimed] + rest) == private_fields(
            version + seq![0u8] + rest,
        ),
        private_fields(version + byte_field(alias) + seq![claimed] + rest) == private_fields(
            version + byte_field(alias) + seq![0u8] + rest,
        ),
{
    lemma_cut_short(version, claimed, rest);
    let before = version + byte_field(alias);
    lemma_cut_short(before, claimed, rest);
    let data = before + seq![claimed] + rest;
    let blank = before + seq![0u8] + rest;
    assert(data =~= before + (seq![claimed] + rest));
    assert(blank =~= before + (seq![0u8] + rest));
    lemma_byte_field(version, alias, seq![claimed] + rest);
    lemma_byte_field(version, alias, seq![0u8] + rest);
    lemma_same_behind(data, blank, before.len() as int);
    let first = version + seq![claimed] + rest;
    let empty = version + seq![0u8] + rest;
    lemma_same_behind(first, empty, 4);
}

proof fn lemma_cut_short(before: Seq<u8>, claimed: u8, rest: Seq<u8>)
    requires
        claimed > rest.len(),
    ensures
        ({
            let data = before + seq![claimed] + rest;
            let blank = before + seq![0u8] + rest;
            let pos = before.len() as int;
            &&& data.len() == blank.len()
            &&& forall|i: int| pos < i < data.len() ==> #[trigger] data[i] == blank[i]
            &&& text_at(data, pos) is None && text_at(blank, pos) is None
            &&& after_text(data, pos) == pos + 1
            &&& after_text(blank, pos) == pos + 1
        }),
{
}

/// What is read behind `pos` depends on the bytes behind `pos` alone.
proof fn lemma_same_behind(a: Seq<u8>, b: Seq<u8>, pos: int)
    requires
        0 <= pos < a.len(),
        a.len() == b.len(),
        forall|i: int| pos < i < a.len() ==> #[trigger] a[i] == b[i],
    ensures
        forall|p: int|
            pos < p ==> #[trigger] text_at(a, p) == text_at(b, p) && after_text(a, p)
                == after_text(b, p) && first_account(a, p) == first_account(b, p),
        forall|p: int|
            pos < p ==> #[trigger] after_text(a, p) == after_text(b, p) && after_text(a, p) >= p,
        forall|p: int| pos < p ==> #[trigger] first_account(a, p) == first_account(b, p),
{
    assert forall|p: int| pos < p implies text_at(a, p) == text_at(b, p) && after_text(a, p)
        == after_text(b, p) && first_account(a, p) == first_account(b, p) by {
        if p < a.len() {
            assert(a[p] == b[p]);
            if has_text_at(a, p) {
                assert(a.subrange(p + 1, p + 1 + a[p]) =~= b.subrange(p + 1, p + 1 + b[p]));
            }
            if p + 5 <= a.len() {
                assert(a.subrange(p + 1, p + 5) =~= b.subrange(p + 1, p + 5));
            }
        }
    }
}

} // verus!
