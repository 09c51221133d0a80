//! Contacts: the requests they come from, the notes about them, and how they are loaded.

use aes_gcm::aead::generic_array::GenericArray;
use aes_gcm::aes::cipher::{BlockEncrypt, KeyInit};
use aes_gcm::aes::Aes256;
use cbc::cipher::block_padding::{NoPadding, Pkcs7};
use cbc::cipher::{BlockEncryptMut, KeyIvInit};
use dash_evo_tool::cipher::{
    decrypt_private_data, decrypt_to_user_id, join_blocks, private_data_outcome,
};
use dash_evo_tool::contacts::{
    add_contact, apply_name, apply_profile, contact_of, dashpay_contract_id, find_mutual_contacts,
    get_dashpay_contract, make_contact_list, read_contact_info, remove_contact, request_owners,
    request_recipients, ContactData, DASHPAY_CONTRACT_ID,
};
use dash_evo_tool::document::{Document, Value};
use dash_evo_tool::identifier::Identifier;
use dash_evo_tool::load_contacts::{load_contacts, LoadStep, QueryReply};
use dash_evo_tool::pagination::{PageStep, Pagination};
use dash_evo_tool::private_data::parse_private_data;
use dash_evo_tool::query::{name_query, outgoing_requests_query, Contract, DocumentQuery};
use dash_evo_tool::result::BackendTaskSuccessResult;

fn id(byte: u8) -> Identifier {
    Identifier::from_bytes(&[byte; 32]).expect("32 bytes is a valid Identifier")
}

#[test]
fn mutual_contacts_intersect_only_reciprocal_pairs() {
    // Incoming: requests from A, B, C to us.
    // Outgoing: requests from us to B, C, D.
    // Mutual contacts should be {B, C}.
    let incoming = vec![id(0xA1), id(0xB2), id(0xC3)];
    let outgoing = vec![id(0xB2), id(0xC3), id(0xD4)];

    let mutual = find_mutual_contacts(incoming, outgoing);

    assert_eq!(mutual.len(), 2);
    assert!(mutual.contains(&id(0xB2)));
    assert!(mutual.contains(&id(0xC3)));
    assert!(!mutual.contains(&id(0xA1)));
    assert!(!mutual.contains(&id(0xD4)));
}

#[test]
fn mutual_contacts_handles_pagination_across_sets() {
    // An outgoing match for one of our incoming requests lives at position 150, well beyond a
    // single page of 100.
    let incoming: Vec<Identifier> = (0..200u32).map(|i| id((i % 256) as u8)).collect();
    let mut outgoing: Vec<Identifier> = (50..250u32).map(|i| id((i % 256) as u8)).collect();
    outgoing.push(id(0xFE));

    let mutual = find_mutual_contacts(incoming.clone(), outgoing);

    for ident in incoming.iter().skip(50) {
        assert!(mutual.contains(ident), "expected {:?} in mutual set", ident);
    }
    assert!(!mutual.contains(&id(0xFE))); // 0xFE only in outgoing
}

#[test]
fn mutual_contacts_empty_when_no_overlap() {
    let incoming = vec![id(0x01), id(0x02)];
    let outgoing = vec![id(0x03), id(0x04)];

    let mutual = find_mutual_contacts(incoming, outgoing);
    assert!(mutual.is_empty());
}

#[test]
fn mutual_contacts_empty_when_either_side_empty() {
    let incoming: Vec<Identifier> = vec![];
    let outgoing = vec![id(0x01)];
    assert!(find_mutual_contacts(incoming, outgoing).is_empty());

    let incoming = vec![id(0x01)];
    let outgoing: Vec<Identifier> = vec![];
    assert!(find_mutual_contacts(incoming, outgoing).is_empty());
}

#[test]
fn mutual_contacts_dedups_repeated_incoming() {
    // An identity that appears twice in the incoming list is listed once.
    let incoming = vec![id(0xAA), id(0xAA), id(0xBB)];
    let outgoing = vec![id(0xAA), id(0xBB)];

    let mutual = find_mutual_contacts(incoming, outgoing);
    assert_eq!(mutual.len(), 2);
}

#[test]
fn mutual_contacts_are_the_same_from_both_sides() {
    let ours = vec![id(1), id(2), id(3), id(2)];
    let theirs = vec![id(3), id(2), id(9)];
    let mut a = find_mutual_contacts(ours.clone(), theirs.clone());
    let mut b = find_mutual_contacts(theirs, ours);
    assert_eq!(a, vec![id(2), id(3)]);
    a.sort_by_key(|i| i.bytes);
    b.sort_by_key(|i| i.bytes);
    assert_eq!(a, b);
}

#[test]
fn identifiers_have_32_bytes() {
    assert!(Identifier::from_bytes(&[1u8; 31]).is_none());
    assert!(Identifier::from_bytes(&[1u8; 33]).is_none());
    assert_eq!(id(7).to_buffer(), [7u8; 32]);
    assert!(id(7).same(&id(7)));
    assert!(!id(7).same(&id(8)));
}

#[test]
fn dashpay_contract_is_fetched_by_its_id() {
    assert_eq!(dashpay_contract_id().to_buffer(), DASHPAY_CONTRACT_ID);
    assert_eq!(DASHPAY_CONTRACT_ID[0], 162);
    assert_eq!(DASHPAY_CONTRACT_ID[31], 188);
    assert_eq!(*get_dashpay_contract(Ok(Some(5u8))).unwrap(), 5);
    assert_eq!(
        get_dashpay_contract::<u8>(Ok(None)).unwrap_err(),
        "DashPay contract not found"
    );
    assert_eq!(
        get_dashpay_contract::<u8>(Err("timeout".to_string())).unwrap_err(),
        "Failed to fetch DashPay contract: timeout"
    );
}

#[test]
fn contacts_are_neither_added_by_name_nor_removed() {
    assert_eq!(
        add_contact("bob".to_string(), None).unwrap_err(),
        "Adding contacts via username is not yet implemented. Use the contact request workflow instead."
    );
    assert_eq!(
        remove_contact(id(1)).unwrap_err(),
        "Contact removal is not yet implemented"
    );
}

fn bytes_of(hex: &str) -> Vec<u8> {
    (0..hex.len() / 2)
        .map(|i| u8::from_str_radix(&hex[2 * i..2 * i + 2], 16).unwrap())
        .collect()
}

fn test_key() -> [u8; 32] {
    let mut key = [0u8; 32];
    for (i, b) in key.iter_mut().enumerate() {
        *b = i as u8;
    }
    key
}

#[test]
fn user_id_is_decrypted_block_by_block() {
    // The AES-256 example of FIPS 197, twice.
    let block = bytes_of("8ea2b7ca516745bfeafc49904b496089");
    let plain = bytes_of("00112233445566778899aabbccddeeff");
    let mut encrypted = block.clone();
    encrypted.extend_from_slice(&block);
    let decrypted = decrypt_to_user_id(&encrypted, &test_key()).unwrap();
    assert_eq!(&decrypted[0..16], plain.as_slice());
    assert_eq!(&decrypted[16..32], plain.as_slice());
}

#[test]
fn user_id_of_another_length_is_refused() {
    for len in [0usize, 16, 31, 33, 48] {
        assert_eq!(
            decrypt_to_user_id(&vec![0u8; len], &test_key()).unwrap_err(),
            "Invalid encrypted user ID length"
        );
    }
}

#[test]
fn blocks_are_joined_in_order() {
    let joined = join_blocks(&[1u8; 16], &[2u8; 16]);
    assert_eq!(&joined[0..16], &[1u8; 16]);
    assert_eq!(&joined[16..32], &[2u8; 16]);
}

fn encrypt_id(plain: &[u8; 32], key: &[u8; 32]) -> Vec<u8> {
    let cipher = Aes256::new(GenericArray::from_slice(key));
    let mut out = Vec::new();
    for half in [&plain[0..16], &plain[16..32]] {
        let mut block = GenericArray::clone_from_slice(half);
        cipher.encrypt_block(&mut block);
        out.extend_from_slice(&block);
    }
    out
}

fn encrypt_data(plain: &[u8], key: &[u8; 32], iv: &[u8; 16]) -> Vec<u8> {
    let cipher = cbc::Encryptor::<Aes256>::new(key.into(), iv.into());
    let mut buffer = plain.to_vec();
    buffer.resize(plain.len() + 16, 0);
    let encrypted = cipher
        .encrypt_padded_mut::<Pkcs7>(&mut buffer, plain.len())
        .unwrap()
        .to_vec();
    let mut out = iv.to_vec();
    out.extend_from_slice(&encrypted);
    out
}

#[test]
fn private_data_is_decrypted_behind_its_vector() {
    for len in [0usize, 1, 15, 16, 17, 64] {
        let plain: Vec<u8> = (0..len).map(|i| i as u8).collect();
        let encrypted = encrypt_data(&plain, &test_key(), &[9u8; 16]);
        assert_eq!(decrypt_private_data(&encrypted, &test_key()).unwrap(), plain);
    }
}

/// Encrypts whole blocks as they are.
fn encrypt_blocks(blocks: &[u8], key: &[u8; 32], iv: &[u8; 16]) -> Vec<u8> {
    let cipher = cbc::Encryptor::<Aes256>::new(key.into(), iv.into());
    let mut buffer = blocks.to_vec();
    let encrypted = cipher
        .encrypt_padded_mut::<NoPadding>(&mut buffer, blocks.len())
        .unwrap()
        .to_vec();
    let mut out = iv.to_vec();
    out.extend_from_slice(&encrypted);
    out
}

#[test]
fn padding_is_checked_byte_by_byte() {
    let decrypt = |end: &[u8]| {
        let mut blocks = vec![50u8; 32 - end.len()];
        blocks.extend_from_slice(end);
        decrypt_private_data(&encrypt_blocks(&blocks, &test_key(), &[9u8; 16]), &test_key())
    };
    assert_eq!(decrypt(&[1]).unwrap(), vec![50u8; 31]);
    assert_eq!(decrypt(&[2, 2]).unwrap(), vec![50u8; 30]);
    assert_eq!(decrypt(&[16; 16]).unwrap(), vec![50u8; 16]);
    for end in [&[7u8, 2][..], &[0], &[17; 17], &[3, 4, 3]] {
        assert!(decrypt(end).is_err());
    }
}

#[test]
fn blocks_are_chained() {
    // The AES-256 example of FIPS 197 in two blocks: each is added to what stands before it.
    let block = bytes_of("8ea2b7ca516745bfeafc49904b496089");
    let plain = bytes_of("00112233445566778899aabbccddeeff");
    let iv = [0xffu8; 16];
    let mut encrypted = iv.to_vec();
    encrypted.extend_from_slice(&block);
    // The last block ends with its own padding where the block before it is chosen for that.
    let before: Vec<u8> = plain.iter().map(|b| b ^ 16).collect();
    encrypted.extend_from_slice(&before);
    encrypted.extend_from_slice(&block);
    let decrypted = decrypt_private_data(&encrypted, &test_key()).unwrap();
    assert_eq!(decrypted.len(), 32);
    let first: Vec<u8> = plain.iter().map(|b| b ^ 0xff).collect();
    assert_eq!(&decrypted[0..16], first.as_slice());
}

#[test]
fn private_data_without_vector_is_refused() {
    assert_eq!(
        decrypt_private_data(&[0u8; 15], &test_key()).unwrap_err(),
        "Encrypted data too short (no IV)"
    );
}

#[test]
fn private_data_with_bad_length_or_padding_is_refused() {
    assert_eq!(
        decrypt_private_data(&[0u8; 16], &test_key()).unwrap_err(),
        "Decryption failed: UnpadError"
    );
    assert_eq!(
        decrypt_private_data(&[0u8; 40], &test_key()).unwrap_err(),
        "Decryption failed: UnpadError"
    );
    let encrypted = encrypt_data(b"some text", &test_key(), &[9u8; 16]);
    let mut other_key = test_key();
    other_key[0] ^= 1;
    assert_eq!(
        decrypt_private_data(&encrypted, &other_key).unwrap_err(),
        "Decryption failed: UnpadError"
    );
    assert_eq!(private_data_outcome(Some(vec![1])).unwrap(), vec![1]);
    assert_eq!(
        private_data_outcome(None).unwrap_err(),
        "Decryption failed: UnpadError"
    );
}

fn private_bytes(alias: &str, note: &str, hidden: u8, accounts: &[u32]) -> Vec<u8> {
    let mut out = vec![0, 0, 0, 1];
    out.push(alias.len() as u8);
    out.extend_from_slice(alias.as_bytes());
    out.push(note.len() as u8);
    out.extend_from_slice(note.as_bytes());
    out.push(hidden);
    out.push(accounts.len() as u8);
    for a in accounts {
        out.extend_from_slice(&a.to_le_bytes());
    }
    out
}

#[test]
fn private_data_is_read_back_as_noted() {
    let data = private_bytes("Älice", "met at the fair", 1, &[0x0102_0304, 7]);
    let parsed = parse_private_data(&data);
    assert_eq!(parsed.nickname.as_deref(), Some("Älice"));
    assert_eq!(parsed.note.as_deref(), Some("met at the fair"));
    assert!(parsed.is_hidden);
    assert_eq!(parsed.account_reference, 0x0102_0304);
}

#[test]
fn private_data_that_is_blank_or_cut_short() {
    let blank = parse_private_data(&private_bytes("", "", 0, &[]));
    assert_eq!(blank.nickname, None);
    assert_eq!(blank.note, None);
    assert!(!blank.is_hidden);
    assert_eq!(blank.account_reference, 0);

    // Fewer than eight bytes say nothing.
    let short = parse_private_data(&[0, 0, 0, 0, 1, b'a', 1]);
    assert_eq!(short.nickname, None);

    // An alias that claims more bytes than there are: only its length byte is passed over.
    let cut = parse_private_data(&[0, 0, 0, 0, 200, 1, b'n', 1]);
    assert_eq!(cut.nickname, None);
    assert_eq!(cut.note.as_deref(), Some("n"));
    assert!(cut.is_hidden);

    // An account list that is cut short.
    let mut data = private_bytes("a", "b", 0, &[5]);
    data.pop();
    assert_eq!(parse_private_data(&data).account_reference, 0);
}

#[test]
fn private_texts_that_are_no_utf8_are_left_out() {
    let mut data = private_bytes("ab", "cd", 0, &[]);
    data[5] = 0xFF;
    let parsed = parse_private_data(&data);
    assert_eq!(parsed.nickname, None);
    assert_eq!(parsed.note.as_deref(), Some("cd"));
}

fn doc(owner: u8, properties: Vec<(&str, Value)>) -> Document {
    Document {
        owner_id: id(owner),
        properties: properties
            .into_iter()
            .map(|(name, value)| (name.to_string(), value))
            .collect(),
    }
}

fn text(s: &str) -> Value {
    Value::Text(s.to_string())
}

#[test]
fn properties_are_read_by_type() {
    let d = doc(
        1,
        vec![
            ("a", text("x")),
            ("b", Value::U32(4)),
            ("c", Value::U64(5)),
            ("d", Value::Bytes(vec![6])),
            ("e", Value::Identifier([7u8; 32])),
        ],
    );
    assert_eq!(d.get_text("a").as_deref(), Some("x"));
    assert_eq!(d.get_text("b"), None);
    assert_eq!(d.get_u32("b"), Some(4));
    assert_eq!(d.get_u64("c"), Some(5));
    assert_eq!(d.get_u64("b"), None);
    assert_eq!(d.get_bytes("d"), Some(&vec![6u8]));
    assert_eq!(d.get_identifier("e"), Some(id(7)));
    assert_eq!(d.get_identifier("z"), None);
    assert!(d.get("z").is_none());
}

#[test]
fn requests_name_recipients_and_owners() {
    let requests = vec![
        (id(100), doc(1, vec![("toUserId", Value::Identifier([11u8; 32]))])),
        (id(101), doc(2, vec![("toUserId", text("not an identifier"))])),
        (id(102), doc(3, vec![("toUserId", Value::Identifier([13u8; 32]))])),
    ];
    assert_eq!(request_recipients(&requests), vec![id(11), id(13)]);
    assert_eq!(request_owners(&requests), vec![id(1), id(2), id(3)]);
}

#[test]
fn contact_info_is_decrypted_and_read() {
    let user_key = test_key();
    let data_key = [3u8; 32];
    let private = encrypt_data(&private_bytes("Al", "n", 1, &[9]), &data_key, &[1u8; 16]);
    let info = doc(
        1,
        vec![
            ("encToUserId", Value::Bytes(encrypt_id(&[42u8; 32], &user_key))),
            ("privateData", Value::Bytes(private)),
        ],
    );
    let contact = read_contact_info(&info, &user_key, &data_key).unwrap();
    assert_eq!(contact.identity_id, id(42));
    assert_eq!(contact.nickname.as_deref(), Some("Al"));
    assert_eq!(contact.note.as_deref(), Some("n"));
    assert!(contact.is_hidden);
    assert_eq!(contact.account_reference, 9);

    // Private data that cannot be decrypted leave the contact bare.
    let info = doc(
        1,
        vec![
            ("encToUserId", Value::Bytes(encrypt_id(&[42u8; 32], &user_key))),
            ("privateData", Value::Bytes(vec![0; 3])),
        ],
    );
    assert_eq!(
        read_contact_info(&info, &user_key, &data_key),
        Some(ContactData::bare(id(42)))
    );

    // Without a contact that can be decrypted, a document says nothing.
    let info = doc(1, vec![("encToUserId", Value::Bytes(vec![0; 31]))]);
    assert!(read_contact_info(&info, &user_key, &data_key).is_none());
    assert!(read_contact_info(&doc(1, vec![]), &user_key, &data_key).is_none());
}

#[test]
fn contact_of_reads_decrypted_data() {
    let contact = contact_of([4u8; 32], Some(private_bytes("x", "", 0, &[])));
    assert_eq!(contact.identity_id, id(4));
    assert_eq!(contact.nickname.as_deref(), Some("x"));
    assert_eq!(contact_of([4u8; 32], None), ContactData::bare(id(4)));
}

#[test]
fn the_last_note_about_a_contact_counts() {
    let mut first = ContactData::bare(id(1));
    first.nickname = Some("old".to_string());
    let mut second = ContactData::bare(id(1));
    second.nickname = Some("new".to_string());
    let list = make_contact_list(&vec![id(2), id(1)], &vec![first, second.duplicate()]);
    assert_eq!(list, vec![ContactData::bare(id(2)), second]);
}

#[test]
fn profile_and_name_go_to_their_contact() {
    let mut list = vec![ContactData::bare(id(1)), ContactData::bare(id(2))];
    apply_profile(
        &mut list,
        &id(2),
        &doc(2, vec![("displayName", text("Bob")), ("bio", Value::U32(1))]),
    );
    apply_name(&mut list, &id(2), &doc(2, vec![("label", text("bob"))]));
    apply_name(&mut list, &id(2), &doc(2, vec![]));
    apply_name(&mut list, &id(3), &doc(3, vec![("label", text("eve"))]));
    assert_eq!(list[0], ContactData::bare(id(1)));
    assert_eq!(list[1].display_name.as_deref(), Some("Bob"));
    assert_eq!(list[1].bio, None);
    assert_eq!(list[1].username.as_deref(), Some("bob"));
}

#[test]
fn pages_are_collected_until_one_is_not_full() {
    let entry = |i: u32| {
        let mut bytes = [0u8; 32];
        bytes[0] = (i / 256) as u8;
        bytes[1] = (i % 256) as u8;
        (
            Identifier { bytes },
            if i % 10 == 9 { None } else { Some(i) },
        )
    };
    let pages: Pagination<u32> = Pagination::begin(outgoing_requests_query(id(1)), "things");
    assert_eq!(pages.query().limit, 100);
    assert_eq!(pages.query().start_after, None);
    let first: Vec<_> = (0..100).map(entry).collect();
    let last_id = first[99].0;
    let PageStep::More(pages) = pages.resume(Ok(first)) else {
        panic!("a full page is not the last one")
    };
    assert_eq!(pages.query().start_after, Some(last_id));
    let second: Vec<_> = (100..150).map(entry).collect();
    let PageStep::Finished(all) = pages.resume(Ok(second)) else {
        panic!("a page that is not full is the last one")
    };
    let values: Vec<u32> = all.iter().map(|(_, v)| *v).collect();
    let expected: Vec<u32> = (0..150).filter(|i| i % 10 != 9).collect();
    assert_eq!(values, expected);
}

#[test]
fn a_page_that_fails_names_its_query() {
    let pages: Pagination<u32> = Pagination::begin(outgoing_requests_query(id(1)), "things");
    let PageStep::Failed(message) = pages.resume(Err("timeout".to_string())) else {
        panic!("the fetch fails")
    };
    assert_eq!(message, "Error fetching things: timeout");
}

/// A platform with a few documents.
struct Platform {
    me: u8,
    user_key: [u8; 32],
    data_key: [u8; 32],
    queries: Vec<DocumentQuery>,
}

impl Platform {
    fn new() -> Platform {
        Platform {
            me: 1,
            user_key: test_key(),
            data_key: [3u8; 32],
            queries: vec![],
        }
    }

    fn info(&self, about: u8, index: Value, nickname: &str) -> Document {
        doc(
            self.me,
            vec![
                ("derivationEncryptionKeyIndex", index),
                (
                    "encToUserId",
                    Value::Bytes(encrypt_id(&[about; 32], &self.user_key)),
                ),
                (
                    "privateData",
                    Value::Bytes(encrypt_data(
                        &private_bytes(nickname, "", 0, &[]),
                        &self.data_key,
                        &[1u8; 16],
                    )),
                ),
            ],
        )
    }

    fn answer(&mut self, query: &DocumentQuery) -> QueryReply {
        self.queries.push(query.clone());
        let to = |b: u8| doc(self.me, vec![("toUserId", Value::Identifier([b; 32]))]);
        let documents = match (query.document_type, query.field) {
            ("contactRequest", "$ownerId") => vec![to(20), to(30), to(40)],
            ("contactRequest", "toUserId") => {
                vec![doc(50, vec![]), doc(40, vec![]), doc(20, vec![]), doc(40, vec![])]
            }
            ("contactInfo", _) => vec![
                self.info(40, Value::U32(0), "first"),
                self.info(40, Value::U32(1), "second"),
                self.info(20, Value::U64(0), "no index"),
                self.info(20, Value::U32(2), "no keys"),
            ],
            ("profile", _) if query.value == id(40) => vec![doc(
                40,
                vec![("displayName", text("Forty")), ("avatarUrl", text("url"))],
            )],
            ("profile", _) => return QueryReply::Failed("timeout".to_string()),
            ("domain", _) if query.value == id(20) => vec![doc(9, vec![("label", text("twenty"))])],
            _ => vec![],
        };
        QueryReply::Page(
            documents
                .into_iter()
                .enumerate()
                .map(|(i, d)| (id(100 + i as u8), Some(d)))
                .collect(),
        )
    }

    fn keys(&self, index: u32) -> Result<([u8; 32], [u8; 32]), String> {
        if index == 2 {
            Err("no keys".to_string())
        } else {
            Ok((self.user_key, self.data_key))
        }
    }

    fn run(&mut self) -> Result<BackendTaskSuccessResult, String> {
        let mut step = load_contacts(id(self.me));
        loop {
            step = match step {
                LoadStep::Query(waiting) => {
                    let reply = self.answer(waiting.query());
                    waiting.resume(reply)
                }
                LoadStep::DeriveKeys(waiting) => {
                    let keys = self.keys(waiting.derivation_index());
                    waiting.resume(keys)
                }
                LoadStep::Done(result) => return result,
            }
        }
    }
}

#[test]
fn contacts_are_loaded_with_all_that_is_known() {
    let mut platform = Platform::new();
    let Ok(BackendTaskSuccessResult::DashPayContactsWithInfo(list)) = platform.run() else {
        panic!("the load succeeds")
    };
    assert_eq!(list.len(), 2);
    assert_eq!(list[0].identity_id, id(40));
    assert_eq!(list[0].nickname.as_deref(), Some("second"));
    assert_eq!(list[0].display_name.as_deref(), Some("Forty"));
    assert_eq!(list[0].avatar_url.as_deref(), Some("url"));
    assert_eq!(list[0].bio, None);
    assert_eq!(list[0].username, None);
    assert_eq!(list[1].identity_id, id(20));
    assert_eq!(list[1].nickname, None);
    assert_eq!(list[1].username.as_deref(), Some("twenty"));

    let q = &platform.queries;
    assert_eq!(q.len(), 7);
    assert_eq!((q[0].document_type, q[0].field, q[0].limit), ("contactRequest", "$ownerId", 100));
    assert_eq!(q[0].order_by.map(|o| (o.field, o.ascending)), Some(("$createdAt", true)));
    assert_eq!((q[1].document_type, q[1].field, q[1].limit), ("contactRequest", "toUserId", 100));
    assert_eq!((q[2].document_type, q[2].field, q[2].limit), ("contactInfo", "$ownerId", 100));
    assert_eq!(q[2].order_by, None);
    assert_eq!((q[3].document_type, q[3].limit, q[3].value), ("profile", 1, id(40)));
    assert_eq!(q[4], name_query(id(40)));
    assert_eq!(q[4].contract, Contract::Dpns);
    assert_eq!((q[5].document_type, q[5].value), ("profile", id(20)));
    assert_eq!((q[6].document_type, q[6].value), ("domain", id(20)));
}

fn first_query(reply: QueryReply) -> LoadStep {
    let LoadStep::Query(waiting) = load_contacts(id(1)) else {
        panic!("a load begins with a query")
    };
    waiting.resume(reply)
}

fn next_query(step: LoadStep, reply: QueryReply) -> LoadStep {
    let LoadStep::Query(waiting) = step else {
        panic!("a query is expected")
    };
    waiting.resume(reply)
}

fn failure(step: LoadStep) -> String {
    let LoadStep::Done(Err(message)) = step else {
        panic!("the load has failed")
    };
    message
}

fn page(documents: Vec<Document>) -> QueryReply {
    QueryReply::Page(documents.into_iter().map(|d| (id(99), Some(d))).collect())
}

#[test]
fn a_load_fails_with_its_queries() {
    let e = || "oops".to_string();
    assert_eq!(
        failure(first_query(QueryReply::Failed(e()))),
        "Error fetching outgoing contact requests: oops"
    );
    assert_eq!(
        failure(first_query(QueryReply::NotBuilt(e()))),
        "Failed to create query: oops"
    );
    let incoming = || first_query(page(vec![doc(1, vec![("toUserId", Value::Identifier([5; 32]))])]));
    assert_eq!(
        failure(next_query(incoming(), QueryReply::Failed(e()))),
        "Error fetching incoming contact requests: oops"
    );
    let infos = || next_query(incoming(), page(vec![doc(5, vec![])]));
    assert_eq!(
        failure(next_query(infos(), QueryReply::Failed(e()))),
        "Error fetching contact info: oops"
    );
    let profile = || next_query(infos(), page(vec![]));
    assert_eq!(
        failure(next_query(profile(), QueryReply::NotBuilt(e()))),
        "Failed to create profile query: oops"
    );
    let name = next_query(profile(), QueryReply::Failed(e()));
    assert_eq!(
        failure(next_query(name, QueryReply::NotBuilt(e()))),
        "Failed to create DPNS query: oops"
    );
}

#[test]
fn a_load_without_contacts_asks_for_no_profile() {
    let step = next_query(next_query(first_query(page(vec![])), page(vec![])), page(vec![]));
    let LoadStep::Done(Ok(BackendTaskSuccessResult::DashPayContactsWithInfo(list))) = step else {
        panic!("the load is over")
    };
    assert!(list.is_empty());
}

#[test]
fn a_profile_without_document_changes_nothing() {
    let incoming = first_query(page(vec![doc(1, vec![("toUserId", Value::Identifier([5; 32]))])]));
    let profile = next_query(next_query(incoming, page(vec![doc(5, vec![])])), page(vec![]));
    let name = next_query(profile, QueryReply::Page(vec![(id(1), None)]));
    let step = next_query(name, QueryReply::Page(vec![(id(1), None)]));
    let LoadStep::Done(Ok(BackendTaskSuccessResult::DashPayContactsWithInfo(list))) = step else {
        panic!("the load is over")
    };
    assert_eq!(list, vec![ContactData::bare(id(5))]);
}
