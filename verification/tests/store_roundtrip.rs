use sled::transaction::{ConflictableTransactionError, TransactionError, UnabortableTransactionError};
use urlnao::db::{
    candidate_is_free, existing_identifier, get_all_ids_and_names, listed_entry, open, raised,
    register_upload, scan_ids_and_names, settle, stored_text, try_add_sha_orig, try_bind_shortid,
    try_get_new_shortid, try_get_orig_for_sha, try_get_sha_and_orig, try_get_sha_for_orig,
};
use urlnao::error::UploadError;
use urlnao::file::get_sha256_of_file;
use urlnao::store::{fetched, written, Store};

const HELLO_SHA256: &str = "2cf24dba5fb0a30e26e83b2ac5b9e29e1b161e5c1fa7425e73043362938b9824";

fn fresh_db() -> Store {
    Store::temporary().unwrap()
}

fn held(db: &Store, tree: &str, key: &[u8]) -> Option<Vec<u8>> {
    db.get(tree, key).unwrap()
}

fn strings(items: &[&str]) -> Vec<String> {
    items.iter().map(|s| s.to_string()).collect()
}

#[test]
fn hello_round_trip() {
    let mut db = fresh_db();
    let checksum = get_sha256_of_file(b"hello").unwrap();
    assert_eq!(checksum, HELLO_SHA256);

    let id = register_upload(&mut db, &checksum, "greeting.txt").unwrap();
    assert!(id.len() >= 3 && id.len() <= 8);
    assert!(id.chars().all(|c| c.is_ascii_alphanumeric()));

    assert_eq!(
        try_get_sha_and_orig(&db, id.as_bytes()),
        Ok((HELLO_SHA256.to_string(), "greeting.txt".to_string()))
    );
    assert_eq!(try_get_sha_for_orig(&db, b"greeting.txt"), Ok(HELLO_SHA256.to_string()));

    let again = register_upload(&mut db, &get_sha256_of_file(b"hello").unwrap(), "again.txt").unwrap();
    assert_eq!(again, id);
    assert_eq!(try_get_sha_for_orig(&db, b"again.txt"), Ok(HELLO_SHA256.to_string()));
    assert_eq!(try_get_sha_for_orig(&db, b"greeting.txt"), Ok(HELLO_SHA256.to_string()));
    assert_eq!(try_get_orig_for_sha(&db, HELLO_SHA256.as_bytes()), Ok("again.txt".to_string()));

    let uploads = get_all_ids_and_names(&db).unwrap();
    assert_eq!(uploads.len(), 1);
    assert_eq!(uploads[0].id, id);
    assert_eq!(uploads[0].checksum, HELLO_SHA256);
    assert_eq!(uploads[0].orig_name, Some("again.txt".to_string()));
}

#[test]
fn same_content_keeps_its_identifier() {
    let mut db = fresh_db();
    let first = try_get_new_shortid(&mut db, HELLO_SHA256).unwrap();
    let second = try_get_new_shortid(&mut db, HELLO_SHA256).unwrap();
    let third = try_bind_shortid(&mut db, HELLO_SHA256, &strings(&["zzz"])).unwrap();
    assert_eq!(first, second);
    assert_eq!(first, third);
    assert_eq!(get_all_ids_and_names(&db).unwrap().len(), 1);
    assert_eq!(try_get_sha_and_orig(&db, b"zzz"), Err(UploadError::NotFound));
}

#[test]
fn different_contents_get_different_identifiers() {
    let mut db = fresh_db();
    let mut ids: Vec<String> = Vec::new();
    for n in 0..40 {
        let checksum = get_sha256_of_file(format!("content {}", n).as_bytes()).unwrap();
        match try_get_new_shortid(&mut db, &checksum) {
            Ok(id) => {
                assert!(!ids.contains(&id));
                ids.push(id);
            }
            Err(reason) => assert_eq!(reason, UploadError::AllocationExhausted),
        }
    }
    assert!(ids.len() >= 39);
    assert_eq!(get_all_ids_and_names(&db).unwrap().len(), ids.len());
}

#[test]
fn first_free_candidate_is_bound() {
    let mut db = fresh_db();
    assert_eq!(try_bind_shortid(&mut db, "sha-a", &strings(&["abc", "def"])), Ok("abc".to_string()));
    assert_eq!(try_bind_shortid(&mut db, "sha-b", &strings(&["abc", "def"])), Ok("def".to_string()));
    assert_eq!(held(&db, "id_to_sha", b"abc"), Some(b"sha-a".to_vec()));
    assert_eq!(held(&db, "id_to_sha", b"def"), Some(b"sha-b".to_vec()));
    assert_eq!(held(&db, "sha_to_id", b"sha-a"), Some(b"abc".to_vec()));
    assert_eq!(held(&db, "sha_to_id", b"sha-b"), Some(b"def".to_vec()));
    assert_eq!(get_all_ids_and_names(&db).unwrap().len(), 2);
}

#[test]
fn ill_formed_candidates_are_passed_over() {
    let mut db = fresh_db();
    let candidates = strings(&["ab", "way-too-long-for-an-id", "a/b", "ok1", "ok2"]);
    assert_eq!(try_bind_shortid(&mut db, "sha-a", &candidates), Ok("ok1".to_string()));
    let candidates = strings(&["", "ab", "abcdefghi", "a b", "\u{e9}\u{e9}\u{e9}", "good"]);
    assert_eq!(try_bind_shortid(&mut db, "sha-b", &candidates), Err(UploadError::AllocationExhausted));
    assert_eq!(try_bind_shortid(&mut db, "sha-c", &Vec::new()), Err(UploadError::AllocationExhausted));
    assert_eq!(get_all_ids_and_names(&db).unwrap().len(), 1);
}

#[test]
fn sixth_candidate_is_never_tried() {
    let mut db = fresh_db();
    let taken = strings(&["aaa", "bbb", "ccc", "ddd", "eee"]);
    for (i, id) in taken.iter().enumerate() {
        let sha = format!("sha-{}", i);
        assert_eq!(try_bind_shortid(&mut db, &sha, &vec![id.clone()]), Ok(id.clone()));
    }
    let mut candidates = taken.clone();
    candidates.push("fff".to_string());
    assert_eq!(try_bind_shortid(&mut db, "fresh", &candidates), Err(UploadError::AllocationExhausted));
    assert_eq!(try_get_sha_and_orig(&db, b"fff"), Err(UploadError::NotFound));
    assert_eq!(held(&db, "sha_to_id", b"fresh"), None);
    assert_eq!(get_all_ids_and_names(&db).unwrap().len(), 5);

    let candidates = strings(&["aaa", "bbb", "ccc", "ddd", "fff", "ggg"]);
    assert_eq!(try_bind_shortid(&mut db, "fresh", &candidates), Ok("fff".to_string()));
}

#[test]
fn stored_identifier_that_is_no_text_is_an_encoding_error() {
    let mut db = fresh_db();
    db.put("sha_to_id", b"sha-a", &[0xff, 0xfe]).unwrap();
    assert_eq!(try_bind_shortid(&mut db, "sha-a", &strings(&["abc"])), Err(UploadError::EncodingError));
    assert_eq!(try_get_new_shortid(&mut db, "sha-a"), Err(UploadError::EncodingError));
    assert_eq!(register_upload(&mut db, "sha-a", "a.txt"), Err(UploadError::EncodingError));
    assert_eq!(try_get_sha_for_orig(&db, b"a.txt"), Err(UploadError::NotFound));
    assert_eq!(scan_ids_and_names(&db).unwrap().skipped.len(), 0);
    assert_eq!(get_all_ids_and_names(&db).unwrap().len(), 0);
}

#[test]
fn last_registered_filename_wins() {
    let mut db = fresh_db();
    assert_eq!(try_add_sha_orig(&mut db, "h1", "first.txt"), Ok(()));
    assert_eq!(try_add_sha_orig(&mut db, "h1", "a.txt"), Ok(()));
    assert_eq!(try_get_sha_for_orig(&db, b"a.txt"), Ok("h1".to_string()));
    assert_eq!(try_add_sha_orig(&mut db, "h2", "a.txt"), Ok(()));
    assert_eq!(try_get_sha_for_orig(&db, b"a.txt"), Ok("h2".to_string()));
    assert_eq!(try_get_orig_for_sha(&db, b"h2"), Ok("a.txt".to_string()));
    assert_eq!(try_get_orig_for_sha(&db, b"h1"), Ok("a.txt".to_string()));
    assert_eq!(try_get_sha_for_orig(&db, b"first.txt"), Ok("h1".to_string()));
}

#[test]
fn earlier_name_of_other_content_is_unaffected() {
    let mut db = fresh_db();
    try_add_sha_orig(&mut db, "h1", "one.txt").unwrap();
    try_add_sha_orig(&mut db, "h2", "a.txt").unwrap();
    try_add_sha_orig(&mut db, "h3", "a.txt").unwrap();
    assert_eq!(try_get_sha_for_orig(&db, b"a.txt"), Ok("h3".to_string()));
    assert_eq!(try_get_orig_for_sha(&db, b"h1"), Ok("one.txt".to_string()));
    assert_eq!(try_get_orig_for_sha(&db, b"h2"), Ok("a.txt".to_string()));
}

#[test]
fn unknown_keys_are_not_found() {
    let db = fresh_db();
    assert_eq!(try_get_sha_for_orig(&db, b"nothing.txt"), Err(UploadError::NotFound));
    assert_eq!(try_get_orig_for_sha(&db, b"0000"), Err(UploadError::NotFound));
    assert_eq!(try_get_sha_and_orig(&db, b"abc"), Err(UploadError::NotFound));
    assert_eq!(get_all_ids_and_names(&db).unwrap().len(), 0);
}

#[test]
fn identifier_without_a_filename_does_not_resolve() {
    let mut db = fresh_db();
    let id = try_bind_shortid(&mut db, "sha-a", &strings(&["abc"])).unwrap();
    assert_eq!(try_get_sha_and_orig(&db, id.as_bytes()), Err(UploadError::NotFound));
    try_add_sha_orig(&mut db, "sha-a", "a.txt").unwrap();
    assert_eq!(try_get_sha_and_orig(&db, id.as_bytes()), Ok(("sha-a".to_string(), "a.txt".to_string())));
}

#[test]
fn stored_values_that_are_no_text_are_not_found() {
    let mut db = fresh_db();
    db.put("orig_to_sha", b"a.txt", &[0xc3, 0x28]).unwrap();
    db.put("id_to_sha", b"abc", &[0xff]).unwrap();
    db.put("id_to_sha", b"def", b"sha-d").unwrap();
    db.put("sha_to_orig", b"sha-d", &[0x80]).unwrap();
    assert_eq!(try_get_sha_for_orig(&db, b"a.txt"), Err(UploadError::NotFound));
    assert_eq!(try_get_sha_and_orig(&db, b"abc"), Err(UploadError::NotFound));
    assert_eq!(try_get_sha_and_orig(&db, b"def"), Err(UploadError::NotFound));
    assert_eq!(try_get_orig_for_sha(&db, b"sha-d"), Err(UploadError::NotFound));
}

#[test]
fn listing_is_ordered_and_skips_what_is_no_text() {
    let mut db = fresh_db();
    try_bind_shortid(&mut db, "sha-2", &strings(&["bbb"])).unwrap();
    try_bind_shortid(&mut db, "sha-1", &strings(&["abcd"])).unwrap();
    try_bind_shortid(&mut db, "sha-3", &strings(&["abc"])).unwrap();
    try_bind_shortid(&mut db, "sha-4", &strings(&["ccc"])).unwrap();
    try_add_sha_orig(&mut db, "sha-1", "one.txt").unwrap();
    try_add_sha_orig(&mut db, "sha-3", "three.txt").unwrap();
    db.put("sha_to_orig", b"sha-4", &[0xff]).unwrap();
    db.put("id_to_sha", &[0xff, 0x30], b"sha-5").unwrap();
    db.put("id_to_sha", b"Abc", &[0xfe]).unwrap();

    let uploads = get_all_ids_and_names(&db).unwrap();
    let seen: Vec<(String, String, Option<String>)> =
        uploads.into_iter().map(|u| (u.id, u.checksum, u.orig_name)).collect();
    assert_eq!(
        seen,
        vec![
            ("abc".to_string(), "sha-3".to_string(), Some("three.txt".to_string())),
            ("abcd".to_string(), "sha-1".to_string(), Some("one.txt".to_string())),
            ("bbb".to_string(), "sha-2".to_string(), None),
        ]
    );
}

#[test]
fn registration_binds_identifier_and_filename() {
    let mut db = fresh_db();
    let id = register_upload(&mut db, "sha-a", "a.txt").unwrap();
    assert_eq!(held(&db, "sha_to_id", b"sha-a"), Some(id.as_bytes().to_vec()));
    assert_eq!(held(&db, "id_to_sha", id.as_bytes()), Some(b"sha-a".to_vec()));
    assert_eq!(held(&db, "sha_to_orig", b"sha-a"), Some(b"a.txt".to_vec()));
    assert_eq!(held(&db, "orig_to_sha", b"a.txt"), Some(b"sha-a".to_vec()));
}

#[test]
fn unusable_location_makes_the_store_unavailable() {
    assert!(matches!(open("/dev/null/no/store/here".into()), Err(UploadError::StoreUnavailable)));
}

#[test]
fn lookup_answers_read_as_text() {
    assert_eq!(stored_text(Ok(Some(b"abc".to_vec()))), Ok("abc".to_string()));
    assert_eq!(stored_text(Ok(Some("h\u{e9}".as_bytes().to_vec()))), Ok("h\u{e9}".to_string()));
    assert_eq!(stored_text(Ok(Some(Vec::new()))), Ok(String::new()));
    assert_eq!(
        stored_text(Ok(Some("na\u{ef}ve \u{2603} \u{1f600}".as_bytes().to_vec()))),
        Ok("na\u{ef}ve \u{2603} \u{1f600}".to_string())
    );
    assert_eq!(stored_text(Ok(Some(vec![0x61, 0xff]))), Err(UploadError::NotFound));
    assert_eq!(stored_text(Ok(Some(vec![0x61, 0xc3]))), Err(UploadError::NotFound));
    assert_eq!(stored_text(Ok(Some(vec![0xed, 0xa0, 0x80]))), Err(UploadError::NotFound));
    assert_eq!(stored_text(Ok(Some(vec![0xc0, 0x80]))), Err(UploadError::NotFound));
    assert_eq!(stored_text(Ok(Some(vec![0xf4, 0x90, 0x80, 0x80]))), Err(UploadError::NotFound));
    assert_eq!(stored_text(Ok(None)), Err(UploadError::NotFound));
    assert_eq!(
        stored_text(Err(sled::Error::Unsupported("broken".to_string()))),
        Err(UploadError::StoreUnavailable)
    );
}

#[test]
fn transaction_results_settle() {
    assert_eq!(settle(Ok("abc".to_string())), Ok("abc".to_string()));
    assert_eq!(
        settle(Err(TransactionError::Abort(UploadError::AllocationExhausted))),
        Err(UploadError::AllocationExhausted)
    );
    assert_eq!(
        settle(Err(TransactionError::Abort(UploadError::EncodingError))),
        Err(UploadError::EncodingError)
    );
    assert_eq!(
        settle(Err(TransactionError::Storage(sled::Error::Unsupported("broken".to_string())))),
        Err(UploadError::StoreUnavailable)
    );
}

#[test]
fn opened_store_keeps_what_was_written() {
    let path = "/tmp/urlnao-store-reopened".to_string();
    {
        let mut db = open(path.as_str().into()).unwrap();
        assert_eq!(try_bind_shortid(&mut db, "sha-a", &strings(&["abc"])), Ok("abc".to_string()));
        try_add_sha_orig(&mut db, "sha-a", "a.txt").unwrap();
    }
    let db = open(path.as_str().into()).unwrap();
    assert_eq!(try_get_sha_and_orig(&db, b"abc"), Ok(("sha-a".to_string(), "a.txt".to_string())));
    assert!(matches!(open(path.as_str().into()), Err(UploadError::StoreUnavailable)));
}

#[test]
fn single_keys_are_written_and_read() {
    let mut db = fresh_db();
    assert_eq!(db.get("sha_to_orig", b"sha-a"), Ok(None));
    assert_eq!(db.put("sha_to_orig", b"sha-a", b"a.txt"), Ok(()));
    assert_eq!(db.get("sha_to_orig", b"sha-a"), Ok(Some(b"a.txt".to_vec())));
    assert_eq!(db.get("orig_to_sha", b"sha-a"), Ok(None));
    assert_eq!(db.get("sha_to_orig", b"sha-b"), Ok(None));
    assert_eq!(db.put("sha_to_orig", b"sha-a", &[0xff]), Ok(()));
    assert_eq!(db.get("sha_to_orig", b"sha-a"), Ok(Some(vec![0xff])));
    assert_eq!(try_get_orig_for_sha(&db, b"sha-a"), Err(UploadError::NotFound));
    assert_eq!(db.put("sha_to_orig", b"", b""), Ok(()));
    assert_eq!(db.get("sha_to_orig", b""), Ok(Some(Vec::new())));
}

#[test]
fn answers_of_the_engine_to_reads_and_writes_are_handed_on() {
    assert_eq!(fetched(Ok(None)), Ok(None));
    assert_eq!(fetched(Ok(Some(vec![1, 2, 3]))), Ok(Some(vec![1, 2, 3])));
    assert_eq!(fetched(Err(broken())), Err(UploadError::StoreUnavailable));
    assert_eq!(written(Ok(())), Ok(()));
    assert_eq!(written(Err(broken())), Err(UploadError::StoreUnavailable));
    assert_eq!(
        written(Err(sled::Error::ReportableBug("broken".to_string()))),
        Err(UploadError::StoreUnavailable)
    );
}

fn broken() -> sled::Error {
    sled::Error::Unsupported("broken".to_string())
}

#[test]
fn entries_are_read_with_the_answer_to_their_lookup() {
    let upload = listed_entry(b"abc", b"sha-a", Ok(Some(b"a.txt".to_vec()))).unwrap().unwrap();
    assert_eq!(upload.id, "abc");
    assert_eq!(upload.checksum, "sha-a");
    assert_eq!(upload.orig_name, Some("a.txt".to_string()));

    let upload = listed_entry(b"abc", b"sha-a", Ok(None)).unwrap().unwrap();
    assert_eq!(upload.id, "abc");
    assert_eq!(upload.checksum, "sha-a");
    assert_eq!(upload.orig_name, None);

    assert!(matches!(listed_entry(&[0xff], b"sha-a", Ok(None)), Ok(None)));
    assert!(matches!(listed_entry(b"abc", &[0xc3, 0x28], Ok(Some(b"a.txt".to_vec()))), Ok(None)));
    assert!(matches!(listed_entry(b"abc", b"sha-a", Ok(Some(vec![0x80]))), Ok(None)));
    assert!(matches!(listed_entry(b"abc", b"sha-a", Err(broken())), Err(UploadError::StoreUnavailable)));
    assert!(matches!(listed_entry(&[0xff], &[0xff], Err(broken())), Err(UploadError::StoreUnavailable)));
}

#[test]
fn scan_reports_the_entries_that_it_leaves_out() {
    let mut db = fresh_db();
    try_bind_shortid(&mut db, "sha-1", &strings(&["bbb"])).unwrap();
    try_bind_shortid(&mut db, "sha-2", &strings(&["ccc"])).unwrap();
    try_add_sha_orig(&mut db, "sha-1", "one.txt").unwrap();
    db.put("sha_to_orig", b"sha-2", &[0xff]).unwrap();
    db.put("id_to_sha", &[0xff, 0x30], b"sha-3").unwrap();
    db.put("id_to_sha", b"Abc", &[0xfe]).unwrap();

    let scan = scan_ids_and_names(&db).unwrap();
    assert_eq!(scan.uploads.len(), 1);
    assert_eq!(scan.uploads[0].id, "bbb");
    assert_eq!(scan.uploads[0].checksum, "sha-1");
    assert_eq!(scan.uploads[0].orig_name, Some("one.txt".to_string()));
    assert_eq!(scan.skipped, vec![b"Abc".to_vec(), b"ccc".to_vec(), vec![0xff, 0x30]]);

    let empty = scan_ids_and_names(&fresh_db()).unwrap();
    assert_eq!(empty.uploads.len(), 0);
    assert_eq!(empty.skipped.len(), 0);
}

#[test]
fn stored_identifier_is_read_inside_a_transaction() {
    assert!(matches!(existing_identifier(Ok(None)), Ok(None)));
    assert!(matches!(existing_identifier(Ok(Some(b"aB3".to_vec()))), Ok(Some(id)) if id == "aB3"));
    assert!(matches!(
        existing_identifier(Ok(Some(vec![0xff, 0xfe]))),
        Err(ConflictableTransactionError::Abort(UploadError::EncodingError))
    ));
    assert!(matches!(
        existing_identifier(Err(UnabortableTransactionError::Conflict)),
        Err(ConflictableTransactionError::Conflict)
    ));
    assert!(matches!(
        existing_identifier(Err(UnabortableTransactionError::Storage(broken()))),
        Err(ConflictableTransactionError::Storage(cause)) if cause == broken()
    ));
}

#[test]
fn candidate_is_free_when_nothing_is_found() {
    assert!(matches!(candidate_is_free(Ok(None)), Ok(true)));
    assert!(matches!(candidate_is_free(Ok(Some(b"sha-a".to_vec()))), Ok(false)));
    assert!(matches!(candidate_is_free(Ok(Some(Vec::new()))), Ok(false)));
    assert!(matches!(
        candidate_is_free(Err(UnabortableTransactionError::Conflict)),
        Err(ConflictableTransactionError::Conflict)
    ));
    assert!(matches!(
        candidate_is_free(Err(UnabortableTransactionError::Storage(broken()))),
        Err(ConflictableTransactionError::Storage(cause)) if cause == broken()
    ));
}

#[test]
fn failed_reads_fail_the_body_as_they_failed() {
    assert!(matches!(raised(UnabortableTransactionError::Conflict), ConflictableTransactionError::Conflict));
    assert!(matches!(
        raised(UnabortableTransactionError::Storage(broken())),
        ConflictableTransactionError::Storage(cause) if cause == broken()
    ));
}

#[test]
fn filename_mappings_are_untouched_by_an_allocation() {
    let mut db = fresh_db();
    try_add_sha_orig(&mut db, "sha-a", "a.txt").unwrap();
    try_get_new_shortid(&mut db, "sha-a").unwrap();
    try_get_new_shortid(&mut db, "sha-b").unwrap();
    assert_eq!(try_bind_shortid(&mut db, "sha-c", &Vec::new()), Err(UploadError::AllocationExhausted));
    assert_eq!(try_get_sha_for_orig(&db, b"a.txt"), Ok("sha-a".to_string()));
    assert_eq!(try_get_orig_for_sha(&db, b"sha-a"), Ok("a.txt".to_string()));
    assert_eq!(try_get_orig_for_sha(&db, b"sha-b"), Err(UploadError::NotFound));
    assert_eq!(try_get_orig_for_sha(&db, b"sha-c"), Err(UploadError::NotFound));
    assert_eq!(held(&db, "sha_to_id", b"sha-c"), None);
    assert_eq!(get_all_ids_and_names(&db).unwrap().len(), 2);
}

#[test]
fn answers_of_the_engine_on_opening_are_handed_on() {
    let handle = sled::Config::new().temporary(true).open().unwrap();
    handle.open_tree("id_to_sha").unwrap().insert("abc", "sha-a").unwrap();
    let db = Store::opened(Ok(handle)).unwrap();
    assert_eq!(held(&db, "id_to_sha", b"abc"), Some(b"sha-a".to_vec()));
    assert!(matches!(Store::opened(Err(broken())), Err(UploadError::StoreUnavailable)));
    assert!(matches!(
        Store::opened(Err(sled::Error::ReportableBug("broken".to_string()))),
        Err(UploadError::StoreUnavailable)
    ));
    assert!(matches!(Store::open("/dev/null/no/store/here"), Err(UploadError::StoreUnavailable)));
}
