use datafusion_wasm::delimiter::partition_listing;
use datafusion_wasm::error::{translate_error, translate_kind, BackendErrorKind, BackendFailure, StoreError};
use datafusion_wasm::eraser::ForceSend;
use datafusion_wasm::listing::{collect_listing, is_after, normalize_prefix, ListStep, ListedEntry, ListedItem, ListingCursor};
use datafusion_wasm::meta::{to_object_metadata, BackendMeta, EPOCH_MILLIS};
use datafusion_wasm::store::{delete_check, delete_result, head_result, offset_cursor, put_result, read_range, single_part, OpendalStore};
use opendal::services::Memory;
use opendal::{BlockingOperator, Metakey, Operator};

fn memory_operator() -> Operator {
    Operator::new(Memory::default()).unwrap().finish()
}

fn scenario_backend() -> BlockingOperator {
    let op = memory_operator().blocking();
    op.write("a/1", vec![1u8; 10]).unwrap();
    op.write("a/2", vec![2u8; 20]).unwrap();
    op.write("b/1", vec![3u8; 5]).unwrap();
    op
}

fn listed(op: &BlockingOperator, prefix: &str, recursive: bool) -> Vec<ListedItem> {
    let entries = op
        .list_with(prefix)
        .recursive(recursive)
        .metakey(Metakey::Mode | Metakey::ContentLength | Metakey::LastModified)
        .call()
        .unwrap();
    entries.iter().map(|e| Ok(ListedEntry::from_backend(e))).collect()
}

fn stat(op: &BlockingOperator, path: &str) -> Result<BackendMeta, BackendFailure> {
    op.stat(path)
        .map(|m| BackendMeta::from_backend(&m))
        .map_err(BackendFailure::from_error)
}

fn locations(items: &[Result<datafusion_wasm::meta::ObjectMeta, StoreError>]) -> Vec<String> {
    items
        .iter()
        .map(|r| r.as_ref().map(|m| m.location.clone()).unwrap())
        .collect()
}

fn file_meta(size: u64) -> BackendMeta {
    BackendMeta { content_length: size, last_modified: None, etag: None, version: None, is_dir: false }
}

fn entry(path: &str, is_dir: bool) -> ListedItem {
    let mut meta = file_meta(1);
    meta.is_dir = is_dir;
    Ok(ListedEntry { path: path.to_string(), meta })
}

fn backend_error(kind: opendal::ErrorKind) -> opendal::Error {
    opendal::Error::new(kind, "backend failure")
}

#[test]
fn absent_locator_is_not_found_for_head_and_get() {
    let op = scenario_backend();
    for path in ["missing", "a/3", "c/1"] {
        match head_result(path, stat(&op, path)) {
            Err(StoreError::NotFound { path: p, source }) => {
                assert_eq!(p, path);
                assert_eq!(source.kind(), opendal::ErrorKind::NotFound);
            }
            other => panic!("expected NotFound, got {:?}", other),
        }
    }
}

#[test]
fn list_scenario_in_backend_order() {
    let op = scenario_backend();
    let prefix = normalize_prefix(Some("a"));
    assert_eq!(prefix, "a/");
    let out = collect_listing(listed(&op, &prefix, true), None);
    assert_eq!(locations(&out), vec!["a/1".to_string(), "a/2".to_string()]);
    let sizes: Vec<u64> = out.iter().map(|r| r.as_ref().unwrap().size).collect();
    assert_eq!(sizes, vec![10, 20]);
}

#[test]
fn list_with_offset_scenario() {
    let op = scenario_backend();
    let (native, cursor) = offset_cursor(false, "a/1");
    assert!(!native);
    let out = collect_listing(listed(&op, "a/", true), cursor.after);
    assert_eq!(locations(&out), vec!["a/2".to_string()]);
}

#[test]
fn list_with_delimiter_scenario() {
    let op = scenario_backend();
    let res = partition_listing(listed(&op, &normalize_prefix(None), false)).unwrap();
    assert_eq!(res.common_prefixes, vec!["a/".to_string(), "b/".to_string()]);
    assert!(res.objects.is_empty());
}

#[test]
fn offset_strategies_give_the_same_listing() {
    let op = scenario_backend();
    for offset in ["", "a/1", "a/2", "b/", "b/1", "z"] {
        let full = listed(&op, "", true);
        let native_items: Vec<ListedItem> = listed(&op, "", true)
            .into_iter()
            .filter(|item| item.as_ref().unwrap().path.as_str() > offset)
            .collect();
        let native = collect_listing(native_items, None);
        let filtered = collect_listing(full, Some(offset.to_string()));
        assert_eq!(locations(&native), locations(&filtered), "offset {}", offset);
    }
}

#[test]
fn delimiter_listing_parts_every_entry_once() {
    let items = vec![entry("a/", true), entry("x", false), entry("b/", true), entry("y", false)];
    let res = partition_listing(items).unwrap();
    assert_eq!(res.common_prefixes, vec!["a/".to_string(), "b/".to_string()]);
    let objects: Vec<String> = res.objects.iter().map(|m| m.location.clone()).collect();
    assert_eq!(objects, vec!["x".to_string(), "y".to_string()]);
}

#[test]
fn delimiter_listing_fails_on_backend_error() {
    let items = vec![entry("x", false), Err(backend_error(opendal::ErrorKind::PermissionDenied)), entry("y", false)];
    match partition_listing(items) {
        Err(StoreError::Generic { kind, .. }) => assert_eq!(kind, BackendErrorKind::PermissionDenied),
        other => panic!("expected Generic, got {:?}", other),
    }
}

#[test]
fn put_then_get_round_trip() {
    let op = memory_operator().blocking();
    let payload = b"hello, object store".to_vec();
    let body = single_part(vec![payload.clone()]).unwrap();
    let put = put_result("dir/obj", op.write("dir/obj", body).map_err(BackendFailure::from_error)).unwrap();
    assert!(put.e_tag.is_none() && put.version.is_none());
    let meta = head_result("dir/obj", stat(&op, "dir/obj")).unwrap();
    assert_eq!(meta.size, payload.len() as u64);
    let (start, end) = read_range(&meta);
    let read = op.read_with("dir/obj").range(start..end).call().unwrap().to_vec();
    assert_eq!(read, payload);
}

#[test]
fn multi_part_payload_is_not_supported() {
    assert!(matches!(single_part(vec![vec![1], vec![2]]), Err(StoreError::NotSupported { .. })));
    assert_eq!(single_part(vec![]).unwrap(), Vec::<u8>::new());
    assert_eq!(single_part(vec![vec![7, 8]]).unwrap(), vec![7, 8]);
}

#[test]
fn copy_is_not_supported_whether_or_not_source_exists() {
    let op = memory_operator();
    op.blocking().write("present", vec![1u8]).unwrap();
    let store = OpendalStore::new(op);
    assert!(matches!(store.copy("present", "other"), Err(StoreError::NotSupported { .. })));
    assert!(matches!(store.copy("absent", "other"), Err(StoreError::NotSupported { .. })));
    assert!(matches!(store.rename("present", "other"), Err(StoreError::NotSupported { .. })));
    assert!(matches!(store.copy_if_not_exists("present", "other"), Err(StoreError::NotSupported { .. })));
    assert!(matches!(store.put_opts("present"), Err(StoreError::NotSupported { .. })));
    assert!(matches!(store.put_multipart_opts("present"), Err(StoreError::NotSupported { .. })));
    assert!(matches!(store.get_opts("present"), Err(StoreError::NotSupported { .. })));
}

#[test]
fn memory_backend_offset_plan() {
    let store = OpendalStore::new(memory_operator());
    let (native, cursor) = store.offset_listing("a/1");
    if native {
        assert!(cursor.after.is_none());
    } else {
        assert_eq!(cursor.after, Some("a/1".to_string()));
    }
    assert!(!cursor.done);
}

#[test]
fn deleting_absent_object_is_not_found() {
    let op = scenario_backend();
    match delete_check("nothing/here", stat(&op, "nothing/here")) {
        Err(StoreError::NotFound { path, .. }) => assert_eq!(path, "nothing/here"),
        other => panic!("expected NotFound, got {:?}", other),
    }
    assert!(delete_check("a/1", stat(&op, "a/1")).is_ok());
}

#[test]
fn adapter_refusals_carry_an_unsupported_cause() {
    let store = OpendalStore::new(memory_operator());
    match store.copy("a", "b") {
        Err(StoreError::NotSupported { source }) => {
            assert_eq!(source.kind(), opendal::ErrorKind::Unsupported);
            assert!(source.to_string().contains("copy is not implemented so far"));
        }
        other => panic!("{:?}", other),
    }
}

#[test]
fn metadata_without_requested_length_reads_zero() {
    let bare = opendal::Metadata::new(opendal::EntryMode::FILE);
    let m = BackendMeta::from_backend(&bare);
    assert_eq!(m.content_length, 0);
    assert!(!m.is_dir);
    let mut sized = opendal::Metadata::new(opendal::EntryMode::DIR);
    sized.set_content_length(12);
    let m = BackendMeta::from_backend(&sized);
    assert_eq!(m.content_length, 12);
    assert!(m.is_dir);
}

#[test]
fn delete_then_head_is_not_found() {
    let op = scenario_backend();
    delete_check("a/1", stat(&op, "a/1")).unwrap();
    delete_result("a/1", op.delete("a/1").map_err(BackendFailure::from_error)).unwrap();
    assert!(matches!(head_result("a/1", stat(&op, "a/1")), Err(StoreError::NotFound { .. })));
}

#[test]
fn error_kinds_translate() {
    match translate_error(backend_error(opendal::ErrorKind::NotFound), "p") {
        StoreError::NotFound { path, source } => {
            assert_eq!(path, "p");
            assert_eq!(source.kind(), opendal::ErrorKind::NotFound);
            assert!(source.to_string().contains("backend failure"));
        }
        other => panic!("{:?}", other),
    }
    match translate_error(backend_error(opendal::ErrorKind::Unsupported), "p") {
        StoreError::NotSupported { source } => assert_eq!(source.kind(), opendal::ErrorKind::Unsupported),
        other => panic!("{:?}", other),
    }
    match translate_error(backend_error(opendal::ErrorKind::AlreadyExists), "q") {
        StoreError::AlreadyExists { path, source } => {
            assert_eq!(path, "q");
            assert_eq!(source.kind(), opendal::ErrorKind::AlreadyExists);
        }
        other => panic!("{:?}", other),
    }
    match translate_error(backend_error(opendal::ErrorKind::RateLimited), "q") {
        StoreError::Generic { kind, source } => {
            assert_eq!(kind, BackendErrorKind::RateLimited);
            assert_eq!(source.kind(), opendal::ErrorKind::RateLimited);
        }
        other => panic!("{:?}", other),
    }
    let f = BackendFailure::from_error(backend_error(opendal::ErrorKind::ConfigInvalid));
    assert_eq!(f.kind, BackendErrorKind::ConfigInvalid);
    assert!(matches!(
        translate_kind(BackendErrorKind::IsADirectory, "d", backend_error(opendal::ErrorKind::IsADirectory)),
        StoreError::Generic { kind: BackendErrorKind::IsADirectory, .. }
    ));
}

#[test]
fn missing_modification_time_is_epoch() {
    let mut meta = file_meta(42);
    meta.etag = Some("tag".to_string());
    let m = to_object_metadata("k", &meta);
    assert_eq!(m.location, "k");
    assert_eq!(m.size, 42);
    assert_eq!(m.last_modified, EPOCH_MILLIS);
    assert_eq!(m.last_modified, 0);
    assert_eq!(m.e_tag, Some("tag".to_string()));
    assert_eq!(m.version, None);
    meta.last_modified = Some(1_700_000_000_000);
    assert_eq!(to_object_metadata("k", &meta).last_modified, 1_700_000_000_000);
}

#[test]
fn backend_metadata_is_read() {
    let op = scenario_backend();
    let m = stat(&op, "a/2").unwrap();
    assert_eq!(m.content_length, 20);
    assert!(!m.is_dir);
}

#[test]
fn cursor_stops_after_error() {
    let mut cursor = ListingCursor::unfiltered();
    assert!(matches!(cursor.step(Some(entry("x", false))), ListStep::Emit(Ok(_))));
    assert!(matches!(
        cursor.step(Some(Err(backend_error(opendal::ErrorKind::NotFound)))),
        ListStep::Emit(Err(StoreError::NotFound { .. }))
    ));
    assert!(cursor.done);
    assert!(matches!(cursor.step(Some(entry("y", false))), ListStep::Finished));
    assert!(matches!(cursor.step(None), ListStep::Finished));
}

#[test]
fn listing_ends_with_first_error() {
    let items = vec![entry("a", false), entry("b", false), Err(backend_error(opendal::ErrorKind::Unexpected)), entry("c", false)];
    let out = collect_listing(items, None);
    assert_eq!(out.len(), 3);
    assert!(out[0].is_ok() && out[1].is_ok());
    assert!(matches!(out[2], Err(StoreError::Generic { kind: BackendErrorKind::Unexpected, .. })));
}

#[test]
fn resuming_cursor_skips_up_to_offset() {
    let mut cursor = ListingCursor::resuming_after("m".to_string());
    assert!(matches!(cursor.step(Some(entry("a", false))), ListStep::Skip));
    assert!(matches!(cursor.step(Some(entry("m", false))), ListStep::Skip));
    assert!(matches!(cursor.step(Some(entry("ma", false))), ListStep::Emit(Ok(_))));
    assert!(matches!(cursor.step(None), ListStep::Finished));
}

#[test]
fn locator_order_is_byte_order() {
    assert!(is_after("a/2", "a/1"));
    assert!(!is_after("a/1", "a/1"));
    assert!(!is_after("a/1", "a/2"));
    assert!(is_after("a/10", "a/1"));
    assert!(!is_after("a", "a/1"));
    assert!(is_after("a", ""));
    assert!(!is_after("", ""));
    assert!(is_after("b", "a/zzz"));
    assert!(is_after("é", "z"));
}

#[test]
fn prefixes_end_with_separator() {
    assert_eq!(normalize_prefix(None), "");
    assert_eq!(normalize_prefix(Some("")), "");
    assert_eq!(normalize_prefix(Some("a")), "a/");
    assert_eq!(normalize_prefix(Some("a/b/")), "a/b/");
}

#[test]
fn offset_cursor_picks_strategy() {
    let (native, cursor) = offset_cursor(true, "k");
    assert!(native);
    assert!(cursor.after.is_none());
    let (native, cursor) = offset_cursor(false, "k");
    assert!(!native);
    assert_eq!(cursor.after, Some("k".to_string()));
}

#[test]
fn force_send_holds_value_unchanged() {
    let held = ForceSend::new(vec![1, 2, 3]);
    assert_eq!(held.item, vec![1, 2, 3]);
    assert_eq!(held.into_inner(), vec![1, 2, 3]);
}
