use transarch::blob::{blob_file, BlobStore};

#[test]
fn identifiers_start_at_zero_and_count_up() {
    let mut store = BlobStore::new();
    let mut ids = Vec::new();
    for _ in 0..5 {
        ids.push(store.allocate().unwrap());
    }
    assert_eq!(ids, vec![0, 1, 2, 3, 4]);
}

#[test]
fn rounds_continue_where_the_last_one_ended() {
    let mut store = BlobStore::new();
    assert_eq!(store.reserve(3), Some(0));
    assert_eq!(store.allocate(), Some(3));
    assert_eq!(store.reserve(0), Some(4));
    assert_eq!(store.reserve(2), Some(4));
    assert_eq!(store.allocate(), Some(6));
}

#[test]
fn a_new_store_starts_over() {
    let mut first = BlobStore::new();
    assert_eq!(first.allocate(), Some(0));
    assert_eq!(first.allocate(), Some(1));
    let mut second = BlobStore::new();
    assert_eq!(second.allocate(), Some(0));
}

#[test]
fn an_exhausted_store_hands_out_nothing() {
    let mut store = BlobStore::new();
    assert_eq!(store.reserve(usize::MAX), Some(0));
    assert_eq!(store.allocate(), None);
    assert_eq!(store.reserve(1), None);
    assert_eq!(store.reserve(0), Some(usize::MAX));
}

#[test]
fn a_reservation_that_does_not_fit_changes_nothing() {
    let mut store = BlobStore::new();
    assert_eq!(store.allocate(), Some(0));
    assert_eq!(store.reserve(usize::MAX), None);
    assert_eq!(store.allocate(), Some(1));
}

#[test]
fn blob_lies_beside_the_output_directory() {
    assert_eq!(blob_file("/s/target/t/debug", 0), "/s/target/t/debug/../blob0");
    assert_eq!(blob_file("/s/target/t/debug", 12), "/s/target/t/debug/../blob12");
    assert_eq!(blob_file("out/", 7), "out/../blob7");
    assert_eq!(blob_file("", 7), "../blob7");
}
