use pagination::{
    ceil_div, cursor_connection, cursor_start, decode, encode, offset_connection,
    offset_page_index, page_connection, page_fetch_index, resolve, unpaged_connection,
    Connection, ConnectionMeta, KeyTuple, MemoryStore, PaginationError, PaginationSpec,
};

fn ids(range: std::ops::RangeInclusive<u64>) -> Vec<KeyTuple> {
    range.map(KeyTuple::One).collect()
}

fn store_of(range: std::ops::RangeInclusive<u64>) -> MemoryStore {
    MemoryStore::from_keys(1, ids(range)).expect("sorted keys")
}

fn edges(c: &Connection<KeyTuple>) -> Vec<u64> {
    c.edges
        .iter()
        .map(|k| match k {
            KeyTuple::One(a) => *a,
            _ => panic!("unexpected arity"),
        })
        .collect()
}

#[test]
fn page_mode_second_page_of_ten() {
    let store = store_of(1..=10);
    let c = resolve(&store, &Some(PaginationSpec::Pages { page: 2, limit: 3 })).unwrap();
    assert_eq!(edges(&c), vec![4, 5, 6]);
    let m = c.page_info;
    assert_eq!(m.pages, Some(4));
    assert_eq!(m.current_page, Some(2));
    assert!(m.has_previous_page);
    assert!(m.has_next_page);
    assert_eq!(m.offset, Some(6));
    assert_eq!(m.limit, Some(3));
    assert_eq!(m.total_count, Some(10));
}

#[test]
fn page_mode_first_and_last_pages() {
    let store = store_of(1..=10);
    let first = resolve(&store, &Some(PaginationSpec::Pages { page: 1, limit: 3 })).unwrap();
    assert_eq!(edges(&first), vec![1, 2, 3]);
    assert!(!first.page_info.has_previous_page);
    assert!(first.page_info.has_next_page);
    let last = resolve(&store, &Some(PaginationSpec::Pages { page: 4, limit: 3 })).unwrap();
    assert_eq!(edges(&last), vec![10]);
    assert!(last.page_info.has_previous_page);
    assert!(!last.page_info.has_next_page);
    assert_eq!(last.page_info.offset, Some(12));
}

#[test]
fn page_mode_past_the_end_is_empty() {
    let store = store_of(1..=10);
    let c = resolve(&store, &Some(PaginationSpec::Pages { page: 5, limit: 3 })).unwrap();
    assert!(c.edges.is_empty());
    assert!(!c.page_info.has_next_page);
    assert!(c.page_info.has_previous_page);
}

#[test]
fn offset_mode_skip_five_take_three() {
    let store = store_of(1..=10);
    let c = resolve(&store, &Some(PaginationSpec::Offset { skip: 5, take: 3 })).unwrap();
    assert_eq!(edges(&c), vec![4, 5, 6]);
    let m = c.page_info;
    assert_eq!(m.current_page, Some(1));
    assert_eq!(m.pages, Some(4));
    assert!(m.has_previous_page);
    assert!(m.has_next_page);
    assert_eq!(m.offset, Some(5));
    assert_eq!(m.limit, Some(3));
    assert_eq!(m.total_count, Some(10));
}

#[test]
fn offset_mode_next_flag_ignores_skip() {
    let store = store_of(1..=10);
    let c = resolve(&store, &Some(PaginationSpec::Offset { skip: 9, take: 3 })).unwrap();
    assert_eq!(edges(&c), vec![10]);
    assert!(c.page_info.has_next_page);
    let whole = resolve(&store, &Some(PaginationSpec::Offset { skip: 0, take: 10 })).unwrap();
    assert!(!whole.page_info.has_previous_page);
    assert!(!whole.page_info.has_next_page);
}

#[test]
fn cursor_mode_first_page() {
    let store = store_of(1..=5);
    let c = resolve(&store, &Some(PaginationSpec::Cursor { cursor: None, limit: 2 })).unwrap();
    assert_eq!(edges(&c), vec![1, 2]);
    assert!(c.page_info.has_next_page);
    assert!(!c.page_info.has_previous_page);
    assert_eq!(c.page_info.pages, None);
    assert_eq!(c.page_info.total_count, None);
    assert_eq!(store.after(&KeyTuple::One(2), 2), ids(3..=4));
    assert!(store.before(&KeyTuple::One(1), 2).is_empty());
}

#[test]
fn cursor_mode_last_page() {
    let store = store_of(1..=5);
    let token = encode(&KeyTuple::One(4));
    let c = resolve(&store, &Some(PaginationSpec::Cursor { cursor: Some(token), limit: 2 }))
        .unwrap();
    assert_eq!(edges(&c), vec![5]);
    assert!(!c.page_info.has_next_page);
    assert!(c.page_info.has_previous_page);
    assert!(store.after(&KeyTuple::One(5), 2).is_empty());
    assert_eq!(store.before(&KeyTuple::One(5), 2), ids(1..=2));
}

#[test]
fn cursor_walk_visits_every_key_once() {
    let store = store_of(1..=7);
    let mut seen = Vec::new();
    let mut cursor = None;
    for _ in 0..10 {
        let c = resolve(&store, &Some(PaginationSpec::Cursor { cursor: cursor.clone(), limit: 3 }))
            .unwrap();
        if c.edges.is_empty() {
            break;
        }
        seen.extend(edges(&c));
        cursor = Some(encode(c.edges.last().unwrap()));
        if !c.page_info.has_next_page {
            break;
        }
    }
    assert_eq!(seen, (1..=7).collect::<Vec<u64>>());
}

#[test]
fn cursor_walk_over_composite_keys() {
    let keys = vec![
        KeyTuple::Two(1, 1),
        KeyTuple::Two(1, 5),
        KeyTuple::Two(2, 0),
        KeyTuple::Two(3, 9),
    ];
    let store = MemoryStore::from_keys(2, keys.clone()).unwrap();
    let first = resolve(&store, &Some(PaginationSpec::Cursor { cursor: None, limit: 3 })).unwrap();
    assert_eq!(first.edges, keys[0..3].to_vec());
    let token = encode(&KeyTuple::Two(2, 0));
    let rest = resolve(&store, &Some(PaginationSpec::Cursor { cursor: Some(token), limit: 3 }))
        .unwrap();
    assert_eq!(rest.edges, vec![KeyTuple::Two(3, 9)]);
    assert!(rest.page_info.has_previous_page);
    assert!(!rest.page_info.has_next_page);
}

#[test]
fn empty_collection_in_every_mode() {
    let store = MemoryStore::from_keys(1, Vec::new()).unwrap();
    let requests = vec![
        None,
        Some(PaginationSpec::Pages { page: 1, limit: 3 }),
        Some(PaginationSpec::Offset { skip: 0, take: 3 }),
        Some(PaginationSpec::Cursor { cursor: None, limit: 3 }),
        Some(PaginationSpec::Cursor { cursor: Some(encode(&KeyTuple::One(7))), limit: 3 }),
    ];
    for request in requests {
        let c = resolve(&store, &request).unwrap();
        assert!(c.edges.is_empty());
        assert!(!c.page_info.has_previous_page);
        assert!(!c.page_info.has_next_page);
    }
    let paged = resolve(&store, &Some(PaginationSpec::Pages { page: 1, limit: 3 })).unwrap();
    assert_eq!(paged.page_info.pages, Some(0));
    assert_eq!(paged.page_info.total_count, Some(0));
}

#[test]
fn four_column_key_is_unsupported_under_cursor_mode() {
    let store = MemoryStore::from_keys(4, Vec::new()).unwrap();
    let r = resolve(&store, &Some(PaginationSpec::Cursor { cursor: None, limit: 2 }));
    assert!(matches!(r, Err(PaginationError::UnsupportedKeyArity)));
    let none = MemoryStore::from_keys(0, Vec::new()).unwrap();
    let r = resolve(&none, &Some(PaginationSpec::Cursor { cursor: None, limit: 2 }));
    assert!(matches!(r, Err(PaginationError::UnsupportedKeyArity)));
    assert_eq!(cursor_start(&None, 4), Err(PaginationError::UnsupportedKeyArity));
    let paged = resolve(&store, &Some(PaginationSpec::Pages { page: 1, limit: 2 })).unwrap();
    assert!(paged.edges.is_empty());
}

#[test]
fn unpaged_request_returns_everything() {
    let store = store_of(1..=10);
    let c = resolve(&store, &None).unwrap();
    assert_eq!(edges(&c), (1..=10).collect::<Vec<u64>>());
    let m = c.page_info;
    assert!(!m.has_previous_page && !m.has_next_page);
    assert_eq!(m.pages, Some(1));
    assert_eq!(m.current_page, Some(1));
    assert_eq!(m.offset, Some(0));
    assert_eq!(m.limit, Some(10));
    assert_eq!(m.total_count, Some(10));
}

#[test]
fn cursor_round_trip_for_each_arity() {
    let keys = vec![
        KeyTuple::One(0),
        KeyTuple::One(u64::MAX),
        KeyTuple::Two(1, 2),
        KeyTuple::Two(u64::MAX, 0),
        KeyTuple::Three(3, 0x0123_4567_89ab_cdef, 5),
    ];
    for k in keys {
        assert_eq!(decode(&encode(&k)), Ok(k));
    }
}

#[test]
fn cursor_token_form() {
    assert_eq!(encode(&KeyTuple::One(255)), "00000000000000ff");
    assert_eq!(
        encode(&KeyTuple::Two(1, 16)),
        "00000000000000010000000000000010"
    );
    assert_eq!(decode("000000000000000a"), Ok(KeyTuple::One(10)));
}

#[test]
fn malformed_tokens_are_decode_errors() {
    let bad = [
        "",
        "xyz",
        "00000000000000f",
        "00000000000000FF",
        "00000000000000fg",
        "0000000000000000000000000000000000000000000000000000000000000000",
    ];
    for token in bad {
        assert_eq!(decode(token), Err(PaginationError::CursorDecodeError));
    }
    let store = store_of(1..=3);
    let r = resolve(
        &store,
        &Some(PaginationSpec::Cursor { cursor: Some("not a cursor".to_string()), limit: 2 }),
    );
    assert!(matches!(r, Err(PaginationError::CursorDecodeError)));
}

#[test]
fn token_of_another_arity_is_a_decode_error() {
    let token = encode(&KeyTuple::Two(1, 2));
    assert_eq!(cursor_start(&Some(token.clone()), 1), Err(PaginationError::CursorDecodeError));
    assert_eq!(cursor_start(&Some(token), 2), Ok(Some(KeyTuple::Two(1, 2))));
    assert_eq!(cursor_start(&None, 3), Ok(None));
}

#[test]
fn ceil_div_values() {
    assert_eq!(ceil_div(10, 3), 4);
    assert_eq!(ceil_div(9, 3), 3);
    assert_eq!(ceil_div(0, 5), 0);
    assert_eq!(ceil_div(1, 5), 1);
    assert_eq!(ceil_div(u64::MAX, 1), u64::MAX);
    assert_eq!(ceil_div(u64::MAX, 2), u64::MAX / 2 + 1);
}

#[test]
fn page_and_offset_indices() {
    assert_eq!(page_fetch_index(1), 0);
    assert_eq!(page_fetch_index(4), 3);
    assert_eq!(offset_page_index(5, 3), 1);
    assert_eq!(offset_page_index(2, 3), 0);
    assert_eq!(offset_page_index(9, 3), 3);
}

#[test]
fn page_flags_follow_page_count() {
    let c = page_connection(3, 5, vec![1u8, 2], 12);
    assert_eq!(c.edges, vec![1u8, 2]);
    assert_eq!(c.page_info.pages, Some(3));
    assert!(c.page_info.has_previous_page);
    assert!(!c.page_info.has_next_page);
    assert_eq!(c.page_info.offset, Some(15));
    let c = page_connection(1, 5, Vec::<u8>::new(), 0);
    assert!(!c.page_info.has_previous_page);
    assert!(!c.page_info.has_next_page);
    assert_eq!(c.page_info.pages, Some(0));
}

#[test]
fn offset_connection_metadata() {
    let c = offset_connection(7, 4, vec!['a'], 13);
    assert_eq!(c.page_info.current_page, Some(1));
    assert_eq!(c.page_info.pages, Some(4));
    assert_eq!(c.page_info.offset, Some(7));
    assert!(c.page_info.has_previous_page);
    assert!(c.page_info.has_next_page);
    let c = offset_connection(0, 20, vec!['a'], 13);
    assert!(!c.page_info.has_previous_page);
    assert!(!c.page_info.has_next_page);
}

#[test]
fn cursor_connection_flags() {
    let c = cursor_connection(vec![1u32], 0, 3);
    assert!(c.page_info.has_previous_page);
    assert!(!c.page_info.has_next_page);
    assert_eq!(c.page_info.offset, None);
    let u = unpaged_connection(vec![1u32, 2, 3]);
    assert_eq!(u.page_info.limit, Some(3));
}

#[test]
fn metadata_builders() {
    let m = ConnectionMeta::empty()
        .connection_info(true, false)
        .page_info(4, 2)
        .offset_info(6, 3, 10);
    assert!(m.has_previous_page && !m.has_next_page);
    assert_eq!((m.pages, m.current_page), (Some(4), Some(2)));
    assert_eq!((m.offset, m.limit, m.total_count), (Some(6), Some(3), Some(10)));
}

#[test]
fn key_tuples_from_values() {
    assert_eq!(KeyTuple::from_values(&vec![7]), Ok(KeyTuple::One(7)));
    assert_eq!(KeyTuple::from_values(&vec![1, 2, 3]), Ok(KeyTuple::Three(1, 2, 3)));
    assert_eq!(KeyTuple::from_values(&vec![]), Err(PaginationError::UnsupportedKeyArity));
    assert_eq!(
        KeyTuple::from_values(&vec![1, 2, 3, 4]),
        Err(PaginationError::UnsupportedKeyArity)
    );
    assert!(KeyTuple::One(1).less_than(&KeyTuple::One(2)));
    assert!(KeyTuple::Two(1, 9).less_than(&KeyTuple::Two(2, 0)));
    assert!(!KeyTuple::Two(2, 0).less_than(&KeyTuple::Two(2, 0)));
    assert_eq!(KeyTuple::Three(1, 1, 1).arity(), 3);
}

#[test]
fn store_rejects_unordered_or_mixed_keys() {
    assert!(MemoryStore::from_keys(1, vec![KeyTuple::One(2), KeyTuple::One(1)]).is_none());
    assert!(MemoryStore::from_keys(1, vec![KeyTuple::One(1), KeyTuple::One(1)]).is_none());
    assert!(MemoryStore::from_keys(1, vec![KeyTuple::One(1), KeyTuple::Two(1, 2)]).is_none());
    let store = store_of(1..=10);
    assert_eq!(store.count(), 10);
    assert_eq!(store.fetch_page(3, 3), ids(10..=10));
    assert_eq!(store.fetch_page(4, 3), Vec::new());
    assert_eq!(store.first(2), ids(1..=2));
}
