use sleigh::codec::decode_cursor;
use sleigh::service::{create, delete, get_by_id, list, reset, update, ServiceError};
use sleigh::store::QuoteStore;

fn seeded_store(n: u64) -> QuoteStore {
    let mut store = QuoteStore::new();
    for k in 0..n {
        let created = create(
            &mut store,
            k as u128 + 1,
            1_000 + k,
            format!("author-{}", k),
            format!("text-{}", k),
        );
        assert!(created.is_some());
    }
    store
}

#[test]
fn empty_store_lists_empty_first_page() {
    let store = QuoteStore::new();
    let page = list(&store, None).unwrap();
    assert!(page.quotes.is_empty());
    assert_eq!(page.page, 1);
    assert!(page.next_token.is_none());
}

#[test]
fn create_then_get_round_trip() {
    let mut store = QuoteStore::new();
    let q = create(
        &mut store,
        77,
        1_734_000_000_000,
        "Tolkien".to_string(),
        "Not all those who wander are lost".to_string(),
    )
    .unwrap();
    assert_eq!(q.id, 77);
    assert_eq!(q.version, 1);
    assert_eq!(q.author, "Tolkien");
    assert_eq!(q.text, "Not all those who wander are lost");
    let fetched = get_by_id(&store, 77).unwrap();
    assert_eq!(fetched.id, q.id);
    assert_eq!(fetched.author, q.author);
    assert_eq!(fetched.text, q.text);
    assert_eq!(fetched.created_at, q.created_at);
    assert_eq!(fetched.version, q.version);
}

#[test]
fn duplicate_id_is_refused() {
    let mut store = QuoteStore::new();
    assert!(create(&mut store, 5, 10, "a".to_string(), "b".to_string()).is_some());
    assert!(create(&mut store, 5, 11, "c".to_string(), "d".to_string()).is_none());
    assert_eq!(store.len(), 1);
}

#[test]
fn four_quotes_page_one_and_cursor() {
    let store = seeded_store(4);
    let page = list(&store, None).unwrap();
    assert_eq!(page.page, 1);
    assert_eq!(page.quotes.len(), 3);
    assert_eq!(page.quotes[0].id, 1);
    assert_eq!(page.quotes[1].id, 2);
    assert_eq!(page.quotes[2].id, 3);
    let token = page.next_token.expect("a fourth quote remained");
    // The cursor names page 2 and the fourth quote's creation time.
    assert_eq!(decode_cursor(&token), Some((2, 1_003)));
}

#[test]
fn fewer_than_four_quotes_mean_no_cursor() {
    let store = seeded_store(3);
    let page = list(&store, None).unwrap();
    assert_eq!(page.quotes.len(), 3);
    assert!(page.next_token.is_none());
}

#[test]
fn listing_twice_is_identical() {
    let store = seeded_store(7);
    let a = list(&store, None).unwrap();
    let b = list(&store, None).unwrap();
    assert_eq!(a.page, b.page);
    assert_eq!(a.next_token, b.next_token);
    assert_eq!(a.quotes.len(), b.quotes.len());
    for (x, y) in a.quotes.iter().zip(b.quotes.iter()) {
        assert_eq!(x.id, y.id);
        assert_eq!(x.version, y.version);
    }
}

#[test]
fn pagination_visits_every_quote_once_in_order() {
    let store = seeded_store(10);
    let mut seen: Vec<u128> = Vec::new();
    let mut cursor: Option<String> = None;
    let mut expected_page: u64 = 1;
    loop {
        let page = list(&store, cursor.as_deref()).unwrap();
        assert_eq!(page.page, expected_page);
        for q in &page.quotes {
            seen.push(q.id);
        }
        match page.next_token {
            Some(t) => {
                cursor = Some(t);
                expected_page += 1;
            }
            None => break,
        }
    }
    assert_eq!(seen, (1..=10).collect::<Vec<u128>>());
    assert_eq!(expected_page, 4);
}

#[test]
fn versions_grow_by_one_and_created_at_stays() {
    let mut store = QuoteStore::new();
    let q = create(&mut store, 9, 555, "a".to_string(), "b".to_string()).unwrap();
    assert_eq!(q.version, 1);
    let q2 = update(&mut store, 9, "a2".to_string(), "b2".to_string()).unwrap();
    assert_eq!(q2.version, 2);
    assert_eq!(q2.created_at, 555);
    assert_eq!(q2.author, "a2");
    assert_eq!(q2.text, "b2");
    let q3 = update(&mut store, 9, "a3".to_string(), "b3".to_string()).unwrap();
    assert_eq!(q3.version, 3);
    assert_eq!(q3.created_at, 555);
}

#[test]
fn unknown_ids_are_not_found() {
    let mut store = seeded_store(2);
    assert_eq!(delete(&mut store, 999).unwrap_err(), ServiceError::NotFound);
    assert_eq!(
        update(&mut store, 999, "x".to_string(), "y".to_string()).unwrap_err(),
        ServiceError::NotFound
    );
    assert_eq!(get_by_id(&store, 999).unwrap_err(), ServiceError::NotFound);
    assert_eq!(store.len(), 2);
}

#[test]
fn delete_returns_the_removed_record() {
    let mut store = seeded_store(3);
    let q = delete(&mut store, 2).unwrap();
    assert_eq!(q.id, 2);
    assert_eq!(store.len(), 2);
    assert_eq!(get_by_id(&store, 2).unwrap_err(), ServiceError::NotFound);
}

#[test]
fn malformed_cursor_is_a_validation_error() {
    let store = seeded_store(4);
    let all_zero = "0".repeat(16);
    assert_eq!(list(&store, Some(&all_zero)).unwrap_err(), ServiceError::Validation);
    assert_eq!(list(&store, Some("not a cursor")).unwrap_err(), ServiceError::Validation);
}

#[test]
fn reset_empties_the_store() {
    let mut store = seeded_store(6);
    reset(&mut store);
    assert_eq!(store.len(), 0);
    let page = list(&store, None).unwrap();
    assert!(page.quotes.is_empty());
}

#[test]
fn listing_resumes_at_the_cursor_watermark() {
    let store = seeded_store(5);
    let first = list(&store, None).unwrap();
    let token = first.next_token.unwrap();
    let second = list(&store, Some(&token)).unwrap();
    assert_eq!(second.page, 2);
    assert_eq!(second.quotes.len(), 2);
    assert_eq!(second.quotes[0].id, 4);
    assert_eq!(second.quotes[1].id, 5);
    assert!(second.next_token.is_none());
}
