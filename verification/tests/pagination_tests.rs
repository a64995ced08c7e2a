use tumblr::cursor::{Cursor, NodeType};
use tumblr::errors::ApiError;
use tumblr::models::{UserCreateInput, UserRole};
use tumblr::store::Db;

fn db_with_users(n: u128) -> Db {
    let mut db = Db::new();
    for id in 1..=n {
        db.user_create(
            UserCreateInput {
                role: UserRole::USER,
            },
            id,
            1000 + id as i64,
        )
        .unwrap();
    }
    db
}

#[test]
fn first_page_of_dense_table_is_a_prefix_in_ascending_order() {
    let db = db_with_users(5);
    let conn = db.users(3, None).unwrap();
    assert_eq!(conn.edges.len(), 3);
    for (i, edge) in conn.edges.iter().enumerate() {
        assert_eq!(edge.node._rowid, i as i32 + 1);
        assert_eq!(edge.cursor._rowid, i as i32 + 1);
        assert_eq!(edge.cursor.ty, NodeType::User);
    }
    assert!(conn.page_info.has_next_page);
    assert!(!conn.page_info.has_previous_page);
}

#[test]
fn full_first_page_without_further_rows_has_no_next_page() {
    let db = db_with_users(3);
    let conn = db.users(3, None).unwrap();
    assert_eq!(conn.edges.len(), 3);
    assert!(!conn.page_info.has_next_page);
    assert!(!conn.page_info.has_previous_page);
}

#[test]
fn three_users_paged_two_at_a_time() {
    // Users A, B, C inserted in that order.
    let db = db_with_users(3);

    let page1 = db.users(2, None).unwrap();
    assert_eq!(page1.edges.len(), 2);
    assert_eq!(page1.edges[0].node.id, 1);
    assert_eq!(page1.edges[1].node.id, 2);
    assert!(page1.page_info.has_next_page);
    assert!(!page1.page_info.has_previous_page);

    let cursor_b = page1.edges[1].cursor;
    let page2 = db.users(2, Some(cursor_b)).unwrap();
    assert_eq!(page2.edges.len(), 1);
    assert_eq!(page2.edges[0].node.id, 3);
    assert!(!page2.page_info.has_next_page);
    assert!(page2.page_info.has_previous_page);
}

#[test]
fn has_previous_page_is_false_exactly_at_the_sentinel() {
    let db = db_with_users(3);
    let sentinel = Cursor {
        _rowid: 0,
        ty: NodeType::User,
    };
    let conn = db.users(2, Some(sentinel)).unwrap();
    assert!(!conn.page_info.has_previous_page);

    let after_first = Cursor {
        _rowid: 1,
        ty: NodeType::User,
    };
    let conn = db.users(2, Some(after_first)).unwrap();
    assert!(conn.page_info.has_previous_page);
    assert_eq!(conn.edges[0].node._rowid, 2);
}

#[test]
fn cursor_survives_the_wire_between_pages() {
    let db = db_with_users(3);
    let page1 = db.users(2, None).unwrap();
    let wire = page1.edges[1].cursor.encode();
    let decoded = Cursor::decode(&wire).unwrap();
    let page2 = db.users(2, Some(decoded)).unwrap();
    assert_eq!(page2.edges.len(), 1);
    assert_eq!(page2.edges[0].node.id, 3);
}

#[test]
fn non_positive_counts_are_rejected() {
    let db = db_with_users(3);
    assert_eq!(db.users(0, None).unwrap_err(), ApiError::InvalidCount);
    assert_eq!(db.users(-5, None).unwrap_err(), ApiError::InvalidCount);
}

#[test]
fn excessive_counts_are_rejected_and_the_bound_is_tight() {
    let db = db_with_users(3);
    assert_eq!(db.users(101, None).unwrap_err(), ApiError::InvalidCount);
    assert_eq!(
        db.users(i64::MAX, None).unwrap_err(),
        ApiError::InvalidCount
    );
    let conn = db.users(100, None).unwrap();
    assert_eq!(conn.edges.len(), 3);
}

#[test]
fn pagination_skips_rows_at_or_before_the_cursor() {
    let db = db_with_users(10);
    let after = Cursor {
        _rowid: 7,
        ty: NodeType::User,
    };
    let conn = db.users(5, Some(after)).unwrap();
    assert_eq!(conn.edges.len(), 3);
    assert_eq!(conn.edges[0].node._rowid, 8);
    assert_eq!(conn.edges[1].node._rowid, 9);
    assert_eq!(conn.edges[2].node._rowid, 10);
    assert!(!conn.page_info.has_next_page);
    assert!(conn.page_info.has_previous_page);
}
