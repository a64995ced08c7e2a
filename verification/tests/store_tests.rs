use tumblr::cursor::NodeType;
use tumblr::errors::ApiError;
use tumblr::models::{
    BlogCreateInput, EmailAccountCreateInput, OAuthAccountCreateInput, OAuthAccountProvider,
    PostCreateInput, UserCreateInput, UserRole,
};
use tumblr::store::Db;

fn seeded() -> Db {
    let mut db = Db::new();
    db.user_create(
        UserCreateInput {
            role: UserRole::ADMIN,
        },
        11,
        100,
    )
    .unwrap();
    db.user_create(
        UserCreateInput {
            role: UserRole::USER,
        },
        12,
        101,
    )
    .unwrap();
    db.blog_create(
        BlogCreateInput {
            slug: "alpha".to_string(),
            title: "Alpha".to_string(),
            user_id: 11,
        },
        21,
        102,
    )
    .unwrap();
    db.blog_create(
        BlogCreateInput {
            slug: "beta".to_string(),
            title: "Beta".to_string(),
            user_id: 11,
        },
        22,
        103,
    )
    .unwrap();
    db.blog_create(
        BlogCreateInput {
            slug: "gamma".to_string(),
            title: "Gamma".to_string(),
            user_id: 12,
        },
        23,
        104,
    )
    .unwrap();
    db.post_create(
        PostCreateInput {
            blog_id: 21,
            slug: "one".to_string(),
        },
        31,
        105,
    )
    .unwrap();
    db.post_create(
        PostCreateInput {
            blog_id: 23,
            slug: "two".to_string(),
        },
        32,
        106,
    )
    .unwrap();
    db.post_create(
        PostCreateInput {
            blog_id: 21,
            slug: "three".to_string(),
        },
        33,
        107,
    )
    .unwrap();
    db
}

#[test]
fn blog_with_unknown_owner_is_a_constraint_violation() {
    let mut db = Db::new();
    let err = db
        .blog_create(
            BlogCreateInput {
                slug: "orphan".to_string(),
                title: "Orphan".to_string(),
                user_id: 999,
            },
            21,
            100,
        )
        .unwrap_err();
    assert_eq!(err, ApiError::ConstraintViolation);
    assert!(db.blogs.is_empty());
}

#[test]
fn duplicate_identifier_is_a_constraint_violation() {
    let mut db = Db::new();
    db.user_create(
        UserCreateInput {
            role: UserRole::USER,
        },
        11,
        100,
    )
    .unwrap();
    let err = db
        .user_create(
            UserCreateInput {
                role: UserRole::ADMIN,
            },
            11,
            101,
        )
        .unwrap_err();
    assert_eq!(err, ApiError::ConstraintViolation);
    assert_eq!(db.users.len(), 1);
}

#[test]
fn post_with_unknown_blog_is_a_constraint_violation() {
    let mut db = seeded();
    let err = db
        .post_create(
            PostCreateInput {
                blog_id: 999,
                slug: "nowhere".to_string(),
            },
            34,
            108,
        )
        .unwrap_err();
    assert_eq!(err, ApiError::ConstraintViolation);
}

#[test]
fn created_rows_carry_dense_ordering_keys_and_timestamps() {
    let db = seeded();
    assert_eq!(db.users[0]._rowid, 1);
    assert_eq!(db.users[1]._rowid, 2);
    assert_eq!(db.blogs[2]._rowid, 3);
    assert_eq!(db.posts[0].created_at, 105);
    assert_eq!(db.posts[0].updated_at, 105);
    assert_eq!(db.posts[0].deleted_at, None);
}

#[test]
fn single_entity_lookups_hit_and_miss() {
    let db = seeded();
    assert_eq!(db.user(11).unwrap().role, UserRole::ADMIN);
    assert!(db.user(999).is_none());
    assert_eq!(db.blog(22).unwrap().slug, "beta");
    assert!(db.blog(999).is_none());
    assert_eq!(db.post(31).unwrap().slug, "one");
    assert!(db.post(999).is_none());
}

#[test]
fn nested_blog_listing_is_scoped_to_its_user() {
    let db = seeded();
    let u1 = db.user(11).unwrap();
    let conn = u1.blogs(&db, 10, None).unwrap();
    assert_eq!(conn.edges.len(), 2);
    assert_eq!(conn.edges[0].node.id, 21);
    assert_eq!(conn.edges[1].node.id, 22);
    assert_eq!(conn.edges[0].cursor.ty, NodeType::Blog);
    assert!(!conn.page_info.has_next_page);

    let u2 = db.user(12).unwrap();
    let conn = u2.blogs(&db, 10, None).unwrap();
    assert_eq!(conn.edges.len(), 1);
    assert_eq!(conn.edges[0].node.id, 23);
}

#[test]
fn nested_post_listing_is_scoped_to_its_blog() {
    let db = seeded();
    let b1 = db.blog(21).unwrap();
    let conn = b1.posts(&db, 10, None).unwrap();
    assert_eq!(conn.edges.len(), 2);
    assert_eq!(conn.edges[0].node.id, 31);
    assert_eq!(conn.edges[1].node.id, 33);
    assert_eq!(conn.edges[1].cursor.ty, NodeType::Post);

    let scoped = b1.posts(&db, 1, None).unwrap();
    assert_eq!(scoped.edges.len(), 1);
    assert!(scoped.page_info.has_next_page);
}

#[test]
fn parent_traversals_follow_foreign_keys() {
    let db = seeded();
    let post = db.post(33).unwrap();
    let blog = post.blog(&db);
    assert_eq!(blog.id, 21);
    let owner = blog.user(&db);
    assert_eq!(owner.id, 11);
    assert_eq!(owner.role, UserRole::ADMIN);
}

#[test]
fn email_account_is_fetched_singly() {
    let mut db = seeded();
    let u1 = db.user(11).unwrap();
    assert!(u1.email_account(&db).is_none());
    db.email_account_create(
        EmailAccountCreateInput {
            provider_account_id: "someone".to_string(),
            user_id: 11,
        },
        41,
        110,
    )
    .unwrap();
    let linked = u1.email_account(&db).unwrap();
    assert_eq!(linked.id, 41);
    assert_eq!(linked.provider_account_id, "someone");
    let u2 = db.user(12).unwrap();
    assert!(u2.email_account(&db).is_none());
}

#[test]
fn email_account_with_unknown_user_is_a_constraint_violation() {
    let mut db = Db::new();
    let err = db
        .email_account_create(
            EmailAccountCreateInput {
                provider_account_id: "ghost".to_string(),
                user_id: 999,
            },
            41,
            110,
        )
        .unwrap_err();
    assert_eq!(err, ApiError::ConstraintViolation);
}

#[test]
fn oauth_accounts_lists_every_linked_account_in_insertion_order() {
    let mut db = seeded();
    for (id, user_id, provider) in [
        (51, 11, OAuthAccountProvider::GOOGLE),
        (52, 12, OAuthAccountProvider::APPLE),
        (53, 11, OAuthAccountProvider::GITHUB),
    ] {
        db.oauth_account_create(
            OAuthAccountCreateInput {
                provider,
                provider_access_token: "token".to_string(),
                provider_access_token_expires_at: 200,
                provider_account_id: "acct".to_string(),
                provider_refresh_token: "token".to_string(),
                user_id,
            },
            id,
            120,
        )
        .unwrap();
    }
    let u1 = db.user(11).unwrap();
    let accounts = u1.oauth_accounts(&db);
    assert_eq!(accounts.len(), 2);
    assert_eq!(accounts[0].id, 51);
    assert_eq!(accounts[0].provider, OAuthAccountProvider::GOOGLE);
    assert_eq!(accounts[1].id, 53);
    assert_eq!(accounts[1].provider, OAuthAccountProvider::GITHUB);
    let u2 = db.user(12).unwrap();
    assert_eq!(u2.oauth_accounts(&db).len(), 1);
}

#[test]
fn oauth_account_with_unknown_user_is_a_constraint_violation() {
    let mut db = Db::new();
    let err = db
        .oauth_account_create(
            OAuthAccountCreateInput {
                provider: OAuthAccountProvider::GOOGLE,
                provider_access_token: "token".to_string(),
                provider_access_token_expires_at: 200,
                provider_account_id: "acct".to_string(),
                provider_refresh_token: "token".to_string(),
                user_id: 999,
            },
            51,
            120,
        )
        .unwrap_err();
    assert_eq!(err, ApiError::ConstraintViolation);
}
