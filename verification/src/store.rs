//! The in-memory relational store: five tables whose rows carry ordering
//! keys assigned densely at insert time, with the foreign-key and
//! primary-key constraints of the schema checked on every insert.
//!
//! The entity forest is rooted at [`User`]; [`Blog`], [`EmailAccount`] and
//! [`OAuthAccount`] belong to a user, [`Post`] belongs to a blog. Every
//! list-returning field resolves through the generic page selection of
//! [`crate::connection`].

use vstd::prelude::*;

use crate::connection::{connection_spec, paginate, Connection};
use crate::cursor::Cursor;
use crate::errors::ApiError;
use crate::models::{
    Blog, BlogCreateInput, BlogCreateOutput, EmailAccount, EmailAccountCreateInput,
    EmailAccountCreateOutput, Node, OAuthAccount, OAuthAccountCreateInput,
    OAuthAccountCreateOutput, Post, PostCreateInput, PostCreateOutput, User, UserCreateInput,
    UserCreateOutput,
};

verus! {

/// The OAuth accounts of one user, in table order.
pub open spec fn accounts_of_user(rows: Seq<OAuthAccount>, user_id: u128) -> Seq<OAuthAccount>
    decreases rows.len(),
{
    if rows.len() == 0 {
        Seq::empty()
    } else {
        let prefix = accounts_of_user(rows.drop_last(), user_id);
        if rows.last().user_id == user_id {
            prefix.push(rows.last())
        } else {
            prefix
        }
    }
}

/// The five relational tables.
pub struct Db {
    pub users: Vec<User>,
    pub blogs: Vec<Blog>,
    pub posts: Vec<Post>,
    pub email_accounts: Vec<EmailAccount>,
    pub oauth_accounts: Vec<OAuthAccount>,
}

impl Db {
    /// Some user row carries this identifier.
    pub open spec fn user_id_taken(self, id: u128) -> bool {
        exists|i: int| 0 <= i < self.users@.len() && (#[trigger] self.users@[i]).id == id
    }

    /// Some blog row carries this identifier.
    pub open spec fn blog_id_taken(self, id: u128) -> bool {
        exists|i: int| 0 <= i < self.blogs@.len() && (#[trigger] self.blogs@[i]).id == id
    }

    /// Some post row carries this identifier.
    pub open spec fn post_id_taken(self, id: u128) -> bool {
        exists|i: int| 0 <= i < self.posts@.len() && (#[trigger] self.posts@[i]).id == id
    }

    /// Some email-account row carries this identifier.
    pub open spec fn email_account_id_taken(self, id: u128) -> bool {
        exists|i: int|
            0 <= i < self.email_accounts@.len() && (#[trigger] self.email_accounts@[i]).id == id
    }

    /// Some OAuth-account row carries this identifier.
    pub open spec fn oauth_account_id_taken(self, id: u128) -> bool {
        exists|i: int|
            0 <= i < self.oauth_accounts@.len() && (#[trigger] self.oauth_accounts@[i]).id == id
    }

    /// The storage invariant: each table's ordering keys are dense and
    /// ascending in insertion order (`1..N`), identifiers are unique per
    /// table, and every foreign key references an existing row.
    pub open spec fn wf(self) -> bool {
        &&& (forall|i: int|
            0 <= i < self.users@.len() ==> (#[trigger] self.users@[i])._rowid as int == i + 1)
        &&& (forall|i: int|
            0 <= i < self.blogs@.len() ==> (#[trigger] self.blogs@[i])._rowid as int == i + 1)
        &&& (forall|i: int|
            0 <= i < self.posts@.len() ==> (#[trigger] self.posts@[i])._rowid as int == i + 1)
        &&& (forall|i: int|
            0 <= i < self.email_accounts@.len() ==> (#[trigger] self.email_accounts@[i])._rowid
                as int == i + 1)
        &&& (forall|i: int|
            0 <= i < self.oauth_accounts@.len() ==> (#[trigger] self.oauth_accounts@[i])._rowid
                as int == i + 1)
        &&& (forall|i: int, j: int|
            0 <= i < j < self.users@.len() ==> (#[trigger] self.users@[i]).id != (
            #[trigger] self.users@[j]).id)
        &&& (forall|i: int, j: int|
            0 <= i < j < self.blogs@.len() ==> (#[trigger] self.blogs@[i]).id != (
            #[trigger] self.blogs@[j]).id)
        &&& (forall|i: int, j: int|
            0 <= i < j < self.posts@.len() ==> (#[trigger] self.posts@[i]).id != (
            #[trigger] self.posts@[j]).id)
        &&& (forall|i: int, j: int|
            0 <= i < j < self.email_accounts@.len() ==> (#[trigger] self.email_accounts@[i]).id
                != (#[trigger] self.email_accounts@[j]).id)
        &&& (forall|i: int, j: int|
            0 <= i < j < self.oauth_accounts@.len() ==> (#[trigger] self.oauth_accounts@[i]).id
                != (#[trigger] self.oauth_accounts@[j]).id)
        &&& (forall|i: int|
            0 <= i < self.blogs@.len() ==> self.user_id_taken(
                (#[trigger] self.blogs@[i]).user_id,
            ))
        &&& (forall|i: int|
            0 <= i < self.posts@.len() ==> self.blog_id_taken((#[trigger] self.posts@[i]).blog_id))
        &&& (forall|i: int|
            0 <= i < self.email_accounts@.len() ==> self.user_id_taken(
                (#[trigger] self.email_accounts@[i]).user_id,
            ))
        &&& (forall|i: int|
            0 <= i < self.oauth_accounts@.len() ==> self.user_id_taken(
                (#[trigger] self.oauth_accounts@[i]).user_id,
            ))
    }

    /// Both stores hold the same rows.
    pub open spec fn same_state(self, other: Db) -> bool {
        &&& self.users@ == other.users@
        &&& self.blogs@ == other.blogs@
        &&& self.posts@ == other.posts@
        &&& self.email_accounts@ == other.email_accounts@
        &&& self.oauth_accounts@ == other.oauth_accounts@
    }

    /// An empty store.
    pub fn new() -> (db: Db)
        ensures
            db.wf(),
            db.users@.len() == 0,
            db.blogs@.len() == 0,
            db.posts@.len() == 0,
            db.email_accounts@.len() == 0,
            db.oauth_accounts@.len() == 0,
    {
        Db {
            users: Vec::new(),
            blogs: Vec::new(),
            posts: Vec::new(),
            email_accounts: Vec::new(),
            oauth_accounts: Vec::new(),
        }
    }

    /// Look a user up by identifier; a miss is a null result, not a fault.
    pub fn user(&self, id: u128) -> (r: Option<User>)
        ensures
            (match r {
                Some(u) => u.id == id && (exists|i: int|
                    0 <= i < self.users@.len() && #[trigger] self.users@[i] == u),
                None => !self.user_id_taken(id),
            }),
    {
        let mut i: usize = 0;
        while i < self.users.len()
            invariant
                0 <= i <= self.users@.len(),
                forall|j: int| 0 <= j < i ==> (#[trigger] self.users@[j]).id != id,
            decreases self.users@.len() - i,
        {
            if self.users[i].id == id {
                return Some(self.users[i].duplicate());
            }
            i = i + 1;
        }
        None
    }

    /// Look a blog up by identifier; a miss is a null result, not a fault.
    pub fn blog(&self, id: u128) -> (r: Option<Blog>)
        ensures
            (match r {
                Some(b) => b.id == id && (exists|i: int|
                    0 <= i < self.blogs@.len() && #[trigger] self.blogs@[i] == b),
                None => !self.blog_id_taken(id),
            }),
    {
        let mut i: usize = 0;
        while i < self.blogs.len()
            invariant
                0 <= i <= self.blogs@.len(),
                forall|j: int| 0 <= j < i ==> (#[trigger] self.blogs@[j]).id != id,
            decreases self.blogs@.len() - i,
        {
            if self.blogs[i].id == id {
                return Some(self.blogs[i].duplicate());
            }
            i = i + 1;
        }
        None
    }

    /// Look a post up by identifier; a miss is a null result, not a fault.
    pub fn post(&self, id: u128) -> (r: Option<Post>)
        ensures
            (match r {
                Some(p) => p.id == id && (exists|i: int|
                    0 <= i < self.posts@.len() && #[trigger] self.posts@[i] == p),
                None => !self.post_id_taken(id),
            }),
    {
        let mut i: usize = 0;
        while i < self.posts.len()
            invariant
                0 <= i <= self.posts@.len(),
                forall|j: int| 0 <= j < i ==> (#[trigger] self.posts@[j]).id != id,
            decreases self.posts@.len() - i,
        {
            if self.posts[i].id == id {
                return Some(self.posts[i].duplicate());
            }
            i = i + 1;
        }
        None
    }

    fn email_account_id_exists(&self, id: u128) -> (b: bool)
        ensures
            b == self.email_account_id_taken(id),
    {
        let mut i: usize = 0;
        while i < self.email_accounts.len()
            invariant
                0 <= i <= self.email_accounts@.len(),
                forall|j: int| 0 <= j < i ==> (#[trigger] self.email_accounts@[j]).id != id,
            decreases self.email_accounts@.len() - i,
        {
            if self.email_accounts[i].id == id {
                return true;
            }
            i = i + 1;
        }
        false
    }

    fn oauth_account_id_exists(&self, id: u128) -> (b: bool)
        ensures
            b == self.oauth_account_id_taken(id),
    {
        let mut i: usize = 0;
        while i < self.oauth_accounts.len()
            invariant
                0 <= i <= self.oauth_accounts@.len(),
                forall|j: int| 0 <= j < i ==> (#[trigger] self.oauth_accounts@[j]).id != id,
            decreases self.oauth_accounts@.len() - i,
        {
            if self.oauth_accounts[i].id == id {
                return true;
            }
            i = i + 1;
        }
        false
    }

    /// The whole-table user listing, paginated.
    pub fn users(&self, first: i64, after: Option<Cursor>) -> (r: Result<Connection<User>, ApiError>)
        requires
            (match after {
                Option::Some(c) => c.valid(),
                Option::None => true,
            }),
        ensures
            connection_spec(self.users@, Option::<u128>::None, first, after, r),
    {
        paginate(&self.users, Option::None, first, after)
    }

    /// The whole-table blog listing, paginated.
    pub fn blogs(&self, first: i64, after: Option<Cursor>) -> (r: Result<Connection<Blog>, ApiError>)
        requires
            (match after {
                Option::Some(c) => c.valid(),
                Option::None => true,
            }),
        ensures
            connection_spec(self.blogs@, Option::<u128>::None, first, after, r),
    {
        paginate(&self.blogs, Option::None, first, after)
    }

    /// The whole-table post listing, paginated.
    pub fn posts(&self, first: i64, after: Option<Cursor>) -> (r: Result<Connection<Post>, ApiError>)
        requires
            (match after {
                Option::Some(c) => c.valid(),
                Option::None => true,
            }),
        ensures
            connection_spec(self.posts@, Option::<u128>::None, first, after, r),
    {
        paginate(&self.posts, Option::None, first, after)
    }

    /// Insert a user; fails with [`ApiError::ConstraintViolation`] exactly
    /// when the identifier is already taken.
    pub fn user_create(&mut self, user: UserCreateInput, id: u128, now: i64) -> (r: Result<
        UserCreateOutput,
        ApiError,
    >)
        requires
            old(self).wf(),
            old(self).users@.len() < 2147483647,
        ensures
            final(self).wf(),
            (match r {
                Ok(out) => {
                    &&& !old(self).user_id_taken(id)
                    &&& out.user == (User {
                        _rowid: (old(self).users@.len() + 1) as i32,
                        created_at: now,
                        deleted_at: Option::None,
                        id,
                        role: user.role,
                        updated_at: now,
                    })
                    &&& final(self).users@ == old(self).users@.push(out.user)
                    &&& final(self).blogs@ == old(self).blogs@
                    &&& final(self).posts@ == old(self).posts@
                    &&& final(self).email_accounts@ == old(self).email_accounts@
                    &&& final(self).oauth_accounts@ == old(self).oauth_accounts@
                },
                Err(e) => {
                    &&& e == ApiError::ConstraintViolation
                    &&& old(self).user_id_taken(id)
                    &&& final(self).same_state(*old(self))
                },
            }),
    {
        if self.user(id).is_some() {
            return Err(ApiError::ConstraintViolation);
        }
        let row = User {
            _rowid: (self.users.len() + 1) as i32,
            created_at: now,
            deleted_at: None,
            id,
            role: user.role,
            updated_at: now,
        };
        let out = row.duplicate();
        self.users.push(row);
        proof {
            let pre = *old(self);
            let post = *self;
            assert forall|i: int|
                0 <= i < post.blogs@.len() implies post.user_id_taken(
                (#[trigger] post.blogs@[i]).user_id,
            ) by {
                let k = choose|k: int|
                    0 <= k < pre.users@.len() && (#[trigger] pre.users@[k]).id
                        == pre.blogs@[i].user_id;
                assert((#[trigger] post.users@[k]).id == post.blogs@[i].user_id);
            }
            assert forall|i: int|
                0 <= i < post.email_accounts@.len() implies post.user_id_taken(
                (#[trigger] post.email_accounts@[i]).user_id,
            ) by {
                let k = choose|k: int|
                    0 <= k < pre.users@.len() && (#[trigger] pre.users@[k]).id
                        == pre.email_accounts@[i].user_id;
                assert((#[trigger] post.users@[k]).id == post.email_accounts@[i].user_id);
            }
            assert forall|i: int|
                0 <= i < post.oauth_accounts@.len() implies post.user_id_taken(
                (#[trigger] post.oauth_accounts@[i]).user_id,
            ) by {
                let k = choose|k: int|
                    0 <= k < pre.users@.len() && (#[trigger] pre.users@[k]).id
                        == pre.oauth_accounts@[i].user_id;
                assert((#[trigger] post.users@[k]).id == post.oauth_accounts@[i].user_id);
            }
        }
        Ok(UserCreateOutput { user: out })
    }

    /// Insert a blog; fails with [`ApiError::ConstraintViolation`] exactly
    /// when the owning user does not exist or the identifier is taken.
    pub fn blog_create(&mut self, blog: BlogCreateInput, id: u128, now: i64) -> (r: Result<
        BlogCreateOutput,
        ApiError,
    >)
        requires
            old(self).wf(),
            old(self).blogs@.len() < 2147483647,
        ensures
            final(self).wf(),
            (match r {
                Ok(out) => {
                    &&& old(self).user_id_taken(blog.user_id)
                    &&& !old(self).blog_id_taken(id)
                    &&& out.blog == (Blog {
                        _rowid: (old(self).blogs@.len() + 1) as i32,
                        created_at: now,
                        deleted_at: Option::None,
                        id,
                        slug: blog.slug,
                        title: blog.title,
                        updated_at: now,
                        user_id: blog.user_id,
                    })
                    &&& final(self).blogs@ == old(self).blogs@.push(out.blog)
                    &&& final(self).users@ == old(self).users@
                    &&& final(self).posts@ == old(self).posts@
                    &&& final(self).email_accounts@ == old(self).email_accounts@
                    &&& final(self).oauth_accounts@ == old(self).oauth_accounts@
                },
                Err(e) => {
                    &&& e == ApiError::ConstraintViolation
                    &&& (!old(self).user_id_taken(blog.user_id) || old(self).blog_id_taken(id))
                    &&& final(self).same_state(*old(self))
                },
            }),
    {
        if self.user(blog.user_id).is_none() {
            return Err(ApiError::ConstraintViolation);
        }
        if self.blog(id).is_some() {
            return Err(ApiError::ConstraintViolation);
        }
        let row = Blog {
            _rowid: (self.blogs.len() + 1) as i32,
            created_at: now,
            deleted_at: None,
            id,
            slug: blog.slug,
            title: blog.title,
            updated_at: now,
            user_id: blog.user_id,
        };
        let out = row.duplicate();
        self.blogs.push(row);
        proof {
            let pre = *old(self);
            let post = *self;
            assert forall|i: int|
                0 <= i < post.blogs@.len() implies post.user_id_taken(
                (#[trigger] post.blogs@[i]).user_id,
            ) by {
                if i < pre.blogs@.len() {
                    assert(pre.user_id_taken(pre.blogs@[i].user_id));
                }
                assert(pre.user_id_taken(post.blogs@[i].user_id));
            }
            assert forall|i: int|
                0 <= i < post.posts@.len() implies post.blog_id_taken(
                (#[trigger] post.posts@[i]).blog_id,
            ) by {
                let k = choose|k: int|
                    0 <= k < pre.blogs@.len() && (#[trigger] pre.blogs@[k]).id
                        == pre.posts@[i].blog_id;
                assert((#[trigger] post.blogs@[k]).id == post.posts@[i].blog_id);
            }
        }
        Ok(BlogCreateOutput { blog: out })
    }

    /// Insert a post; fails with [`ApiError::ConstraintViolation`] exactly
    /// when the owning blog does not exist or the identifier is taken.
    pub fn post_create(&mut self, post: PostCreateInput, id: u128, now: i64) -> (r: Result<
        PostCreateOutput,
        ApiError,
    >)
        requires
            old(self).wf(),
            old(self).posts@.len() < 2147483647,
        ensures
            final(self).wf(),
            (match r {
                Ok(out) => {
                    &&& old(self).blog_id_taken(post.blog_id)
                    &&& !old(self).post_id_taken(id)
                    &&& out.post == (Post {
                        _rowid: (old(self).posts@.len() + 1) as i32,
                        blog_id: post.blog_id,
                        created_at: now,
                        deleted_at: Option::None,
                        id,
                        slug: post.slug,
                        updated_at: now,
                    })
                    &&& final(self).posts@ == old(self).posts@.push(out.post)
                    &&& final(self).users@ == old(self).users@
                    &&& final(self).blogs@ == old(self).blogs@
                    &&& final(self).email_accounts@ == old(self).email_accounts@
                    &&& final(self).oauth_accounts@ == old(self).oauth_accounts@
                },
                Err(e) => {
                    &&& e == ApiError::ConstraintViolation
                    &&& (!old(self).blog_id_taken(post.blog_id) || old(self).post_id_taken(id))
                    &&& final(self).same_state(*old(self))
                },
            }),
    {
        if self.blog(post.blog_id).is_none() {
            return Err(ApiError::ConstraintViolation);
        }
        if self.post(id).is_some() {
            return Err(ApiError::ConstraintViolation);
        }
        let row = Post {
            _rowid: (self.posts.len() + 1) as i32,
            blog_id: post.blog_id,
            created_at: now,
            deleted_at: None,
            id,
            slug: post.slug,
            updated_at: now,
        };
        let out = row.duplicate();
        self.posts.push(row);
        proof {
            let pre = *old(self);
            let post_db = *self;
            assert forall|i: int|
                0 <= i < post_db.posts@.len() implies post_db.blog_id_taken(
                (#[trigger] post_db.posts@[i]).blog_id,
            ) by {
                if i < pre.posts@.len() {
                    assert(pre.blog_id_taken(pre.posts@[i].blog_id));
                }
                assert(pre.blog_id_taken(post_db.posts@[i].blog_id));
            }
        }
        Ok(PostCreateOutput { post: out })
    }

    /// Link an email account; fails with [`ApiError::ConstraintViolation`]
    /// exactly when the owning user does not exist or the identifier is
    /// taken.
    pub fn email_account_create(
        &mut self,
        email_account: EmailAccountCreateInput,
        id: u128,
        now: i64,
    ) -> (r: Result<EmailAccountCreateOutput, ApiError>)
        requires
            old(self).wf(),
            old(self).email_accounts@.len() < 2147483647,
        ensures
            final(self).wf(),
            (match r {
                Ok(out) => {
                    &&& old(self).user_id_taken(email_account.user_id)
                    &&& !old(self).email_account_id_taken(id)
                    &&& out.email_account == (EmailAccount {
                        _rowid: (old(self).email_accounts@.len() + 1) as i32,
                        created_at: now,
                        deleted_at: Option::None,
                        id,
                        provider_account_id: email_account.provider_account_id,
                        updated_at: now,
                        user_id: email_account.user_id,
                    })
                    &&& final(self).email_accounts@ == old(self).email_accounts@.push(
                        out.email_account,
                    )
                    &&& final(self).users@ == old(self).users@
                    &&& final(self).blogs@ == old(self).blogs@
                    &&& final(self).posts@ == old(self).posts@
                    &&& final(self).oauth_accounts@ == old(self).oauth_accounts@
                },
                Err(e) => {
                    &&& e == ApiError::ConstraintViolation
                    &&& (!old(self).user_id_taken(email_account.user_id) || old(
                        self,
                    ).email_account_id_taken(id))
                    &&& final(self).same_state(*old(self))
                },
            }),
    {
        if self.user(email_account.user_id).is_none() {
            return Err(ApiError::ConstraintViolation);
        }
        if self.email_account_id_exists(id) {
            return Err(ApiError::ConstraintViolation);
        }
        let row = EmailAccount {
            _rowid: (self.email_accounts.len() + 1) as i32,
            created_at: now,
            deleted_at: None,
            id,
            provider_account_id: email_account.provider_account_id,
            updated_at: now,
            user_id: email_account.user_id,
        };
        let out = row.duplicate();
        self.email_accounts.push(row);
        proof {
            let pre = *old(self);
            let post = *self;
            assert forall|i: int|
                0 <= i < post.email_accounts@.len() implies post.user_id_taken(
                (#[trigger] post.email_accounts@[i]).user_id,
            ) by {
                if i < pre.email_accounts@.len() {
                    assert(pre.user_id_taken(pre.email_accounts@[i].user_id));
                }
                assert(pre.user_id_taken(post.email_accounts@[i].user_id));
            }
        }
        Ok(EmailAccountCreateOutput { email_account: out })
    }

    /// Link an OAuth account; fails with [`ApiError::ConstraintViolation`]
    /// exactly when the owning user does not exist or the identifier is
    /// taken.
    pub fn oauth_account_create(
        &mut self,
        oauth_account: OAuthAccountCreateInput,
        id: u128,
        now: i64,
    ) -> (r: Result<OAuthAccountCreateOutput, ApiError>)
        requires
            old(self).wf(),
            old(self).oauth_accounts@.len() < 2147483647,
        ensures
            final(self).wf(),
            (match r {
                Ok(out) => {
                    &&& old(self).user_id_taken(oauth_account.user_id)
                    &&& !old(self).oauth_account_id_taken(id)
                    &&& out.oauth_account == (OAuthAccount {
                        _rowid: (old(self).oauth_accounts@.len() + 1) as i32,
                        created_at: now,
                        deleted_at: Option::None,
                        id,
                        provider: oauth_account.provider,
                        provider_access_token: oauth_account.provider_access_token,
                        provider_access_token_expires_at: oauth_account.provider_access_token_expires_at,
                        provider_account_id: oauth_account.provider_account_id,
                        provider_refresh_token: oauth_account.provider_refresh_token,
                        updated_at: now,
                        user_id: oauth_account.user_id,
                    })
                    &&& final(self).oauth_accounts@ == old(self).oauth_accounts@.push(
                        out.oauth_account,
                    )
                    &&& final(self).users@ == old(self).users@
                    &&& final(self).blogs@ == old(self).blogs@
                    &&& final(self).posts@ == old(self).posts@
                    &&& final(self).email_accounts@ == old(self).email_accounts@
                },
                Err(e) => {
                    &&& e == ApiError::ConstraintViolation
                    &&& (!old(self).user_id_taken(oauth_account.user_id) || old(
                        self,
                    ).oauth_account_id_taken(id))
                    &&& final(self).same_state(*old(self))
                },
            }),
    {
        if self.user(oauth_account.user_id).is_none() {
            return Err(ApiError::ConstraintViolation);
        }
        if self.oauth_account_id_exists(id) {
            return Err(ApiError::ConstraintViolation);
        }
        let row = OAuthAccount {
            _rowid: (self.oauth_accounts.len() + 1) as i32,
            created_at: now,
            deleted_at: None,
            id,
            provider: oauth_account.provider,
            provider_access_token: oauth_account.provider_access_token,
            provider_access_token_expires_at: oauth_account.provider_access_token_expires_at,
            provider_account_id: oauth_account.provider_account_id,
            provider_refresh_token: oauth_account.provider_refresh_token,
            updated_at: now,
            user_id: oauth_account.user_id,
        };
        let out = row.duplicate();
        self.oauth_accounts.push(row);
        proof {
            let pre = *old(self);
            let post = *self;
            assert forall|i: int|
                0 <= i < post.oauth_accounts@.len() implies post.user_id_taken(
                (#[trigger] post.oauth_accounts@[i]).user_id,
            ) by {
                if i < pre.oauth_accounts@.len() {
                    assert(pre.user_id_taken(pre.oauth_accounts@[i].user_id));
                }
                assert(pre.user_id_taken(post.oauth_accounts@[i].user_id));
            }
        }
        Ok(OAuthAccountCreateOutput { oauth_account: out })
    }
}

impl Blog {
    /// The posts of this blog, paginated.
    pub fn posts(&self, db: &Db, first: i64, after: Option<Cursor>) -> (r: Result<
        Connection<Post>,
        ApiError,
    >)
        requires
            (match after {
                Option::Some(c) => c.valid(),
                Option::None => true,
            }),
        ensures
            connection_spec(db.posts@, Option::Some(self.id), first, after, r),
    {
        paginate(&db.posts, Option::Some(self.id), first, after)
    }

    /// The user this blog belongs to; total because the foreign key
    /// guarantees the owner exists.
    pub fn user(&self, db: &Db) -> (r: User)
        requires
            db.wf(),
            db.user_id_taken(self.user_id),
        ensures
            r.id == self.user_id,
            exists|i: int| 0 <= i < db.users@.len() && #[trigger] db.users@[i] == r,
    {
        let mut i: usize = 0;
        while i < db.users.len()
            invariant
                0 <= i <= db.users@.len(),
                db.user_id_taken(self.user_id),
                forall|j: int| 0 <= j < i ==> (#[trigger] db.users@[j]).id != self.user_id,
            decreases db.users@.len() - i,
        {
            if db.users[i].id == self.user_id {
                return db.users[i].duplicate();
            }
            i = i + 1;
        }
        proof {
            assert(false);
        }
        vstd::pervasive::unreached()
    }
}

impl Post {
    /// The blog this post belongs to; total because the foreign key
    /// guarantees the owner exists.
    pub fn blog(&self, db: &Db) -> (r: Blog)
        requires
            db.wf(),
            db.blog_id_taken(self.blog_id),
        ensures
            r.id == self.blog_id,
            exists|i: int| 0 <= i < db.blogs@.len() && #[trigger] db.blogs@[i] == r,
    {
        let mut i: usize = 0;
        while i < db.blogs.len()
            invariant
                0 <= i <= db.blogs@.len(),
                db.blog_id_taken(self.blog_id),
                forall|j: int| 0 <= j < i ==> (#[trigger] db.blogs@[j]).id != self.blog_id,
            decreases db.blogs@.len() - i,
        {
            if db.blogs[i].id == self.blog_id {
                return db.blogs[i].duplicate();
            }
            i = i + 1;
        }
        proof {
            assert(false);
        }
        vstd::pervasive::unreached()
    }
}

impl User {
    /// The blogs of this user, paginated.
    pub fn blogs(&self, db: &Db, first: i64, after: Option<Cursor>) -> (r: Result<
        Connection<Blog>,
        ApiError,
    >)
        requires
            (match after {
                Option::Some(c) => c.valid(),
                Option::None => true,
            }),
        ensures
            connection_spec(db.blogs@, Option::Some(self.id), first, after, r),
    {
        paginate(&db.blogs, Option::Some(self.id), first, after)
    }

    /// The linked email account of this user: the earliest-inserted matching
    /// row, or a null result where none is linked.
    pub fn email_account(&self, db: &Db) -> (r: Option<EmailAccount>)
        ensures
            (match r {
                Some(e) => {
                    &&& e.user_id == self.id
                    &&& exists|i: int|
                        0 <= i < db.email_accounts@.len() && #[trigger] db.email_accounts@[i] == e
                            && (forall|j: int|
                            0 <= j < i ==> (#[trigger] db.email_accounts@[j]).user_id != self.id)
                },
                None => forall|i: int|
                    0 <= i < db.email_accounts@.len() ==> (#[trigger] db.email_accounts@[i]).user_id
                        != self.id,
            }),
    {
        let mut i: usize = 0;
        while i < db.email_accounts.len()
            invariant
                0 <= i <= db.email_accounts@.len(),
                forall|j: int|
                    0 <= j < i ==> (#[trigger] db.email_accounts@[j]).user_id != self.id,
            decreases db.email_accounts@.len() - i,
        {
            if db.email_accounts[i].user_id == self.id {
                return Some(db.email_accounts[i].duplicate());
            }
            i = i + 1;
        }
        None
    }

    /// Every linked OAuth account of this user, in insertion order.
    pub fn oauth_accounts(&self, db: &Db) -> (r: Vec<OAuthAccount>)
        ensures
            r@ == accounts_of_user(db.oauth_accounts@, self.id),
    {
        let mut out: Vec<OAuthAccount> = Vec::new();
        let mut i: usize = 0;
        proof {
            assert(db.oauth_accounts@.take(0) =~= Seq::<OAuthAccount>::empty());
        }
        while i < db.oauth_accounts.len()
            invariant
                0 <= i <= db.oauth_accounts@.len(),
                out@ == accounts_of_user(db.oauth_accounts@.take(i as int), self.id),
            decreases db.oauth_accounts@.len() - i,
        {
            if db.oauth_accounts[i].user_id == self.id {
                out.push(db.oauth_accounts[i].duplicate());
            }
            i = i + 1;
            proof {
                let t_new = db.oauth_accounts@.take(i as int);
                assert(t_new.drop_last() =~= db.oauth_accounts@.take(i - 1));
                assert(t_new.last() == db.oauth_accounts@[i - 1]);
            }
        }
        proof {
            assert(db.oauth_accounts@.take(db.oauth_accounts@.len() as int) =~= db.oauth_accounts@);
        }
        out
    }
}

} // verus!
