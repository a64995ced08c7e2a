//! The entity types of the blogging domain and the node-identity capability
//! that lets every listable entity produce a cursor.
//!
//! Entities carry their storage facts as plain values: the public identifier
//! as the 128 bits of its UUID, timestamps as seconds, and the internal
//! ordering key assigned at insert time.

use vstd::prelude::*;

use crate::cursor::{Cursor, NodeType};
use crate::errors::{ParseOAuthAccountProviderError, ParseUserRoleError};

verus! {

/// The node-identity capability: per-entity facts every listable entity
/// exposes, the sole abstraction point that keeps the connection builder and
/// the page selection generic across entity variants.
pub trait Node: Sized {
    /// The strictly increasing per-table ordering key assigned at
    /// row-creation time, used exclusively for pagination ordering.
    spec fn ordering_key(&self) -> i32;

    /// The identifier of the parent row this entity belongs to; `0` for a
    /// root entity, which is never fetched through a relationship scope.
    spec fn scope_id(&self) -> u128;

    /// The fixed type tag this entity variant builds cursors with.
    spec fn type_tag() -> NodeType;

    /// The ordering key of this row.
    fn key(&self) -> (k: i32)
        ensures
            k == self.ordering_key(),
    ;

    /// Whether this row belongs to the parent row with identifier `parent`.
    fn in_scope(&self, parent: u128) -> (b: bool)
        ensures
            b == (self.scope_id() == parent),
    ;

    /// The cursor at this entity's position.
    fn cursor(&self) -> (c: Cursor)
        ensures
            c == (Cursor { _rowid: self.ordering_key(), ty: Self::type_tag() }),
    ;

    /// An owned copy equal to this entity.
    fn duplicate(&self) -> (d: Self)
        ensures
            d == *self,
    ;
}

/// The role a user holds.
#[derive(Clone, Copy, Debug, PartialEq, Eq, Structural)]
#[allow(non_camel_case_types)]
pub enum UserRole {
    ADMIN,
    USER,
}

impl UserRole {
    /// Decode the persisted text of a role; any unrecognized text is
    /// rejected, with no silent coercion and no default substitution.
    pub fn from_str(s: &str) -> (r: Result<UserRole, ParseUserRoleError>)
        ensures
            (r == Ok::<UserRole, ParseUserRoleError>(UserRole::ADMIN)) <==> s@ == "ADMIN"@,
            (r == Ok::<UserRole, ParseUserRoleError>(UserRole::USER)) <==> s@ == "USER"@,
            (r is Err) <==> (s@ != "ADMIN"@ && s@ != "USER"@),
    {
        proof {
            reveal_strlit("ADMIN");
            reveal_strlit("USER");
        }
        let n = s.unicode_len();
        if n == 5 {
            if s.get_char(0) == 'A' && s.get_char(1) == 'D' && s.get_char(2) == 'M' && s.get_char(
                3,
            ) == 'I' && s.get_char(4) == 'N' {
                proof {
                    assert(s@ =~= "ADMIN"@);
                }
                return Ok(UserRole::ADMIN);
            }
            return Err(ParseUserRoleError);
        }
        if n == 4 {
            if s.get_char(0) == 'U' && s.get_char(1) == 'S' && s.get_char(2) == 'E' && s.get_char(
                3,
            ) == 'R' {
                proof {
                    assert(s@ =~= "USER"@);
                }
                return Ok(UserRole::USER);
            }
            return Err(ParseUserRoleError);
        }
        Err(ParseUserRoleError)
    }

    /// The persisted text of the role.
    pub fn as_str(&self) -> (r: &'static str)
        ensures
            (match self {
                UserRole::ADMIN => r@ == "ADMIN"@,
                UserRole::USER => r@ == "USER"@,
            }),
    {
        match self {
            UserRole::ADMIN => "ADMIN",
            UserRole::USER => "USER",
        }
    }
}

/// Law: the role text mapping round-trips, for every role.
pub fn role_text_round_trip(role: UserRole) -> (r: Result<UserRole, ParseUserRoleError>)
    ensures
        r == Ok::<UserRole, ParseUserRoleError>(role),
{
    proof {
        reveal_strlit("ADMIN");
        reveal_strlit("USER");
    }
    UserRole::from_str(role.as_str())
}

/// The provider of a linked OAuth account.
#[derive(Clone, Copy, Debug, PartialEq, Eq, Structural)]
#[allow(non_camel_case_types)]
pub enum OAuthAccountProvider {
    APPLE,
    GITHUB,
    GOOGLE,
}

impl OAuthAccountProvider {
    /// Decode the persisted text of a provider; any unrecognized text is
    /// rejected, with no silent coercion and no default substitution.
    pub fn from_str(s: &str) -> (r: Result<
        OAuthAccountProvider,
        ParseOAuthAccountProviderError,
    >)
        ensures
            (r == Ok::<OAuthAccountProvider, ParseOAuthAccountProviderError>(
                OAuthAccountProvider::APPLE,
            )) <==> s@ == "APPLE"@,
            (r == Ok::<OAuthAccountProvider, ParseOAuthAccountProviderError>(
                OAuthAccountProvider::GITHUB,
            )) <==> s@ == "GITHUB"@,
            (r == Ok::<OAuthAccountProvider, ParseOAuthAccountProviderError>(
                OAuthAccountProvider::GOOGLE,
            )) <==> s@ == "GOOGLE"@,
            (r is Err) <==> (s@ != "APPLE"@ && s@ != "GITHUB"@ && s@ != "GOOGLE"@),
    {
        proof {
            reveal_strlit("APPLE");
            reveal_strlit("GITHUB");
            reveal_strlit("GOOGLE");
        }
        let n = s.unicode_len();
        if n == 5 {
            if s.get_char(0) == 'A' && s.get_char(1) == 'P' && s.get_char(2) == 'P' && s.get_char(
                3,
            ) == 'L' && s.get_char(4) == 'E' {
                proof {
                    assert(s@ =~= "APPLE"@);
                }
                return Ok(OAuthAccountProvider::APPLE);
            }
            return Err(ParseOAuthAccountProviderError);
        }
        if n == 6 {
            if s.get_char(0) == 'G' && s.get_char(1) == 'I' && s.get_char(2) == 'T' && s.get_char(
                3,
            ) == 'H' && s.get_char(4) == 'U' && s.get_char(5) == 'B' {
                proof {
                    assert(s@ =~= "GITHUB"@);
                }
                return Ok(OAuthAccountProvider::GITHUB);
            }
            if s.get_char(0) == 'G' && s.get_char(1) == 'O' && s.get_char(2) == 'O' && s.get_char(
                3,
            ) == 'G' && s.get_char(4) == 'L' && s.get_char(5) == 'E' {
                proof {
                    assert(s@ =~= "GOOGLE"@);
                }
                return Ok(OAuthAccountProvider::GOOGLE);
            }
            return Err(ParseOAuthAccountProviderError);
        }
        Err(ParseOAuthAccountProviderError)
    }

    /// The persisted text of the provider.
    pub fn as_str(&self) -> (r: &'static str)
        ensures
            (match self {
                OAuthAccountProvider::APPLE => r@ == "APPLE"@,
                OAuthAccountProvider::GITHUB => r@ == "GITHUB"@,
                OAuthAccountProvider::GOOGLE => r@ == "GOOGLE"@,
            }),
    {
        match self {
            OAuthAccountProvider::APPLE => "APPLE",
            OAuthAccountProvider::GITHUB => "GITHUB",
            OAuthAccountProvider::GOOGLE => "GOOGLE",
        }
    }
}

/// Law: the provider text mapping round-trips, for every provider.
pub fn provider_text_round_trip(provider: OAuthAccountProvider) -> (r: Result<
    OAuthAccountProvider,
    ParseOAuthAccountProviderError,
>)
    ensures
        r == Ok::<OAuthAccountProvider, ParseOAuthAccountProviderError>(provider),
{
    proof {
        reveal_strlit("APPLE");
        reveal_strlit("GITHUB");
        reveal_strlit("GOOGLE");
    }
    OAuthAccountProvider::from_str(provider.as_str())
}

/// A user row.
#[derive(Clone, Copy, Debug, PartialEq, Eq, Structural)]
pub struct User {
    pub _rowid: i32,
    pub created_at: i64,
    pub deleted_at: Option<i64>,
    pub id: u128,
    pub role: UserRole,
    pub updated_at: i64,
}

impl Node for User {
    open spec fn ordering_key(&self) -> i32 {
        self._rowid
    }

    open spec fn scope_id(&self) -> u128 {
        0
    }

    open spec fn type_tag() -> NodeType {
        NodeType::User
    }

    fn key(&self) -> (k: i32) {
        self._rowid
    }

    fn in_scope(&self, parent: u128) -> (b: bool) {
        parent == 0
    }

    fn cursor(&self) -> (c: Cursor) {
        Cursor { _rowid: self._rowid, ty: NodeType::User }
    }

    fn duplicate(&self) -> (d: Self) {
        *self
    }
}

/// A blog row, owned by a user.
#[derive(Debug, PartialEq)]
pub struct Blog {
    pub _rowid: i32,
    pub created_at: i64,
    pub deleted_at: Option<i64>,
    pub id: u128,
    pub slug: String,
    pub title: String,
    pub updated_at: i64,
    pub user_id: u128,
}

impl Node for Blog {
    open spec fn ordering_key(&self) -> i32 {
        self._rowid
    }

    open spec fn scope_id(&self) -> u128 {
        self.user_id
    }

    open spec fn type_tag() -> NodeType {
        NodeType::Blog
    }

    fn key(&self) -> (k: i32) {
        self._rowid
    }

    fn in_scope(&self, parent: u128) -> (b: bool) {
        self.user_id == parent
    }

    fn cursor(&self) -> (c: Cursor) {
        Cursor { _rowid: self._rowid, ty: NodeType::Blog }
    }

    fn duplicate(&self) -> (d: Self) {
        Blog {
            _rowid: self._rowid,
            created_at: self.created_at,
            deleted_at: self.deleted_at,
            id: self.id,
            slug: self.slug.clone(),
            title: self.title.clone(),
            updated_at: self.updated_at,
            user_id: self.user_id,
        }
    }
}

/// A post row, owned by a blog.
#[derive(Debug, PartialEq)]
pub struct Post {
    pub _rowid: i32,
    pub blog_id: u128,
    pub created_at: i64,
    pub deleted_at: Option<i64>,
    pub id: u128,
    pub slug: String,
    pub updated_at: i64,
}

impl Node for Post {
    open spec fn ordering_key(&self) -> i32 {
        self._rowid
    }

    open spec fn scope_id(&self) -> u128 {
        self.blog_id
    }

    open spec fn type_tag() -> NodeType {
        NodeType::Post
    }

    fn key(&self) -> (k: i32) {
        self._rowid
    }

    fn in_scope(&self, parent: u128) -> (b: bool) {
        self.blog_id == parent
    }

    fn cursor(&self) -> (c: Cursor) {
        Cursor { _rowid: self._rowid, ty: NodeType::Post }
    }

    fn duplicate(&self) -> (d: Self) {
        Post {
            _rowid: self._rowid,
            blog_id: self.blog_id,
            created_at: self.created_at,
            deleted_at: self.deleted_at,
            id: self.id,
            slug: self.slug.clone(),
            updated_at: self.updated_at,
        }
    }
}

/// A linked email account row, owned by a user; fetched singly, never
/// paginated.
#[derive(Debug, PartialEq)]
pub struct EmailAccount {
    pub _rowid: i32,
    pub created_at: i64,
    pub deleted_at: Option<i64>,
    pub id: u128,
    pub provider_account_id: String,
    pub updated_at: i64,
    pub user_id: u128,
}

impl EmailAccount {
    /// An owned copy equal to this row.
    pub fn duplicate(&self) -> (d: Self)
        ensures
            d == *self,
    {
        EmailAccount {
            _rowid: self._rowid,
            created_at: self.created_at,
            deleted_at: self.deleted_at,
            id: self.id,
            provider_account_id: self.provider_account_id.clone(),
            updated_at: self.updated_at,
            user_id: self.user_id,
        }
    }
}

/// A linked OAuth account row, owned by a user; fetched singly, never
/// paginated.
#[derive(Debug, PartialEq)]
pub struct OAuthAccount {
    pub _rowid: i32,
    pub created_at: i64,
    pub deleted_at: Option<i64>,
    pub id: u128,
    pub provider: OAuthAccountProvider,
    pub provider_access_token: String,
    pub provider_access_token_expires_at: i64,
    pub provider_account_id: String,
    pub provider_refresh_token: String,
    pub updated_at: i64,
    pub user_id: u128,
}

impl OAuthAccount {
    /// An owned copy equal to this row.
    pub fn duplicate(&self) -> (d: Self)
        ensures
            d == *self,
    {
        OAuthAccount {
            _rowid: self._rowid,
            created_at: self.created_at,
            deleted_at: self.deleted_at,
            id: self.id,
            provider: self.provider,
            provider_access_token: self.provider_access_token.clone(),
            provider_access_token_expires_at: self.provider_access_token_expires_at,
            provider_account_id: self.provider_account_id.clone(),
            provider_refresh_token: self.provider_refresh_token.clone(),
            updated_at: self.updated_at,
            user_id: self.user_id,
        }
    }
}

/// The fields a caller supplies to create a user.
#[derive(Clone, Copy, Debug, PartialEq, Eq, Structural)]
pub struct UserCreateInput {
    pub role: UserRole,
}

/// The row a user creation returns.
#[derive(Debug, PartialEq)]
pub struct UserCreateOutput {
    pub user: User,
}

/// The fields a caller supplies to create a blog.
#[derive(Debug, PartialEq)]
pub struct BlogCreateInput {
    pub slug: String,
    pub title: String,
    pub user_id: u128,
}

/// The row a blog creation returns.
#[derive(Debug, PartialEq)]
pub struct BlogCreateOutput {
    pub blog: Blog,
}

/// The fields a caller supplies to create a post.
#[derive(Debug, PartialEq)]
pub struct PostCreateInput {
    pub blog_id: u128,
    pub slug: String,
}

/// The row a post creation returns.
#[derive(Debug, PartialEq)]
pub struct PostCreateOutput {
    pub post: Post,
}

/// The fields a caller supplies to link an email account.
#[derive(Debug, PartialEq)]
pub struct EmailAccountCreateInput {
    pub provider_account_id: String,
    pub user_id: u128,
}

/// The row an email-account creation returns.
#[derive(Debug, PartialEq)]
pub struct EmailAccountCreateOutput {
    pub email_account: EmailAccount,
}

/// The fields a caller supplies to link an OAuth account.
#[derive(Debug, PartialEq)]
pub struct OAuthAccountCreateInput {
    pub provider: OAuthAccountProvider,
    pub provider_access_token: String,
    pub provider_access_token_expires_at: i64,
    pub provider_account_id: String,
    pub provider_refresh_token: String,
    pub user_id: u128,
}

/// The row an OAuth-account creation returns.
#[derive(Debug, PartialEq)]
pub struct OAuthAccountCreateOutput {
    pub oauth_account: OAuthAccount,
}

} // verus!
