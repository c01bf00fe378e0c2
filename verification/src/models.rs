use vstd::prelude::*;
use crate::index::TokenRange;

verus! {

/// An instant of the system clock, carried through as it is.
#[verifier::external_type_specification]
#[verifier::external_body]
pub struct ExSystemTime(std::time::SystemTime);

/// A plain status line.
pub struct StatusResponse {
    pub status: String,
}

/// Whether an operation succeeded.
pub struct ResultResponse {
    pub success: bool,
}

/// A fixed message for the caller.
pub struct Message {
    pub message: &'static str,
}

/// A fixed error word for the caller.
pub struct ErrorResponse {
    pub error: &'static str,
}

/// A user as the store holds it. `refresh_token` is the one refresh token
/// that is valid for the user at present.
pub struct User {
    pub id: i32,
    pub username: String,
    pub pass: String,
    pub created_on: std::time::SystemTime,
    pub study_lang: String,
    pub display_lang: String,
    pub refresh_token: String,
}

/// The fields of a user that an update may set; `None` leaves a field alone.
pub struct UpdateUserOpt {
    pub username: Option<String>,
    pub pass: Option<String>,
    pub study_lang: Option<String>,
    pub display_lang: Option<String>,
    pub refresh_token: Option<String>,
}

/// The update that a request asks for.
pub struct UpdateUserRequest {
    pub username: Option<String>,
    pub password: Option<String>,
    pub study_lang: Option<String>,
    pub display_lang: Option<String>,
}

impl UpdateUserOpt {
    /// The update that changes nothing.
    pub fn none() -> (update: Self)
        ensures
            update.username is None,
            update.pass is None,
            update.study_lang is None,
            update.display_lang is None,
            update.refresh_token is None,
    {
        Self {
            username: None,
            pass: None,
            study_lang: None,
            display_lang: None,
            refresh_token: None,
        }
    }

    /// The update that a request asks for. A request never sets the refresh
    /// token.
    pub fn from_req(req: UpdateUserRequest) -> (update: Self)
        ensures
            update.username == req.username,
            update.pass == req.password,
            update.study_lang == req.study_lang,
            update.display_lang == req.display_lang,
            update.refresh_token is None,
    {
        Self {
            username: req.username,
            pass: req.password,
            study_lang: req.study_lang,
            display_lang: req.display_lang,
            refresh_token: None,
        }
    }
}

/// What others may see of a user.
pub struct SimpleUser {
    pub id: i32,
    pub username: String,
}

impl SimpleUser {
    /// The public part of a user.
    #[inline]
    pub fn new(user: User) -> (simple: SimpleUser)
        ensures
            simple.id == user.id,
            simple.username == user.username,
    {
        SimpleUser { id: user.id, username: user.username }
    }
}

pub struct RegisterRequest {
    pub username: String,
    pub password: String,
    pub study_lang: String,
    pub display_lang: String,
}

pub struct RegisterResponse {
    pub user: SimpleUser,
}

impl RegisterResponse {
    /// The answer to a registration: the public part of the new user.
    #[inline]
    pub fn new(user: User) -> (response: RegisterResponse)
        ensures
            response.user.id == user.id,
            response.user.username == user.username,
    {
        RegisterResponse { user: SimpleUser::new(user) }
    }
}

pub struct LoginRequest {
    pub username: String,
    pub password: String,
}

pub struct LoginResponse {
    pub token: String,
    pub refresh_token: String,
}

pub struct RefreshRequest {
    pub token: String,
    pub refresh_token: String,
}

pub struct RefreshResponse {
    pub token: String,
}

pub struct GetUsersRequest {
    pub offset: Option<i64>,
}

pub struct GetUsersResponse {
    pub users: Vec<SimpleUser>,
    pub count: i64,
}

impl GetUsersResponse {
    /// A list of users with its length.
    #[inline]
    pub fn new(users: Vec<SimpleUser>) -> (response: GetUsersResponse)
        requires
            users@.len() <= i64::MAX,
        ensures
            response.users == users,
            response.count == users@.len(),
    {
        let count = users.len() as i64;
        GetUsersResponse { users, count }
    }
}

/// The identity of a user as a token carries it: a copy taken when the token
/// is made, not a reference to the stored user.
pub struct ClaimsUser {
    pub id: i32,
    pub username: String,
    pub created_on: std::time::SystemTime,
    pub study_lang: String,
    pub display_lang: String,
}

/// The snapshot of a user: the password and the refresh token stay behind.
pub open spec fn snapshot(user: User) -> ClaimsUser {
    ClaimsUser {
        id: user.id,
        username: user.username,
        created_on: user.created_on,
        study_lang: user.study_lang,
        display_lang: user.display_lang,
    }
}

impl ClaimsUser {
    /// Copies the identity of a user out of the stored record.
    #[inline]
    pub fn from_user(user: &User) -> (claims: ClaimsUser)
        ensures
            claims == snapshot(*user),
    {
        ClaimsUser {
            id: user.id,
            username: user.username.clone(),
            created_on: user.created_on,
            study_lang: user.study_lang.clone(),
            display_lang: user.display_lang.clone(),
        }
    }
}

/// What an access token holds: a snapshot and the instant, in seconds, after
/// which the token is no longer accepted.
pub struct TokenClaims {
    pub exp: usize,
    pub user: ClaimsUser,
}

/// What a user has recorded about the words of one language: a status for
/// some words and a definition for some, both keyed by the word's lower-case
/// form.
pub struct UserWordData {
    pub word_status_data: serde_json::Map<String, serde_json::Value>,
    pub word_definition_data: serde_json::Map<String, serde_json::Value>,
}

pub struct GetWordDataResponse {
    pub data: UserWordData,
}

impl GetWordDataResponse {
    pub fn new(data: UserWordData) -> (response: GetWordDataResponse)
        ensures
            response.data == data,
    {
        GetWordDataResponse { data }
    }
}

pub struct UpdateWordStatusRequest {
    pub lang: String,
    pub word: String,
    pub status: String,
}

pub struct BatchUpdateWordStatusRequest {
    pub lang: String,
    pub words: Vec<String>,
    pub status: String,
}

pub struct UpdateWordDefinitionRequest {
    pub lang: String,
    pub word: String,
    pub definition: String,
}

/// An article with everything derived from its text: the tokens in document
/// order, the sentences and the pages as ranges over the tokens, and the
/// unique-word index.
pub struct Article {
    pub id: i32,
    pub title: String,
    pub author: Option<String>,
    pub content: String,
    pub content_length: i32,
    pub words: Vec<String>,
    pub sentences: Vec<TokenRange>,
    pub unique_words: serde_json::Value,
    pub page_data: Vec<TokenRange>,
    pub created_on: std::time::SystemTime,
    pub is_system: bool,
    pub uploader_id: i32,
    pub lang: String,
    pub tags: Vec<String>,
}

/// An article as lists show it: without its text and what is derived from
/// it, and without its uploader.
pub struct SimpleArticle {
    pub id: i32,
    pub title: String,
    pub author: Option<String>,
    pub content_length: i32,
    pub created_on: std::time::SystemTime,
    pub is_system: bool,
    pub lang: String,
    pub tags: Vec<String>,
}

impl SimpleArticle {
    /// What a list shows of an article: each field that both have, as the
    /// article has it.
    pub fn project(article: Article) -> (simple: SimpleArticle)
        ensures
            simple.id == article.id,
            simple.title == article.title,
            simple.author == article.author,
            simple.content_length == article.content_length,
            simple.created_on == article.created_on,
            simple.is_system == article.is_system,
            simple.lang == article.lang,
            simple.tags == article.tags,
    {
        SimpleArticle {
            id: article.id,
            title: article.title,
            author: article.author,
            content_length: article.content_length,
            created_on: article.created_on,
            is_system: article.is_system,
            lang: article.lang,
            tags: article.tags,
        }
    }
}

pub struct GetArticlesRequest {
    pub limit: Option<i64>,
    pub offset: Option<i64>,
    pub lang: Option<String>,
    pub search: Option<String>,
}

pub struct GetArticlesResponse {
    pub articles: Vec<SimpleArticle>,
    pub count: i64,
}

impl GetArticlesResponse {
    /// A list of articles with its length.
    #[inline]
    pub fn new(articles: Vec<SimpleArticle>) -> (response: GetArticlesResponse)
        requires
            articles@.len() <= i64::MAX,
        ensures
            response.articles == articles,
            response.count == articles@.len(),
    {
        let count = articles.len() as i64;
        GetArticlesResponse { articles, count }
    }
}

pub struct ArticleRequest {
    pub article_id: i32,
}

pub struct GetFullArticleResponse {
    pub article: Article,
}

impl GetFullArticleResponse {
    #[inline]
    pub fn new(article: Article) -> (response: GetFullArticleResponse)
        ensures
            response.article == article,
    {
        GetFullArticleResponse { article }
    }
}

pub struct NewArticleRequest {
    pub title: String,
    pub author: Option<String>,
    pub content: String,
    pub language: String,
    pub tags: Option<Vec<String>>,
    pub is_private: bool,
}

pub struct NewArticleResponse {
    pub article: Article,
}

impl NewArticleResponse {
    #[inline]
    pub fn from(article: Article) -> (response: NewArticleResponse)
        ensures
            response.article == article,
    {
        NewArticleResponse { article }
    }
}

pub struct GetUserArticlesRequest {
    pub limit: Option<i64>,
    pub offset: Option<i64>,
    pub user_id: Option<i32>,
    pub lang: Option<String>,
    pub search: Option<String>,
}

} // verus!
