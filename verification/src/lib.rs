//! Text processing and credential rules for a reading-based language-learning
//! service: segmentation of article text into tokens, the lexical index built
//! over those tokens, article assembly, the vocabulary a user records, and
//! the decisions behind issuing, verifying and renewing access tokens.

pub mod article;
pub mod auth;
pub mod error;
pub mod index;
pub mod json;
pub mod lang;
pub mod models;
pub mod vocabulary;
