//! Data model and request logic behind the comment and user-post JSON endpoints.
pub mod comment_page;
pub mod feed;
pub mod model;
pub mod number;
pub mod post_fetch;
pub mod profile;
pub mod query;
pub mod text;
pub mod thread;
pub mod thread_page;
pub mod user_posts;
