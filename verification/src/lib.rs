//! ChatGPT OAuth sign-in for a terminal coding agent: the `/login` slash
//! command, the OAuth callback and device-code flows, and the handling of
//! the token set that the OAuth server returns.

pub mod text;
pub mod json;
pub mod encoding;
pub mod jwt;
pub mod credentials;
pub mod oauth;
pub mod login_command;
