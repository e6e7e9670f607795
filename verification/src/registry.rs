//! The rules of the Void package registry: what it accepts, who may publish
//! what, and the pages and replies it builds.
pub mod validate;
pub mod files;
pub mod html;
pub mod inspect;
pub mod accounts;
pub mod publish;
pub mod replies;
