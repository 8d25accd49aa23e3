//! Recoverable deletion ("the bin") for agent threads, and bounded inline
//! terminal images carried as private marker characters.

pub mod text;
pub mod thread_id;
pub mod time;
pub mod rpc;
pub mod trash;
pub mod purge;
pub mod image_ops;
pub mod rich_media;
pub mod bin_view;
