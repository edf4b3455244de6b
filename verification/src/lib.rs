//! Verified core of a Matrix chat client: storage planning, message and
//! timeline handling, composer input analysis and the small pieces of
//! presentation logic that decide what the interface shows.

pub mod attachments;
pub mod chars;
pub mod client;
pub mod composer;
pub mod display;
pub mod emoji_picker;
pub mod gifs;
pub mod logs;
pub mod search;
pub mod space_search;
pub mod login;
pub mod storage;
pub mod message;
pub mod outside;
pub mod raw_event;
pub mod spans;
pub mod sync_loop;
pub mod timeline;
pub mod token;
