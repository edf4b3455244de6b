//! Presentation decisions: the texts, labels and flags that the interface
//! derives from timeline items, settings and counts.

pub mod numbers;
pub mod system;
pub mod event;
pub mod dates;
pub mod typing;
pub mod sidebar;
pub mod preview;
pub mod calls;
pub mod profile;
pub mod audio;
