//! The commands, one file each.

pub mod deploy;
pub mod info;
pub mod ssh;

pub use self::deploy::deploy;
pub use info::info;
pub use ssh::ssh;
