//! The three operations of the escrow.
pub mod cancel;
pub mod init;
pub mod transfer;

pub use crate::instructions::cancel::{process_cancel, Cancel};
pub use crate::instructions::init::{process_init, Init, InitFields};
pub use crate::instructions::transfer::{process_transfer, Transfer};
