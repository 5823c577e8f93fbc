//! Generate `/etc/fstab` entries from the live mount table and swap table.
//!
//! The library holds the whole transformation: parsing mount-table and
//! swap-table lines, the escape dialects, device identifier resolution,
//! the filter policy, path and pass normalisation, and the rendering of
//! fstab entries. Running the outside utilities and printing is left to
//! the caller, which hands the library their textual output.
pub mod device;
pub mod error;
pub mod filter;
pub mod fstab;
pub mod mount;
pub mod pipeline;
pub mod swap;
pub mod text;

pub use device::{get_device_identifier, IdType};
pub use error::{ErrorCode, RecfstabError};
pub use filter::{filter_options, is_pseudo_filesystem, is_under_root};
pub use fstab::{determine_pass_number, escape_fstab, make_fstab_target};
pub use mount::{parse_mounts, MountInfo};
pub use swap::{parse_swaps, SwapInfo};
