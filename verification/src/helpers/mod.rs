//! Conversions and response buffers that several request handlers use.

pub mod info_builders;
pub mod strings;
pub mod time;

pub use info_builders::{build_directory_info, build_file_info, build_fs_info, build_security_info};
pub use strings::{decode_utf16le, extract_share_name, parse_utf16_string};
pub use time::{current_filetime, filetime_to_unix};
