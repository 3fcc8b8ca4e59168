//! A small directory-listing library: it decodes POSIX permission bits into
//! the classic ten-character string, parses `ls`-style flag arguments, turns
//! raw per-entry metadata into display records, and renders those records in a
//! short or a long format, sorted case-insensitively and with hidden entries
//! filtered out on demand.

pub mod config;
pub mod entry;
pub mod identity;
pub mod perms;
pub mod render;
pub mod text;
pub mod timefmt;

pub use config::Config;
pub use entry::assemble_fileinfo;
pub use entry::classify_entry;
pub use entry::create_fileinfo;
pub use entry::FileInfo;
pub use entry::FileType;
pub use identity::get_owner_and_group_names;
pub use identity::resolve_group;
pub use identity::resolve_user;
pub use perms::get_mode;
pub use perms::get_perm_str;
pub use render::reverse_entries;
pub use render::sort_entries;
pub use render::LSDisplay;
pub use text::pad_left;
pub use text::str_le;
pub use text::u64_to_dec;
pub use timefmt::format_timestamp;
