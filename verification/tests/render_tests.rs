use mini_ls::create_fileinfo;
use mini_ls::format_timestamp;
use mini_ls::resolve_group;
use mini_ls::resolve_user;
use mini_ls::Config;
use mini_ls::FileInfo;
use mini_ls::FileType;
use mini_ls::LSDisplay;

const BOLD_BLUE: &str = "\x1b[1;38;5;12m";
const BOLD_CYAN: &str = "\x1b[1;38;5;14m";
const RESET: &str = "\x1b[0m";

fn plain_entry(name: &str) -> FileInfo {
    FileInfo::new(
        "-rw-r--r--".to_string(),
        1,
        "root".to_string(),
        "root".to_string(),
        0,
        "Jan 01 00:00".to_string(),
        name.to_string(),
        FileType::File,
    )
}

fn names_of(printer: &LSDisplay) -> Vec<String> {
    printer.entries.iter().map(|e| e.file_name()).collect()
}

#[test]
fn sort_default_case_insensitive() {
    let entries = vec![plain_entry("b"), plain_entry("A"), plain_entry("c")];
    let printer = LSDisplay::new(Config::new(), entries);
    let expected = vec!["A".to_string(), "b".to_string(), "c".to_string()];
    assert_eq!(names_of(&printer), expected);
}

#[test]
fn sort_reversed() {
    let entries = vec![plain_entry("b"), plain_entry("A"), plain_entry("c")];
    let mut config = Config::new();
    config.set_flag('r');
    let printer = LSDisplay::new(config, entries);
    let expected = vec!["c".to_string(), "b".to_string(), "A".to_string()];
    assert_eq!(names_of(&printer), expected);
}

#[test]
fn sort_folds_case() {
    // By raw scalar values "B" < "a"; the case-insensitive order is "a", "B".
    let entries = vec![plain_entry("B"), plain_entry("a")];
    let printer = LSDisplay::new(Config::new(), entries);
    let expected = vec!["a".to_string(), "B".to_string()];
    assert_eq!(names_of(&printer), expected);
}

#[test]
fn hidden_entry_filtered_by_default() {
    let entries = vec![plain_entry(".hidden"), plain_entry("b")];
    let printer = LSDisplay::new(Config::new(), entries);
    // The hidden entry is still in the working set, just not rendered.
    assert_eq!(printer.entries.len(), 2);
    assert_eq!(printer.render(), "b  ");
}

#[test]
fn hidden_entry_shown_and_sorted_with_flag() {
    let entries = vec![plain_entry("b"), plain_entry(".hidden")];
    let mut config = Config::new();
    config.set_flag('a');
    let printer = LSDisplay::new(config, entries);
    assert_eq!(printer.render(), ".hidden  b  ");
}

#[test]
fn render_is_idempotent() {
    let entries = vec![plain_entry(".hidden"), plain_entry("b"), plain_entry("A")];
    let mut config = Config::new();
    config.set_flag('l');
    let printer = LSDisplay::new(config, entries);
    assert_eq!(printer.render(), printer.render());
}

#[test]
fn long_line_layout() {
    let fi = FileInfo::new(
        "-rw-r--r--".to_string(),
        1,
        "root".to_string(),
        "root".to_string(),
        123,
        "Jan 01 00:00".to_string(),
        "x".to_string(),
        FileType::File,
    );
    assert_eq!(fi.long(), "-rw-r--r--  1  root  root  123 Jan 01 00:00 x");
}

#[test]
fn long_line_wide_fields_unpadded() {
    let fi = FileInfo::new(
        "-rw-r--r--".to_string(),
        100,
        "someuser".to_string(),
        "somegroup".to_string(),
        123456,
        "Nov 14 22:13".to_string(),
        "y".to_string(),
        FileType::File,
    );
    assert_eq!(
        fi.long(),
        "-rw-r--r-- 100 someuser somegroup 123456 Nov 14 22:13 y"
    );
}

#[test]
fn long_line_colors_directory() {
    let fi = FileInfo::new(
        "drwxr-xr-x".to_string(),
        2,
        "root".to_string(),
        "root".to_string(),
        0,
        "Jan 01 00:00".to_string(),
        "dir".to_string(),
        FileType::Dir,
    );
    let expected = format!(
        "drwxr-xr-x  2  root  root    0 Jan 01 00:00 {BOLD_BLUE}dir{RESET}"
    );
    assert_eq!(fi.long(), expected);
}

#[test]
fn long_line_symlink_shows_target() {
    let fi = FileInfo::new(
        "lrwxrwxrwx".to_string(),
        1,
        "root".to_string(),
        "root".to_string(),
        6,
        "Jan 01 00:00".to_string(),
        "link".to_string(),
        FileType::Symlink("target".to_string()),
    );
    let expected = format!(
        "lrwxrwxrwx  1  root  root    6 Jan 01 00:00 {BOLD_CYAN}link{RESET} -> target"
    );
    assert_eq!(fi.long(), expected);
}

#[test]
fn short_form_colors_by_type() {
    let dir = FileInfo::new(
        "drwxr-xr-x".to_string(),
        2,
        "root".to_string(),
        "root".to_string(),
        0,
        "Jan 01 00:00".to_string(),
        "dir".to_string(),
        FileType::Dir,
    );
    let link = FileInfo::new(
        "lrwxrwxrwx".to_string(),
        1,
        "root".to_string(),
        "root".to_string(),
        0,
        "Jan 01 00:00".to_string(),
        "link".to_string(),
        FileType::Symlink("t".to_string()),
    );
    let file = plain_entry("file");
    assert_eq!(dir.short(), format!("{BOLD_BLUE}dir{RESET}"));
    assert_eq!(link.short(), format!("{BOLD_CYAN}link{RESET}"));
    assert_eq!(file.short(), "file");
}

#[test]
fn long_mode_renders_one_line_per_entry() {
    let entries = vec![plain_entry("b"), plain_entry("a")];
    let mut config = Config::new();
    config.set_flag('l');
    let printer = LSDisplay::new(config, entries);
    let out = printer.render();
    assert_eq!(out.matches('\n').count(), 2);
    assert!(out.ends_with('\n'));
}

#[test]
fn unknown_user_falls_back() {
    assert_eq!(resolve_user(None), "Unknown user".to_string());
    assert_eq!(resolve_user(Some("alice".to_string())), "alice".to_string());
    assert_eq!(resolve_group(None), "Unknown group".to_string());
    assert_eq!(resolve_group(Some("wheel".to_string())), "wheel".to_string());
}

#[test]
fn identity_resolution_never_fails() {
    // Whatever the machine's identity database holds, the lookup succeeds.
    assert!(mini_ls::get_owner_and_group_names(u32::MAX - 1, u32::MAX - 1).is_ok());
    assert!(mini_ls::get_owner_and_group_names(0, 0).is_ok());
}

#[test]
fn timestamp_epoch() {
    assert_eq!(format_timestamp(0), Some("Jan 01 00:00".to_string()));
}

#[test]
fn timestamp_known_instant() {
    // 2023-11-14 22:13:20 UTC
    assert_eq!(format_timestamp(1700000000), Some("Nov 14 22:13".to_string()));
}

#[test]
fn timestamp_out_of_range() {
    assert_eq!(format_timestamp(i64::MAX), None);
}

#[test]
fn create_fileinfo_fills_fields() {
    let fi = create_fileinfo(
        FileType::File,
        420, // 0o644
        1,
        0,
        0,
        5,
        0,
        "f".to_string(),
    )
    .unwrap();
    assert_eq!(fi.permissions, "-rw-r--r--".to_string());
    assert_eq!(fi.modified, "Jan 01 00:00".to_string());
    assert_eq!(fi.link_count, 1);
    assert_eq!(fi.size, 5);
    assert_eq!(fi.name, "f".to_string());
}

#[test]
fn create_fileinfo_rejects_unformattable_time() {
    let r = create_fileinfo(
        FileType::File,
        420,
        1,
        0,
        0,
        5,
        i64::MAX,
        "f".to_string(),
    );
    assert!(r.is_err());
}

#[test]
fn text_helpers() {
    assert_eq!(mini_ls::u64_to_dec(0), "0".to_string());
    assert_eq!(mini_ls::u64_to_dec(12345), "12345".to_string());
    assert_eq!(mini_ls::pad_left("ab", 5), "   ab".to_string());
    assert_eq!(mini_ls::pad_left("abcdef", 2), "abcdef".to_string());
    assert!(mini_ls::str_le("a", "b"));
    assert!(!mini_ls::str_le("b", "a"));
    assert!(mini_ls::str_le("", "a"));
    assert!(!mini_ls::str_le("ab", "a"));
    assert!(mini_ls::str_le("ab", "ab"));
}

#[test]
fn classify_entry_decision() {
    assert_eq!(mini_ls::classify_entry(true, false, None), Ok(FileType::Dir));
    assert_eq!(mini_ls::classify_entry(false, true, None), Ok(FileType::File));
    assert_eq!(
        mini_ls::classify_entry(false, false, Some("t".to_string())),
        Ok(FileType::Symlink("t".to_string()))
    );
    assert!(mini_ls::classify_entry(false, false, None).is_err());
}

#[test]
fn assemble_fileinfo_resolves_identity() {
    let fi = mini_ls::assemble_fileinfo(
        FileType::File,
        420,
        1,
        None,
        Some("wheel".to_string()),
        0,
        0,
        "f".to_string(),
    )
    .unwrap();
    assert_eq!(fi.owner, "Unknown user".to_string());
    assert_eq!(fi.group, "wheel".to_string());
}
