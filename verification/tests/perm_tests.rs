use mini_ls::get_mode;
use mini_ls::get_perm_str;
use mini_ls::FileType;

#[test]
fn file_mode_777() {
    let mode: u32 = 33279;
    let mode = get_mode(&FileType::File, mode);
    assert_eq!("-rwxrwxrwx".to_string(), mode)
}

#[test]
fn file_mode_465() {
    let mode: u32 = 33077;
    let mode = get_mode(&FileType::File, mode);
    assert_eq!("-r--rw-r-x".to_string(), mode)
}

#[test]
fn file_mode_000() {
    let mode: u32 = 32768;
    let mode = get_mode(&FileType::File, mode);
    assert_eq!("----------".to_string(), mode)
}

#[test]
fn perm_table_values() {
    assert_eq!(get_perm_str(0), "---".to_string());
    assert_eq!(get_perm_str(1), "--x".to_string());
    assert_eq!(get_perm_str(2), "-w-".to_string());
    assert_eq!(get_perm_str(4), "r--".to_string());
    assert_eq!(get_perm_str(5), "r-x".to_string());
    assert_eq!(get_perm_str(6), "rw-".to_string());
    assert_eq!(get_perm_str(7), "rwx".to_string());
}

#[test]
fn perm_value_three_is_a_gap() {
    assert_eq!(get_perm_str(3), "".to_string());
    // 0o033: owner triplet 0, group and other triplets both 3.
    assert_eq!(get_mode(&FileType::File, 27), "----".to_string());
}

#[test]
fn mode_first_char_follows_type() {
    assert_eq!(get_mode(&FileType::Dir, 493), "drwxr-xr-x".to_string());
    assert_eq!(
        get_mode(&FileType::Symlink("t".to_string()), 511),
        "lrwxrwxrwx".to_string()
    );
    assert_eq!(get_mode(&FileType::File, 420), "-rw-r--r--".to_string());
}
