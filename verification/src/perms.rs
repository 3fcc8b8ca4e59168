//! The permission decoder: a raw numeric mode becomes the classic
//! ten-character permission string, one leading type character and three
//! three-character permission groups.

use vstd::prelude::*;
use vstd::string::StringExecFns;

use crate::entry::FileType;

verus! {

/// The symbolic form of one 3-bit permission value, by the fixed table
/// 0 to `---`, 1 to `--x`, 2 to `-w-`, 4 to `r--`, 5 to `r-x`, 6 to `rw-`,
/// 7 to `rwx`. The value 3 has no entry in the table and contributes
/// nothing to the permission string.
pub open spec fn spec_perm_str(p: int) -> Seq<char> {
    if p == 0 {
        "---"@
    } else if p == 1 {
        "--x"@
    } else if p == 2 {
        "-w-"@
    } else if p == 4 {
        "r--"@
    } else if p == 5 {
        "r-x"@
    } else if p == 6 {
        "rw-"@
    } else if p == 7 {
        "rwx"@
    } else {
        Seq::empty()
    }
}

/// The leading character of the permission string: `d` for a directory,
/// `l` for a symbolic link, `-` for a regular file.
pub open spec fn spec_type_char(t: FileType) -> Seq<char> {
    match t {
        FileType::Dir => "d"@,
        FileType::File => "-"@,
        FileType::Symlink(_) => "l"@,
    }
}

/// The full permission string of a mode: the type character followed by the
/// owner, group and other triplets, each decoded by `spec_perm_str`.
pub open spec fn spec_mode_str(t: FileType, mode: int) -> Seq<char> {
    spec_type_char(t) + spec_perm_str((mode / 64) % 8) + spec_perm_str((mode / 8) % 8)
        + spec_perm_str(mode % 8)
}

/// Decodes one 3-bit permission value by the fixed table.
pub fn get_perm_str(perm: u32) -> (r: String)
    ensures
        r@ == spec_perm_str(perm as int),
{
    match perm {
        0 => String::from_str("---"),
        1 => String::from_str("--x"),
        2 => String::from_str("-w-"),
        4 => String::from_str("r--"),
        5 => String::from_str("r-x"),
        6 => String::from_str("rw-"),
        7 => String::from_str("rwx"),
        _ => String::new(),
    }
}

/// Decodes a raw numeric mode into the ten-character permission string for
/// the given file type; the three permission triplets are the three low
/// octal digits of the mode.
pub fn get_mode(file_type: &FileType, mode: u32) -> (r: String)
    ensures
        r@ == spec_mode_str(*file_type, mode as int),
{
    let mut r = match file_type {
        FileType::Dir => String::from_str("d"),
        FileType::File => String::from_str("-"),
        FileType::Symlink(_) => String::from_str("l"),
    };
    let owner = get_perm_str((mode / 64) % 8);
    let group = get_perm_str((mode / 8) % 8);
    let other = get_perm_str(mode % 8);
    r.append(owner.as_str());
    r.append(group.as_str());
    r.append(other.as_str());
    r
}

/// For any mode whose three permission triplets all lie in the decoding
/// table's domain, the decoded string has exactly ten characters, and its
/// first character is determined by the file type alone.
pub proof fn lemma_mode_str_shape(t: FileType, mode: int)
    requires
        0 <= mode,
        (mode / 64) % 8 != 3,
        (mode / 8) % 8 != 3,
        mode % 8 != 3,
    ensures
        spec_mode_str(t, mode).len() == 10,
        spec_mode_str(t, mode)[0] == spec_type_char(t)[0],
        spec_type_char(t).len() == 1,
{
    reveal_strlit("---");
    reveal_strlit("--x");
    reveal_strlit("-w-");
    reveal_strlit("r--");
    reveal_strlit("r-x");
    reveal_strlit("rw-");
    reveal_strlit("rwx");
    reveal_strlit("d");
    reveal_strlit("-");
    reveal_strlit("l");
    assert(0 <= mode % 8 < 8);
    assert(0 <= (mode / 8) % 8 < 8);
    assert(0 <= (mode / 64) % 8 < 8);
}

} // verus!
