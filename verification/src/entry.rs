//! Entry records: the tag that classifies a directory entry and the
//! per-entry display record that the renderer consumes.

use vstd::prelude::*;
use vstd::string::StringExecFns;

use crate::identity::lookup_group_name;
use crate::identity::lookup_user_name;
use crate::identity::resolve_group;
use crate::identity::resolve_user;
use crate::perms::get_mode;
use crate::perms::spec_mode_str;
use crate::text::dec_digits;
use crate::text::pad_left;
use crate::text::spec_pad_left;
use crate::text::u64_to_dec;
use crate::timefmt::format_timestamp;
use crate::timefmt::spec_time_label;
use crate::timefmt::utc_parts_of;
use crate::timefmt::MAX_FORMAT_SECS;

verus! {

/// What kind of entry a record describes. A symbolic link carries its
/// resolved target path, already decoded as text: a link whose target cannot
/// be decoded is rejected during extraction rather than carried along.
#[derive(Clone, PartialEq, Debug)]
pub enum FileType {
    File,
    Dir,
    Symlink(String),
}

/// One directory entry, normalized for display: every field is already in
/// the form the renderer prints.
#[derive(Clone)]
pub struct FileInfo {
    pub permissions: String,
    pub link_count: u64,
    pub owner: String,
    pub group: String,
    pub size: u64,
    pub modified: String,
    pub name: String,
    pub file_type: FileType,
}

impl FileInfo {
    /// Assembles a record from its already-formatted fields.
    pub fn new(
        permissions: String,
        link_count: u64,
        owner: String,
        group: String,
        size: u64,
        modified: String,
        name: String,
        file_type: FileType,
    ) -> (r: FileInfo)
        ensures
            r == (FileInfo {
                permissions,
                link_count,
                owner,
                group,
                size,
                modified,
                name,
                file_type,
            }),
    {
        FileInfo { permissions, link_count, owner, group, size, modified, name, file_type }
    }

    /// The entry's name.
    pub fn file_name(&self) -> (r: String)
        ensures
            r@ == self.name@,
    {
        self.name.clone()
    }

    /// The long, one-line rendering of the entry.
    pub fn long(&self) -> (r: String)
        ensures
            r@ == spec_long(*self),
    {
        let mut r = self.permissions.clone();
        r.append(" ");
        let links = u64_to_dec(self.link_count);
        r.append(pad_left(links.as_str(), 2).as_str());
        r.append(" ");
        r.append(pad_left(self.owner.as_str(), 5).as_str());
        r.append(" ");
        r.append(pad_left(self.group.as_str(), 5).as_str());
        r.append(" ");
        let size = u64_to_dec(self.size);
        r.append(pad_left(size.as_str(), 4).as_str());
        r.append(" ");
        r.append(self.modified.as_str());
        r.append(" ");
        r.append(color_open(&self.file_type));
        r.append(self.name.as_str());
        r.append(color_close(&self.file_type));
        if let FileType::Symlink(target) = &self.file_type {
            r.append(" -> ");
            r.append(target.as_str());
        }
        proof {
            assert(r@ =~= spec_long(*self));
        }
        r
    }

    /// The short rendering of the entry: just its name, colored by type.
    pub fn short(&self) -> (r: String)
        ensures
            r@ == spec_short(*self),
    {
        let mut r = String::new();
        r.append(color_open(&self.file_type));
        r.append(self.name.as_str());
        r.append(color_close(&self.file_type));
        proof {
            assert(r@ =~= spec_short(*self));
        }
        r
    }
}

/// The color code a name is wrapped in, keyed by the file type: bold blue
/// for a directory, bold cyan for a symbolic link, nothing for a regular
/// file.
pub open spec fn spec_color_open(t: FileType) -> Seq<char> {
    match t {
        FileType::Dir => BOLD_BLUE@,
        FileType::File => Seq::empty(),
        FileType::Symlink(_) => BOLD_CYAN@,
    }
}

/// The closing reset code after a colored name; a regular file, being
/// uncolored, gets none.
pub open spec fn spec_color_close(t: FileType) -> Seq<char> {
    match t {
        FileType::File => Seq::empty(),
        _ => RESET@,
    }
}

/// The opening color code for a file type.
fn color_open(t: &FileType) -> (r: &'static str)
    ensures
        r@ == spec_color_open(*t),
{
    proof {
        reveal_strlit("");
    }
    match t {
        FileType::Dir => BOLD_BLUE,
        FileType::File => {
            proof {
                assert(""@ =~= Seq::<char>::empty());
            }
            ""
        },
        FileType::Symlink(_) => BOLD_CYAN,
    }
}

/// The closing color code for a file type.
fn color_close(t: &FileType) -> (r: &'static str)
    ensures
        r@ == spec_color_close(*t),
{
    proof {
        reveal_strlit("");
    }
    match t {
        FileType::File => {
            proof {
                assert(""@ =~= Seq::<char>::empty());
            }
            ""
        },
        _ => RESET,
    }
}

/// The ANSI escape for bold blue, used for directory names.
pub const BOLD_BLUE: &'static str = "\x1b[1;38;5;12m";

/// The ANSI escape for bold cyan, used for symbolic-link names.
pub const BOLD_CYAN: &'static str = "\x1b[1;38;5;14m";

/// The ANSI escape that resets all attributes.
pub const RESET: &'static str = "\x1b[0m";

/// The name part of a long rendering: the colored name, and for a symbolic
/// link additionally ` -> ` and its target.
pub open spec fn spec_colored_name(fi: FileInfo) -> Seq<char> {
    match fi.file_type {
        FileType::Symlink(target) => spec_short(fi) + " -> "@ + target@,
        _ => spec_short(fi),
    }
}

/// The long, one-line rendering: permissions, link count right-aligned to
/// width 2, owner and group right-aligned to width 5, size right-aligned to
/// width 4, the modification label, and the colored name, separated by
/// single spaces.
pub open spec fn spec_long(fi: FileInfo) -> Seq<char> {
    fi.permissions@ + " "@ + spec_pad_left(dec_digits(fi.link_count as int), 2) + " "@
        + spec_pad_left(fi.owner@, 5) + " "@ + spec_pad_left(fi.group@, 5) + " "@ + spec_pad_left(
        dec_digits(fi.size as int),
        4,
    ) + " "@ + fi.modified@ + " "@ + spec_colored_name(fi)
}

/// The short rendering: the name alone, wrapped in the color codes its type
/// selects; a regular file carries no codes at all.
pub open spec fn spec_short(fi: FileInfo) -> Seq<char> {
    spec_color_open(fi.file_type) + fi.name@ + spec_color_close(fi.file_type)
}

/// Classifies one directory entry from what the filesystem reported: an
/// entry cached as a directory is a directory, else one cached as a regular
/// file is a file, and anything else must be a symbolic link whose resolved
/// target is handed in — with no decoded target, classification fails.
pub fn classify_entry(is_dir: bool, is_file: bool, link_target: Option<String>) -> (r: Result<
    FileType,
    &'static str,
>)
    ensures
        is_dir ==> r == Result::<FileType, &'static str>::Ok(FileType::Dir),
        !is_dir && is_file ==> r == Result::<FileType, &'static str>::Ok(FileType::File),
        !is_dir && !is_file ==> (link_target matches Some(t) ==> r == Result::<
            FileType,
            &'static str,
        >::Ok(FileType::Symlink(t))),
        !is_dir && !is_file && link_target is None ==> r is Err,
{
    if is_dir {
        Ok(FileType::Dir)
    } else if is_file {
        Ok(FileType::File)
    } else {
        match link_target {
            Some(target) => Ok(FileType::Symlink(target)),
            None => Err("could not get symlink target"),
        }
    }
}

/// Builds the display record for one entry from its raw metadata and the
/// outcome of the two identity lookups: the mode is decoded into the
/// permission string, a found owner or group name is taken as is and a
/// missing one degrades to its sentinel label, and the modification time is
/// formatted as a UTC label. Fails exactly when the timestamp cannot be
/// rendered.
pub fn assemble_fileinfo(
    file_type: FileType,
    mode: u32,
    link_count: u64,
    owner: Option<String>,
    group: Option<String>,
    size: u64,
    modified_secs: i64,
    name: String,
) -> (r: Result<FileInfo, &'static str>)
    ensures
        0 <= modified_secs <= MAX_FORMAT_SECS ==> r is Ok,
        r matches Ok(fi) ==> fi.permissions@ == spec_mode_str(file_type, mode as int),
        r matches Ok(fi) ==> fi.link_count == link_count,
        r matches Ok(fi) ==> fi.size == size,
        r matches Ok(fi) ==> fi.name@ == name@,
        r matches Ok(fi) ==> fi.file_type == file_type,
        r matches Ok(fi) ==> fi.modified@ == spec_time_label(utc_parts_of(modified_secs as int)),
        r matches Ok(fi) ==> (owner matches Some(n) ==> fi.owner@ == n@),
        r matches Ok(fi) ==> (owner is None ==> fi.owner@ == "Unknown user"@),
        r matches Ok(fi) ==> (group matches Some(n) ==> fi.group@ == n@),
        r matches Ok(fi) ==> (group is None ==> fi.group@ == "Unknown group"@),
{
    let permissions = get_mode(&file_type, mode);
    let owner_name = resolve_user(owner);
    let group_name = resolve_group(group);
    let modified = match format_timestamp(modified_secs) {
        Some(m) => m,
        None => {
            return Err("could not format the modification time");
        },
    };
    Ok(
        FileInfo::new(
            permissions,
            link_count,
            owner_name,
            group_name,
            size,
            modified,
            name,
            file_type,
        ),
    )
}

/// Builds the display record for one entry from its raw metadata: as
/// `assemble_fileinfo`, with the owner and group ids first looked up in the
/// system identity database, so which names come back depends on the
/// machine. Fails exactly when the timestamp cannot be rendered.
pub fn create_fileinfo(
    file_type: FileType,
    mode: u32,
    link_count: u64,
    owner_id: u32,
    group_id: u32,
    size: u64,
    modified_secs: i64,
    name: String,
) -> (r: Result<FileInfo, &'static str>)
    ensures
        0 <= modified_secs <= MAX_FORMAT_SECS ==> r is Ok,
        r matches Ok(fi) ==> fi.permissions@ == spec_mode_str(file_type, mode as int),
        r matches Ok(fi) ==> fi.link_count == link_count,
        r matches Ok(fi) ==> fi.size == size,
        r matches Ok(fi) ==> fi.name@ == name@,
        r matches Ok(fi) ==> fi.file_type == file_type,
        r matches Ok(fi) ==> fi.modified@ == spec_time_label(utc_parts_of(modified_secs as int)),
{
    let owner = lookup_user_name(owner_id);
    let group = lookup_group_name(group_id);
    assemble_fileinfo(file_type, mode, link_count, owner, group, size, modified_secs, name)
}

} // verus!
