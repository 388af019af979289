//! The text of a directory listing: one line per entry, in the style of
//! `ls -l`.

use vstd::prelude::*;
use crate::bytes::{append, decimal_digits, push_decimal};
use crate::command::SP;
use crate::frame::{CR, LF};

verus! {

/// The file-type bits of a mode, and their values (as on Linux).
pub const S_IFMT: u32 = 0o170000;
pub const S_IFSOCK: u32 = 0o140000;
pub const S_IFLNK: u32 = 0o120000;
pub const S_IFBLK: u32 = 0o060000;
pub const S_IFDIR: u32 = 0o040000;
pub const S_IFCHR: u32 = 0o020000;
pub const S_IFIFO: u32 = 0o010000;

/// The permission bits of a mode.
pub const S_IRUSR: u32 = 0o400;
pub const S_IWUSR: u32 = 0o200;
pub const S_IXUSR: u32 = 0o100;
pub const S_IRGRP: u32 = 0o040;
pub const S_IWGRP: u32 = 0o020;
pub const S_IXGRP: u32 = 0o010;
pub const S_IROTH: u32 = 0o004;
pub const S_IWOTH: u32 = 0o002;
pub const S_IXOTH: u32 = 0o001;

/// The letter for the file type of `mode`.
pub open spec fn type_letter(mode: u32) -> u8 {
    let f = mode & S_IFMT;
    if f == S_IFDIR {
        100  // d
    } else if f == S_IFLNK {
        108  // l
    } else if f == S_IFSOCK {
        115  // s
    } else if f == S_IFBLK {
        98  // b
    } else if f == S_IFCHR {
        99  // c
    } else if f == S_IFIFO {
        112  // p
    } else {
        45  // -
    }
}

/// `letter` if `bit` is set in `mode`, else `-`.
pub open spec fn flag(mode: u32, bit: u32, letter: u8) -> u8 {
    if mode & bit != 0 {
        letter
    } else {
        45
    }
}

/// The `rwx` triplet of one class of users.
pub open spec fn triplet_text(mode: u32, read: u32, write: u32, execute: u32) -> Seq<u8> {
    seq![flag(mode, read, 114), flag(mode, write, 119), flag(mode, execute, 120)]
}

/// The ten-letter permission text, such as `drwxr-xr-x`.
pub open spec fn permissions_text(mode: u32) -> Seq<u8> {
    seq![type_letter(mode)] + triplet_text(mode, S_IRUSR, S_IWUSR, S_IXUSR) + triplet_text(
        mode,
        S_IRGRP,
        S_IWGRP,
        S_IXGRP,
    ) + triplet_text(mode, S_IROTH, S_IWOTH, S_IXOTH)
}

fn file_type(mode: u32) -> (r: u8)
    ensures
        r == type_letter(mode),
{
    let f = mode & S_IFMT;
    if f == S_IFDIR {
        100
    } else if f == S_IFLNK {
        108
    } else if f == S_IFSOCK {
        115
    } else if f == S_IFBLK {
        98
    } else if f == S_IFCHR {
        99
    } else if f == S_IFIFO {
        112
    } else {
        45
    }
}

fn triplet(out: &mut Vec<u8>, mode: u32, read: u32, write: u32, execute: u32)
    ensures
        final(out)@ == old(out)@ + triplet_text(mode, read, write, execute),
{
    out.push(if mode & read != 0 { 114 } else { 45 });
    out.push(if mode & write != 0 { 119 } else { 45 });
    out.push(if mode & execute != 0 { 120 } else { 45 });
    assert(out@ =~= old(out)@ + triplet_text(mode, read, write, execute));
}

/// The permission text of `mode`, such as `drwxr-xr-x`.
pub fn parse_permissions(mode: u32) -> (r: Vec<u8>)
    ensures
        r@ == permissions_text(mode),
{
    let mut r: Vec<u8> = Vec::new();
    r.push(file_type(mode));
    triplet(&mut r, mode, S_IRUSR, S_IWUSR, S_IXUSR);
    triplet(&mut r, mode, S_IRGRP, S_IWGRP, S_IXGRP);
    triplet(&mut r, mode, S_IROTH, S_IWOTH, S_IXOTH);
    assert(r@ =~= permissions_text(mode));
    r
}

/// What a listing line shows of a directory entry, as plain values.
pub struct EntryInfo {
    pub mode: u32,
    pub nlink: u64,
    pub user: Vec<u8>,
    pub group: Vec<u8>,
    pub size: u64,
    /// The modification time: whole seconds since the Unix epoch, and
    /// nanoseconds past them.
    pub modified_secs: i64,
    pub modified_nanos: u32,
    pub name: Vec<u8>,
}

/// The name as listed: in single quotes if it holds a space.
pub open spec fn listed_name(name: Seq<u8>) -> Seq<u8> {
    if exists|i: int| 0 <= i < name.len() && name[i] == SP {
        seq![39u8] + name + seq![39u8]
    } else {
        name
    }
}

/// The listing line of an entry whose modification time reads `modified`:
/// permissions, link count, owner, group, size, time and name, separated by
/// spaces, ending in `CR LF`.
pub open spec fn entry_line(e: EntryInfo, modified: Seq<u8>) -> Seq<u8> {
    permissions_text(e.mode) + seq![SP] + decimal_digits(e.nlink as nat) + seq![SP] + e.user@
        + seq![SP] + e.group@ + seq![SP] + decimal_digits(e.size as nat) + seq![SP] + modified
        + seq![SP] + listed_name(e.name@) + seq![CR, LF]
}

/// Times within 10^12 seconds (about 31,700 years) of the Unix epoch,
/// with fewer than 10^9 nanoseconds.
pub open spec fn time_in_range(secs: i64, nanos: u32) -> bool {
    -1_000_000_000_000 <= secs <= 1_000_000_000_000 && nanos < 1_000_000_000
}

/// Relies on chrono: `DateTime::<Utc>::from_timestamp`, which returns
/// `None` only for seconds outside its range of about 262,000 years either
/// side of the epoch or for invalid nanoseconds (below 10^9 are always
/// valid), then `with_timezone(&Local)` and `format("%b %d %H:%M")`, whose
/// documentation gives three letters for the month and two digits for each
/// number. The text depends on the machine's time-zone data, which chrono
/// reads (and on which, if it is corrupt, it panics).
#[verifier::external_body]
fn modified_text(secs: i64, nanos: u32) -> (r: Option<Vec<u8>>)
    ensures
        r matches Some(t) ==> t@.len() == 12,
        time_in_range(secs, nanos) ==> r is Some,
{
    match chrono::DateTime::<chrono::Utc>::from_timestamp(secs, nanos) {
        Some(t) => Some(t.with_timezone(&chrono::Local).format("%b %d %H:%M").to_string().into_bytes()),
        None => None,
    }
}

fn has_space(s: &[u8]) -> (r: bool)
    ensures
        r == exists|i: int| 0 <= i < s@.len() && s@[i] == SP,
{
    let mut i: usize = 0;
    while i < s.len()
        invariant
            0 <= i <= s@.len(),
            forall|j: int| 0 <= j < i ==> s@[j] != SP,
        decreases s@.len() - i,
    {
        if s[i] == SP {
            return true;
        }
        i = i + 1;
    }
    false
}

/// The listing line of one directory entry, with its modification time in
/// local time; `None` if that time cannot be shown, which happens only
/// outside `time_in_range`.
pub fn display(item: &EntryInfo) -> (r: Option<Vec<u8>>)
    ensures
        r matches Some(l) ==> exists|m: Seq<u8>| m.len() == 12 && l@ == entry_line(*item, m),
        time_in_range(item.modified_secs, item.modified_nanos) ==> r is Some,
{
    match modified_text(item.modified_secs, item.modified_nanos) {
        Some(t) => Some(format_entry(item, t.as_slice())),
        None => None,
    }
}

/// The listing line of one directory entry whose modification time reads
/// `modified`.
pub fn format_entry(item: &EntryInfo, modified: &[u8]) -> (r: Vec<u8>)
    ensures
        r@ == entry_line(*item, modified@),
{
    let mut r = parse_permissions(item.mode);
    r.push(SP);
    push_decimal(&mut r, item.nlink);
    r.push(SP);
    append(&mut r, item.user.as_slice());
    r.push(SP);
    append(&mut r, item.group.as_slice());
    r.push(SP);
    push_decimal(&mut r, item.size);
    r.push(SP);
    append(&mut r, modified);
    r.push(SP);
    let quote = has_space(item.name.as_slice());
    if quote {
        r.push(39);
    }
    append(&mut r, item.name.as_slice());
    if quote {
        r.push(39);
    }
    r.push(CR);
    r.push(LF);
    assert(r@ =~= entry_line(*item, modified@));
    r
}

} // verus!
