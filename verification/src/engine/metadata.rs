//! What the information overlay and the status line report of a file: its kind, size,
//! permissions, times and owner.

use crate::engine::identity::IdentityCache;
use crate::engine::width::spaces;
use crate::utils::{file_name_of, path_file_name, push_char};
use std::fmt::Write;
use crate::utils::clock::{duration_nanos, duration_secs, duration_subsec_nanos};
use std::time::{Duration, SystemTime};
use vstd::prelude::*;

verus! {

/// The type of a file as reported in its metadata.
#[derive(Debug, Clone, Copy, PartialEq, Eq, Structural)]
pub enum FileType {
    File,
    Directory,
    Symlink,
    Other,
}

} // verus!

verus! {

/// The name shown for a file type.
pub open spec fn file_type_text(t: FileType) -> Seq<char> {
    match t {
        FileType::File => "File"@,
        FileType::Directory => "Directory"@,
        FileType::Symlink => "Symlink"@,
        FileType::Other => "Other"@,
    }
}

/// The name shown for a file type.
pub fn format_file_type(file_type: &FileType) -> (r: &'static str)
    ensures
        r@ == file_type_text(*file_type),
{
    match file_type {
        FileType::File => "File",
        FileType::Directory => "Directory",
        FileType::Symlink => "Symlink",
        FileType::Other => "Other",
    }
}

/// What `humansize::format_size(n, DECIMAL)` writes for a byte count (such as `1.50 kB`).
pub uninterp spec fn decimal_size_text(n: u64) -> Seq<char>;

/// A byte count in decimal units (`humansize::format_size` with `DECIMAL`); the text is a
/// function of the count alone.
#[verifier::external_body]
fn format_size_decimal(n: u64) -> (r: String)
    ensures
        r@ == decimal_size_text(n),
{
    humansize::format_size(n, humansize::DECIMAL)
}

/// The size shown for a file: `-` for a directory or an unknown size, else the size in
/// decimal units.
pub fn format_file_size(size: Option<u64>, is_dir: bool) -> (r: String)
    ensures
        r@ == (if is_dir {
            "-"@
        } else {
            match size {
                Some(n) => decimal_size_text(n),
                None => "-"@,
            }
        }),
{
    if is_dir {
        String::from_str("-")
    } else {
        match size {
            Some(n) => format_size_decimal(n),
            None => String::from_str("-"),
        }
    }
}

} // verus!

verus! {

/// `std::time::SystemTime`, a time read from a file's metadata.
#[verifier::external_type_specification]
#[verifier::external_body]
pub struct ExSystemTime(SystemTime);

/// The width that the permission string is padded to.
pub const PERMS_WIDTH: usize = 10;

/// The letter that opens a permission string: `d` for a directory, `l` for a symbolic link,
/// `-` otherwise.
pub open spec fn kind_letter(is_dir: bool, is_symlink: bool) -> char {
    if is_dir {
        'd'
    } else if is_symlink {
        'l'
    } else {
        '-'
    }
}

/// The letter at position `i` (1 to 9) of a permission string when its bit is set: read,
/// write, execute, for the owner, the group and the others in turn.
pub open spec fn perm_letter(i: int) -> char {
    if (i - 1) % 3 == 0 {
        'r'
    } else if (i - 1) % 3 == 1 {
        'w'
    } else {
        'x'
    }
}

/// The character at position `i` of the permission string of `mode`: the kind letter first,
/// then for positions 1 to 9 the letter where bit `9 - i` of the mode is set, else `-`.
pub open spec fn perm_char(is_dir: bool, is_symlink: bool, mode: u32, i: int) -> char {
    if i == 0 {
        kind_letter(is_dir, is_symlink)
    } else if (mode >> ((9 - i) as u32)) & 1u32 != 0u32 {
        perm_letter(i)
    } else {
        '-'
    }
}

/// The permission string follows the mode bits of `chmod`: after the kind letter, `r`, `w` and
/// `x` for the owner (`0o400`, `0o200`, `0o100`), then for the group (`0o040`, `0o020`,
/// `0o010`), then for the others (`0o004`, `0o002`, `0o001`), each `-` where its bit is clear.
pub proof fn lemma_permission_bits(is_dir: bool, is_symlink: bool, mode: u32)
    ensures
        perm_char(is_dir, is_symlink, mode, 0) == kind_letter(is_dir, is_symlink),
        perm_char(is_dir, is_symlink, mode, 1) == (if mode & 0o400u32 != 0u32 { 'r' } else { '-' }),
        perm_char(is_dir, is_symlink, mode, 2) == (if mode & 0o200u32 != 0u32 { 'w' } else { '-' }),
        perm_char(is_dir, is_symlink, mode, 3) == (if mode & 0o100u32 != 0u32 { 'x' } else { '-' }),
        perm_char(is_dir, is_symlink, mode, 4) == (if mode & 0o040u32 != 0u32 { 'r' } else { '-' }),
        perm_char(is_dir, is_symlink, mode, 5) == (if mode & 0o020u32 != 0u32 { 'w' } else { '-' }),
        perm_char(is_dir, is_symlink, mode, 6) == (if mode & 0o010u32 != 0u32 { 'x' } else { '-' }),
        perm_char(is_dir, is_symlink, mode, 7) == (if mode & 0o004u32 != 0u32 { 'r' } else { '-' }),
        perm_char(is_dir, is_symlink, mode, 8) == (if mode & 0o002u32 != 0u32 { 'w' } else { '-' }),
        perm_char(is_dir, is_symlink, mode, 9) == (if mode & 0o001u32 != 0u32 { 'x' } else { '-' }),
{
    assert(((mode >> 8u32) & 1u32 != 0u32) == (mode & 0o400u32 != 0u32)) by (bit_vector);
    assert(((mode >> 7u32) & 1u32 != 0u32) == (mode & 0o200u32 != 0u32)) by (bit_vector);
    assert(((mode >> 6u32) & 1u32 != 0u32) == (mode & 0o100u32 != 0u32)) by (bit_vector);
    assert(((mode >> 5u32) & 1u32 != 0u32) == (mode & 0o040u32 != 0u32)) by (bit_vector);
    assert(((mode >> 4u32) & 1u32 != 0u32) == (mode & 0o020u32 != 0u32)) by (bit_vector);
    assert(((mode >> 3u32) & 1u32 != 0u32) == (mode & 0o010u32 != 0u32)) by (bit_vector);
    assert(((mode >> 2u32) & 1u32 != 0u32) == (mode & 0o004u32 != 0u32)) by (bit_vector);
    assert(((mode >> 1u32) & 1u32 != 0u32) == (mode & 0o002u32 != 0u32)) by (bit_vector);
    assert(((mode >> 0u32) & 1u32 != 0u32) == (mode & 0o001u32 != 0u32)) by (bit_vector);
}

/// The permission string of a file, as `ls -l` writes it (`drwxr-xr-x`): ten characters,
/// see `perm_char`.
pub fn permission_string(is_dir: bool, is_symlink: bool, mode: u32) -> (r: String)
    ensures
        r@.len() == 10,
        forall|i: int| 0 <= i < 10 ==> #[trigger] r@[i] == perm_char(is_dir, is_symlink, mode, i),
{
    let mut out = String::new();
    let first = if is_dir {
        'd'
    } else if is_symlink {
        'l'
    } else {
        '-'
    };
    push_char(&mut out, first);
    let mut i: u32 = 1;
    while i < 10
        invariant
            1 <= i <= 10,
            out@.len() == i,
            forall|j: int| 0 <= j < i ==> #[trigger] out@[j] == perm_char(is_dir, is_symlink, mode, j),
        decreases 10 - i,
    {
        let shift: u32 = 9 - i;
        let set = (mode >> shift) & 1u32 != 0u32;
        let letter = if (i - 1) % 3 == 0 {
            'r'
        } else if (i - 1) % 3 == 1 {
            'w'
        } else {
            'x'
        };
        let c = if set { letter } else { '-' };
        assert(c == perm_char(is_dir, is_symlink, mode, i as int));
        push_char(&mut out, c);
        i += 1;
    }
    out
}

/// A permission string padded with spaces to `PERMS_WIDTH` characters.
pub open spec fn padded_perms(attributes: Seq<char>) -> Seq<char> {
    if attributes.len() < PERMS_WIDTH {
        attributes + spaces((PERMS_WIDTH - attributes.len()) as nat)
    } else {
        attributes
    }
}

/// How far a time lies from the Unix epoch, as `SystemTime::duration_since(UNIX_EPOCH)` gives
/// it: `Ok` with the time since the epoch, or `Err` with the time before it.
pub uninterp spec fn epoch_distance(time: SystemTime) -> Result<Duration, Duration>;

/// How far `time` lies from the Unix epoch (`SystemTime::duration_since(UNIX_EPOCH)`, the
/// error's `duration` before it); a function of the time alone.
#[verifier::external_body]
fn since_epoch(time: &SystemTime) -> (r: Result<Duration, Duration>)
    ensures
        r == epoch_distance(*time),
{
    match time.duration_since(std::time::UNIX_EPOCH) {
        Ok(d) => Ok(d),
        Err(e) => Err(e.duration()),
    }
}

/// A Unix timestamp: seconds since the epoch (negative before it) and the nanoseconds after
/// that second.
pub open spec fn timestamp_of(since: Result<Duration, Duration>) -> Option<(i64, u32)> {
    match since {
        Ok(d) => {
            let secs = duration_nanos(d) / 1_000_000_000;
            if secs <= i64::MAX {
                Some((secs as i64, (duration_nanos(d) % 1_000_000_000) as u32))
            } else {
                None
            }
        },
        Err(d) => {
            let secs = duration_nanos(d) / 1_000_000_000;
            let nanos = duration_nanos(d) % 1_000_000_000;
            if secs > i64::MAX {
                None
            } else if nanos == 0 {
                Some(((-secs) as i64, 0u32))
            } else {
                Some(((-secs - 1) as i64, (1_000_000_000 - nanos) as u32))
            }
        },
    }
}

/// The Unix timestamp of a distance from the epoch (see `timestamp_of`); `None` where the
/// seconds do not fit in an `i64`.
pub fn timestamp_parts(since: &Result<Duration, Duration>) -> (r: Option<(i64, u32)>)
    ensures
        r == timestamp_of(*since),
        r matches Some((_, n)) ==> n < 1_000_000_000,
{
    match since {
        Ok(d) => {
            let secs = duration_secs(d);
            let nanos = duration_subsec_nanos(d);
            if secs <= i64::MAX as u64 {
                Some((secs as i64, nanos))
            } else {
                None
            }
        },
        Err(d) => {
            let secs = duration_secs(d);
            let nanos = duration_subsec_nanos(d);
            if secs > i64::MAX as u64 {
                None
            } else if nanos == 0 {
                Some((-(secs as i64), 0))
            } else {
                Some((-(secs as i64) - 1, 1_000_000_000 - nanos))
            }
        },
    }
}

/// The first second shown as a time: 0001-01-01 00:00:00 UTC.
pub const FIRST_SHOWN_SECS: i64 = -62135596800;
/// The last second shown as a time: 9999-12-31 23:59:59 UTC.
pub const LAST_SHOWN_SECS: i64 = 253402300799;

/// Writes the Unix timestamp `secs`, `nanos` in the machine's local time zone in the
/// `strftime` format `fmt` (`chrono::DateTime::<Utc>::from_timestamp`, `with_timezone(&Local)`
/// and `DelayedFormat`'s `Display`): `None` where chrono reports an error while writing it.
/// Only timestamps of the years 1 to 9999 are admitted, so the local time zone lookup works
/// on dates well inside chrono's range. What it writes depends on the time zone, so nothing
/// is promised of it.
#[verifier::external_body]
fn local_time_text(secs: i64, nanos: u32, fmt: &str) -> Option<String>
    requires
        FIRST_SHOWN_SECS <= secs <= LAST_SHOWN_SECS,
        nanos < 1_000_000_000,
{
    let utc = chrono::DateTime::<chrono::Utc>::from_timestamp(secs, nanos)?;
    let dt = utc.with_timezone(&chrono::Local);
    let mut out = String::new();
    match write!(out, "{}", dt.format(fmt)) {
        Ok(()) => Some(out),
        Err(_) => None,
    }
}

/// The text chosen for a time from what the configured format wrote (`formatted`) and what
/// the fallback format wrote (`fallback`): the former where it is something, else the
/// latter, else nothing.
pub open spec fn time_text_choice(formatted: Option<Seq<char>>, fallback: Option<Seq<char>>) -> Seq<char> {
    match formatted {
        Some(s) if s.len() > 0 => s,
        _ => match fallback {
            Some(f) => f,
            None => Seq::empty(),
        },
    }
}

/// Chooses the text for a time (see `time_text_choice`).
pub fn choose_time_text(formatted: Option<String>, fallback: Option<String>) -> (r: String)
    ensures
        r@ == time_text_choice(match formatted {
            Some(s) => Some(s@),
            None => None,
        }, match fallback {
            Some(s) => Some(s@),
            None => None,
        }),
{
    match formatted {
        Some(s) => {
            if !s.as_str().is_empty() {
                return s;
            }
        },
        None => {},
    }
    match fallback {
        Some(f) => f,
        None => String::new(),
    }
}

/// Whether a file time is shown as `-`: it is unknown, or lies outside the years 1 to 9999.
pub open spec fn time_blank(time: Option<SystemTime>) -> bool {
    match time {
        None => true,
        Some(t) => match timestamp_of(epoch_distance(t)) {
            None => true,
            Some((secs, _)) => !(FIRST_SHOWN_SECS <= secs <= LAST_SHOWN_SECS),
        },
    }
}

/// The time shown for a file: `-` when it is unknown or lies outside the years 1 to 9999
/// (see `time_blank`), else the time in the local time zone in `format`, or in
/// `%Y-%m-%d %H:%M` where `format` writes nothing or cannot be written (see
/// `choose_time_text`). The text for a shown time depends on the time zone.
pub fn format_file_time(time: Option<&SystemTime>, format: &str) -> (r: String)
    ensures
        time_blank(match time {
            Some(t) => Some(*t),
            None => None,
        }) ==> r@ == "-"@,
{
    let t = match time {
        None => return String::from_str("-"),
        Some(t) => t,
    };
    let (secs, nanos) = match timestamp_parts(&since_epoch(t)) {
        Some(p) => p,
        None => return String::from_str("-"),
    };
    if secs < FIRST_SHOWN_SECS || secs > LAST_SHOWN_SECS {
        return String::from_str("-");
    }
    let formatted = local_time_text(secs, nanos, format);
    let fallback = local_time_text(secs, nanos, "%Y-%m-%d %H:%M");
    choose_time_text(formatted, fallback)
}

/// The owner and group ids of a file.
#[derive(Debug, Clone, Copy, PartialEq, Eq, Structural)]
pub struct UnixMetadata {
    pub uid: u32,
    pub gid: u32,
}

/// What the information overlay reports of a file, as read from its metadata.
pub struct FileMetadata {
    path: String,
    size: Option<u64>,
    modified: Option<SystemTime>,
    created: Option<SystemTime>,
    accessed: Option<SystemTime>,
    attributes: String,
    file_type: FileType,
    unix_meta: Option<UnixMetadata>,
}

/// The kind of a file from what its metadata says, in that order of precedence.
pub open spec fn kind_of(is_file: bool, is_dir: bool, is_symlink: bool) -> FileType {
    if is_file {
        FileType::File
    } else if is_dir {
        FileType::Directory
    } else if is_symlink {
        FileType::Symlink
    } else {
        FileType::Other
    }
}

impl FileMetadata {
    pub closed spec fn path_view(&self) -> Seq<char> {
        self.path@
    }

    pub closed spec fn size_view(&self) -> Option<u64> {
        self.size
    }

    pub closed spec fn attributes_view(&self) -> Seq<char> {
        self.attributes@
    }

    pub closed spec fn file_type_view(&self) -> FileType {
        self.file_type
    }

    pub closed spec fn unix_view(&self) -> Option<UnixMetadata> {
        self.unix_meta
    }

    /// The time of the last change, if known.
    pub closed spec fn modified_time(&self) -> Option<SystemTime> {
        self.modified
    }

    /// The time of creation, if known.
    pub closed spec fn created_time(&self) -> Option<SystemTime> {
        self.created
    }

    /// The time of the last access, if known.
    pub closed spec fn accessed_time(&self) -> Option<SystemTime> {
        self.accessed
    }

    pub open spec fn has_modified(&self) -> bool {
        self.modified_time() is Some
    }

    pub open spec fn has_created(&self) -> bool {
        self.created_time() is Some
    }

    pub open spec fn has_accessed(&self) -> bool {
        self.accessed_time() is Some
    }

    /// The metadata of a file from its parts.
    pub fn from_parts(
        path: String,
        size: Option<u64>,
        modified: Option<SystemTime>,
        created: Option<SystemTime>,
        accessed: Option<SystemTime>,
        attributes: String,
        file_type: FileType,
        unix_meta: Option<UnixMetadata>,
    ) -> (r: Self)
        ensures
            r.path_view() == path@,
            r.size_view() == size,
            r.attributes_view() == attributes@,
            r.file_type_view() == file_type,
            r.unix_view() == unix_meta,
            r.modified_time() == modified,
            r.created_time() == created,
            r.accessed_time() == accessed,
    {
        FileMetadata { path, size, modified, created, accessed, attributes, file_type, unix_meta }
    }

    /// The metadata of the file at `path` from what the file system reports of it (without
    /// following a final symbolic link): its kind, its length (kept for a regular file only),
    /// its times, its permission bits and its owner and group.
    pub fn from_stat(
        path: String,
        is_file: bool,
        is_dir: bool,
        is_symlink: bool,
        len: u64,
        modified: Option<SystemTime>,
        created: Option<SystemTime>,
        accessed: Option<SystemTime>,
        mode: u32,
        uid: u32,
        gid: u32,
    ) -> (r: Self)
        ensures
            r.path_view() == path@,
            r.file_type_view() == kind_of(is_file, is_dir, is_symlink),
            r.size_view() == (if is_file { Some(len) } else { None }),
            r.attributes_view().len() == 10,
            forall|i: int| 0 <= i < 10 ==> #[trigger] r.attributes_view()[i] == perm_char(is_dir, is_symlink, mode, i),
            r.unix_view() == Some(UnixMetadata { uid, gid }),
            r.modified_time() == modified,
            r.created_time() == created,
            r.accessed_time() == accessed,
    {
        let file_type = if is_file {
            FileType::File
        } else if is_dir {
            FileType::Directory
        } else if is_symlink {
            FileType::Symlink
        } else {
            FileType::Other
        };
        FileMetadata {
            path,
            size: if is_file { Some(len) } else { None },
            modified,
            created,
            accessed,
            attributes: permission_string(is_dir, is_symlink, mode),
            file_type,
            unix_meta: Some(UnixMetadata { uid, gid }),
        }
    }

    /// The file's name: the last component of its path, or empty where it has none.
    pub fn name(&self) -> (r: String)
        ensures
            r@ == (match file_name_of(self.path_view()) {
                Some(n) => n,
                None => Seq::empty(),
            }),
    {
        match path_file_name(self.path.as_str()) {
            Some(n) => n,
            None => String::new(),
        }
    }

    /// The permission string, padded to `PERMS_WIDTH` characters.
    pub fn perms(&self) -> (r: String)
        ensures
            r@ == padded_perms(self.attributes_view()),
    {
        let n = self.attributes.as_str().unicode_len();
        let mut out = self.attributes.clone();
        assert(out@ == self.attributes@);
        let mut k: usize = n;
        while k < PERMS_WIDTH
            invariant
                n == self.attributes@.len(),
                n <= k <= PERMS_WIDTH || (n > PERMS_WIDTH && k == n),
                out@ == self.attributes@ + spaces((k - n) as nat),
            decreases PERMS_WIDTH - k,
        {
            push_char(&mut out, ' ');
            assert(self.attributes@ + spaces((k + 1 - n) as nat) =~= (self.attributes@ + spaces((k - n) as nat)).push(' '));
            k += 1;
        }
        assert(n >= PERMS_WIDTH ==> out@ =~= self.attributes@);
        out
    }

    /// The size shown for the file (see `format_file_size`).
    pub fn size(&self) -> (r: String)
        ensures
            r@ == (if self.file_type_view() == FileType::Directory {
                "-"@
            } else {
                match self.size_view() {
                    Some(n) => decimal_size_text(n),
                    None => "-"@,
                }
            }),
    {
        format_file_size(self.size, self.file_type == FileType::Directory)
    }

    /// The time of the last change shown in `fmt` (see `format_file_time`).
    pub fn modified(&self, fmt: &str) -> (r: String)
        ensures
            time_blank(self.modified_time()) ==> r@ == "-"@,
    {
        format_file_time(self.modified.as_ref(), fmt)
    }

    /// The time of creation shown in `fmt` (see `format_file_time`).
    pub fn created(&self, fmt: &str) -> (r: String)
        ensures
            time_blank(self.created_time()) ==> r@ == "-"@,
    {
        format_file_time(self.created.as_ref(), fmt)
    }

    /// The time of the last access shown in `fmt` (see `format_file_time`).
    pub fn accessed(&self, fmt: &str) -> (r: String)
        ensures
            time_blank(self.accessed_time()) ==> r@ == "-"@,
    {
        format_file_time(self.accessed.as_ref(), fmt)
    }

    /// The name of the file's kind.
    pub fn file_type(&self) -> (r: &'static str)
        ensures
            r@ == file_type_text(self.file_type_view()),
    {
        format_file_type(&self.file_type)
    }

    /// The owner's id, 0 where it is unknown.
    pub fn uid(&self) -> (r: u32)
        ensures
            r == (match self.unix_view() {
                Some(m) => m.uid,
                None => 0,
            }),
    {
        match self.unix_meta {
            Some(m) => m.uid,
            None => 0,
        }
    }

    /// The group's id, 0 where it is unknown.
    pub fn gid(&self) -> (r: u32)
        ensures
            r == (match self.unix_view() {
                Some(m) => m.gid,
                None => 0,
            }),
    {
        match self.unix_meta {
            Some(m) => m.gid,
            None => 0,
        }
    }
}

/// The cache of owner and group names that file metadata is reported with.
pub type UserGroupCache = IdentityCache;

/// The texts that the overlay shows for one file, computed once.
pub struct FileMetadataCache {
    name: String,
    perms: String,
    size: String,
    modified: String,
    created: String,
    accessed: String,
    file_type: String,
    owner: String,
    group: String,
}

impl FileMetadataCache {
    pub closed spec fn name_view(&self) -> Seq<char> {
        self.name@
    }

    pub closed spec fn perms_view(&self) -> Seq<char> {
        self.perms@
    }

    pub closed spec fn size_view(&self) -> Seq<char> {
        self.size@
    }

    pub closed spec fn modified_view(&self) -> Seq<char> {
        self.modified@
    }

    pub closed spec fn created_view(&self) -> Seq<char> {
        self.created@
    }

    pub closed spec fn accessed_view(&self) -> Seq<char> {
        self.accessed@
    }

    pub closed spec fn file_type_view(&self) -> Seq<char> {
        self.file_type@
    }

    pub closed spec fn owner_view(&self) -> Seq<char> {
        self.owner@
    }

    pub closed spec fn group_view(&self) -> Seq<char> {
        self.group@
    }

    /// The texts for `meta`, with times in `date_format` and the owner and group names from
    /// `ug_cache` (which remembers any it looks up).
    pub fn from(meta: &FileMetadata, date_format: &str, ug_cache: &mut UserGroupCache) -> (r: Self)
        ensures
            r.name_view() == (match file_name_of(meta.path_view()) {
                Some(n) => n,
                None => Seq::empty(),
            }),
            r.perms_view() == padded_perms(meta.attributes_view()),
            r.size_view() == (if meta.file_type_view() == FileType::Directory {
                "-"@
            } else {
                match meta.size_view() {
                    Some(n) => decimal_size_text(n),
                    None => "-"@,
                }
            }),
            !meta.has_modified() ==> r.modified_view() == "-"@,
            !meta.has_created() ==> r.created_view() == "-"@,
            !meta.has_accessed() ==> r.accessed_view() == "-"@,
            r.file_type_view() == file_type_text(meta.file_type_view()),
            old(ug_cache).users_view().contains_key(meta.unix_view().unwrap_or(UnixMetadata { uid: 0, gid: 0 }).uid)
                ==> r.owner_view() == old(ug_cache).users_view()[meta.unix_view().unwrap_or(UnixMetadata { uid: 0, gid: 0 }).uid],
            final(ug_cache).users_view().contains_key(meta.unix_view().unwrap_or(UnixMetadata { uid: 0, gid: 0 }).uid),
            final(ug_cache).users_view()[meta.unix_view().unwrap_or(UnixMetadata { uid: 0, gid: 0 }).uid] == r.owner_view(),
            final(ug_cache).groups_view().contains_key(meta.unix_view().unwrap_or(UnixMetadata { uid: 0, gid: 0 }).gid),
            final(ug_cache).groups_view()[meta.unix_view().unwrap_or(UnixMetadata { uid: 0, gid: 0 }).gid] == r.group_view(),
    {
        let owner = ug_cache.resolve_user(meta.uid());
        let group = ug_cache.resolve_group(meta.gid());
        FileMetadataCache {
            name: meta.name(),
            perms: meta.perms(),
            size: meta.size(),
            modified: meta.modified(date_format),
            created: meta.created(date_format),
            accessed: meta.accessed(date_format),
            file_type: String::from_str(meta.file_type()),
            owner,
            group,
        }
    }

    pub fn name(&self) -> (r: &str)
        ensures
            r@ == self.name_view(),
    {
        self.name.as_str()
    }

    pub fn perms(&self) -> (r: &str)
        ensures
            r@ == self.perms_view(),
    {
        self.perms.as_str()
    }

    pub fn size(&self) -> (r: &str)
        ensures
            r@ == self.size_view(),
    {
        self.size.as_str()
    }

    pub fn modified(&self) -> (r: &str)
        ensures
            r@ == self.modified_view(),
    {
        self.modified.as_str()
    }

    pub fn created(&self) -> (r: &str)
        ensures
            r@ == self.created_view(),
    {
        self.created.as_str()
    }

    pub fn accessed(&self) -> (r: &str)
        ensures
            r@ == self.accessed_view(),
    {
        self.accessed.as_str()
    }

    pub fn file_type(&self) -> (r: &str)
        ensures
            r@ == self.file_type_view(),
    {
        self.file_type.as_str()
    }

    pub fn owner(&self) -> (r: &str)
        ensures
            r@ == self.owner_view(),
    {
        self.owner.as_str()
    }

    pub fn group(&self) -> (r: &str)
        ensures
            r@ == self.group_view(),
    {
        self.group.as_str()
    }
}

} // verus!
