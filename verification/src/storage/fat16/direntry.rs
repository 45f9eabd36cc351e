//! The entries of a FAT16 directory.

use vstd::prelude::*;
use vstd::string::StringSliceAdditionalSpecFns;
use vstd::utf8::{decode_utf8, valid_utf8};
use crate::storage::{FileType, FilenameError, FsError, FsTime, Metadata};

verus! {

/// The number of a cluster.
#[derive(Copy, Clone, Debug, PartialEq, Eq, Structural)]
pub struct Cluster(pub u32);

/// The number that marks an invalid cluster.
pub const CLUSTER_INVALID: u32 = 0xFFFF_FFF6;

/// The number that marks a bad cluster.
pub const CLUSTER_BAD: u32 = 0xFFFF_FFF7;

/// The number that marks an empty cluster.
pub const CLUSTER_EMPTY: u32 = 0x0000_0000;

/// The number that stands for the root directory, which lies in no
/// cluster.
pub const CLUSTER_ROOT_DIR: u32 = 0xFFFF_FFFC;

/// The number that marks the last cluster of a file.
pub const CLUSTER_END_OF_FILE: u32 = 0xFFFF_FFFF;

pub const ATTR_READ_ONLY: u8 = 0x01;

pub const ATTR_HIDDEN: u8 = 0x02;

pub const ATTR_SYSTEM: u8 = 0x04;

pub const ATTR_VOLUME_ID: u8 = 0x08;

pub const ATTR_DIRECTORY: u8 = 0x10;

pub const ATTR_ARCHIVE: u8 = 0x20;

/// The attributes of an entry that holds a part of a long file name.
pub const ATTR_LFN: u8 = 0x0f;

/// All the bits that are attributes.
pub const ATTR_ALL: u8 = 0x3f;

/// The attributes of a file.
#[derive(Clone, Copy, Debug, PartialEq, Eq, Structural, Hash)]
pub struct Attributes {
    pub bits: u8,
}

impl Attributes {
    /// The attributes among the bits of `bits`; other bits are dropped.
    pub fn from_bits_truncate(bits: u8) -> (attributes: Attributes)
        ensures
            attributes.bits == bits & ATTR_ALL,
    {
        Attributes { bits: bits & ATTR_ALL }
    }

    pub fn bits(&self) -> (bits: u8)
        ensures
            bits == self.bits,
    {
        self.bits
    }

    /// Whether every attribute of `flags` is set.
    pub open spec fn spec_contains(&self, flags: u8) -> bool {
        self.bits & flags == flags
    }

    /// Whether every attribute of `flags` is set.
    pub fn contains(&self, flags: u8) -> (set: bool)
        ensures
            set == self.spec_contains(flags),
    {
        self.bits & flags == flags
    }
}

/// The name of a file in the 8.3 form: eight bytes of name and three of
/// extension, padded with spaces.
#[derive(Clone, Copy, Debug)]
pub struct ShortFileName {
    pub name: [u8; 8],
    pub ext: [u8; 3],
}

impl ShortFileName {
    /// The name in the first eleven bytes of `buf`.
    pub fn new(buf: &[u8]) -> (sfn: ShortFileName)
        requires
            buf@.len() >= 11,
        ensures
            sfn.name@ == buf@.subrange(0, 8),
            sfn.ext@ == buf@.subrange(8, 11),
    {
        let sfn = ShortFileName {
            name: [buf[0], buf[1], buf[2], buf[3], buf[4], buf[5], buf[6], buf[7]],
            ext: [buf[8], buf[9], buf[10]],
        };
        assert(sfn.name@ =~= buf@.subrange(0, 8));
        assert(sfn.ext@ =~= buf@.subrange(8, 11));
        sfn
    }

    /// Whether the entry marks the end of the directory.
    pub fn is_eod(&self) -> (eod: bool)
        ensures
            eod == (self.name@[0] == 0x00 && self.ext@[0] == 0x00),
    {
        self.name[0] == 0x00 && self.ext[0] == 0x00
    }

    /// Whether the entry is not in use.
    pub fn is_unused(&self) -> (unused: bool)
        ensures
            unused == (self.name@[0] == 0xE5),
    {
        self.name[0] == 0xE5
    }

    /// Whether this name and `sfn` are the same bytes.
    pub fn matches(&self, sfn: &ShortFileName) -> (same: bool)
        ensures
            same == (self.name@ == sfn.name@ && self.ext@ == sfn.ext@),
    {
        let mut i: usize = 0;
        while i < 8
            invariant
                0 <= i <= 8,
                forall|j: int| 0 <= j < i ==> self.name@[j] == sfn.name@[j],
            decreases 8 - i,
        {
            if self.name[i] != sfn.name[i] {
                return false;
            }
            i = i + 1;
        }
        let mut k: usize = 0;
        while k < 3
            invariant
                0 <= k <= 3,
                self.name@ =~= sfn.name@,
                forall|j: int| 0 <= j < k ==> self.ext@[j] == sfn.ext@[j],
            decreases 3 - k,
        {
            if self.ext[k] != sfn.ext[k] {
                return false;
            }
            k = k + 1;
        }
        assert(self.ext@ =~= sfn.ext@);
        true
    }
}

/// The string without the white space at its end, as `str::trim_end` of
/// std leaves it.
pub uninterp spec fn spec_trim_end(s: Seq<char>) -> Seq<char>;

/// The bytes of a string without the white space at its start and at its
/// end, as `str::trim` of std leaves them, given the bytes of the string.
pub uninterp spec fn spec_trim(bytes: Seq<u8>) -> Seq<u8>;

/// The seconds from the start of 1970 to the given moment of the
/// Gregorian calendar in UTC, or `None` where there is no such moment, as
/// `with_ymd_and_hms` and `timestamp` of chrono give them.
pub uninterp spec fn spec_utc_timestamp(
    year: i32,
    month: u32,
    day: u32,
    hour: u32,
    min: u32,
    sec: u32,
) -> Option<i64>;

/// `core::str::from_utf8`: the string that `bytes` encode, or `None`
/// where they are not valid UTF-8.
#[verifier::external_body]
pub(crate) fn utf8_str(bytes: &[u8]) -> (s: Option<&str>)
    ensures
        s is Some == valid_utf8(bytes@),
        s matches Some(text) ==> text.spec_bytes() == bytes@ && text@ == decode_utf8(bytes@),
{
    core::str::from_utf8(bytes).ok()
}

/// `str::trim_end`: the string without the white space at its end.
#[verifier::external_body]
fn trim_end(s: &str) -> (trimmed: &str)
    ensures
        trimmed@ == spec_trim_end(s@),
{
    s.trim_end()
}

/// `str::trim`: the string without the white space at its start and at
/// its end.
#[verifier::external_body]
fn trim(s: &str) -> (trimmed: &str)
    ensures
        trimmed.spec_bytes() == spec_trim(s.spec_bytes()),
{
    s.trim()
}

/// The string `base`, a dot, and the string `ext`.
fn join_with_dot(base: &str, ext: &str) -> (joined: String)
    ensures
        joined@ == base@ + seq!['.'] + ext@,
{
    let mut joined = String::from_str(base);
    joined.append(".");
    joined.append(ext);
    proof {
        reveal_strlit(".");
        assert("."@ =~= seq!['.']);
    }
    joined
}

/// `with_ymd_and_hms` of chrono's `Utc`, and `timestamp` of the moment
/// that it gives: the seconds from the start of 1970 to that moment, or
/// `None` where the calendar has no such moment.
#[verifier::external_body]
fn utc_timestamp(year: i32, month: u32, day: u32, hour: u32, min: u32, sec: u32) -> (secs: Option<
    i64,
>)
    ensures
        secs == spec_utc_timestamp(year, month, day, hour, min, sec),
{
    match chrono::TimeZone::with_ymd_and_hms(&chrono::Utc, year, month, day, hour, min, sec) {
        chrono::LocalResult::Single(time) => Some(time.timestamp()),
        chrono::LocalResult::Ambiguous(_, _) => None,
        chrono::LocalResult::None => None,
    }
}

/// The number whose bytes are `b0` to `b3`, the lowest first.
pub open spec fn spec_le_u32(b0: u8, b1: u8, b2: u8, b3: u8) -> u32 {
    (b0 + b1 * 0x100 + b2 * 0x1_0000 + b3 * 0x100_0000) as u32
}

/// The number whose bytes are `b0` to `b3`, the lowest first.
pub fn le_u32(b0: u8, b1: u8, b2: u8, b3: u8) -> (n: u32)
    ensures
        n == spec_le_u32(b0, b1, b2, b3),
{
    let n: u32 = (b0 as u32) | ((b1 as u32) << 8) | ((b2 as u32) << 16) | ((b3 as u32) << 24);
    assert(((b0 as u32) | ((b1 as u32) << 8) | ((b2 as u32) << 16) | ((b3 as u32) << 24)) == (b0
        + b1 * 0x100 + b2 * 0x1_0000 + b3 * 0x100_0000) as u32) by (bit_vector);
    n
}

/// The year that a packed FAT date and time names.
pub open spec fn spec_fat_year(time: u32) -> i32 {
    (((time >> 25) & 0x7f) + 1980) as i32
}

/// The moment that the packed FAT date and time `time` names: seven bits
/// of years since 1980, four of the month, five of the day, five of the
/// hour, six of the minute and five of half the second. Where the calendar
/// has no such moment, the start of 1970.
pub open spec fn spec_parse_datetime(time: u32) -> FsTime {
    match spec_utc_timestamp(
        spec_fat_year(time),
        (time >> 21) & 0x0f,
        (time >> 16) & 0x1f,
        (time >> 11) & 0x1f,
        (time >> 5) & 0x3f,
        (time & 0x1f) << 1,
    ) {
        Some(secs) => FsTime { secs },
        None => FsTime { secs: 0 },
    }
}

/// The moment that the packed FAT date and time `time` names.
pub fn prase_datetime(time: u32) -> (moment: FsTime)
    ensures
        moment == spec_parse_datetime(time),
{
    let years: u32 = (time >> 25) & 0x7f;
    assert((time >> 25) & 0x7f <= 0x7f) by (bit_vector);
    let year: i32 = years as i32 + 1980;
    let month: u32 = (time >> 21) & 0x0f;
    let day: u32 = (time >> 16) & 0x1f;
    let hour: u32 = (time >> 11) & 0x1f;
    let min: u32 = (time >> 5) & 0x3f;
    assert((time & 0x1f) << 1 <= 62) by (bit_vector);
    let sec: u32 = (time & 0x1f) << 1;
    match utc_timestamp(year, month, day, hour, min, sec) {
        Some(secs) => FsTime { secs },
        None => FsTime { secs: 0 },
    }
}

impl ShortFileName {
    /// The name as a string.
    pub fn basename(&self) -> (name: &str)
        requires
            valid_utf8(self.name@),
        ensures
            name@ == decode_utf8(self.name@),
            name.spec_bytes() == self.name@,
    {
        match utf8_str(self.name.as_slice()) {
            Some(name) => name,
            None => "",
        }
    }

    /// The extension as a string.
    pub fn extension(&self) -> (ext: &str)
        requires
            valid_utf8(self.ext@),
        ensures
            ext@ == decode_utf8(self.ext@),
            ext.spec_bytes() == self.ext@,
    {
        match utf8_str(self.ext.as_slice()) {
            Some(ext) => ext,
            None => "",
        }
    }

    /// The name as it is shown.
    pub open spec fn spec_to_string(&self) -> Seq<char> {
        if self.ext@[0] == 0x20 {
            spec_trim_end(decode_utf8(self.name@))
        } else {
            spec_trim_end(decode_utf8(self.name@)) + seq!['.'] + spec_trim_end(
                decode_utf8(self.ext@),
            )
        }
    }

    /// The name as it is shown: the name without the spaces at its end,
    /// and, where the extension does not begin with a space, a dot and the
    /// extension without the spaces at its end.
    pub fn to_string(&self) -> (shown: String)
        requires
            valid_utf8(self.name@),
            valid_utf8(self.ext@),
        ensures
            shown@ == self.spec_to_string(),
    {
        if self.ext[0] == 0x20 {
            trim_end(self.basename()).to_owned()
        } else {
            join_with_dot(trim_end(self.basename()), trim_end(self.extension()))
        }
    }
}

/// One entry of a directory.
#[derive(Clone, Copy, Debug)]
pub struct DirEntry {
    pub filename: ShortFileName,
    pub modified_time: FsTime,
    pub created_time: FsTime,
    pub accessed_time: FsTime,
    pub cluster: Cluster,
    pub attributes: Attributes,
    pub size: u32,
}

/// The length of an entry in bytes.
pub const DIR_ENTRY_LEN: usize = 0x20;

impl DirEntry {
    /// Whether the entry is in use and does not mark the end of the
    /// directory.
    pub open spec fn spec_is_valid(&self) -> bool {
        !(self.filename.name@[0] == 0x00 && self.filename.ext@[0] == 0x00)
            && self.filename.name@[0] != 0xE5
    }

    /// Whether the entry holds a part of a long file name.
    pub open spec fn spec_is_long_name(&self) -> bool {
        self.attributes.spec_contains(ATTR_LFN)
    }

    /// Whether the entry is a directory.
    pub open spec fn spec_is_directory(&self) -> bool {
        self.attributes.spec_contains(ATTR_DIRECTORY)
    }

    /// Whether the name of the entry can be shown: it is not shown at
    /// all, or it is valid UTF-8.
    pub open spec fn spec_name_shown(&self) -> bool {
        self.spec_is_valid() && !self.spec_is_long_name() ==> valid_utf8(self.filename.name@)
            && valid_utf8(self.filename.ext@)
    }

    /// The name of the entry as it is shown.
    pub open spec fn spec_filename(&self) -> Seq<char> {
        if self.spec_is_valid() && !self.spec_is_long_name() {
            self.filename.spec_to_string()
        } else {
            "unknown"@
        }
    }

    /// Whether the name of the entry can be shown.
    pub fn name_shown(&self) -> (shown: bool)
        ensures
            shown == self.spec_name_shown(),
    {
        if self.is_valid() && !self.is_long_name() {
            utf8_str(self.filename.name.as_slice()).is_some() && utf8_str(
                self.filename.ext.as_slice(),
            ).is_some()
        } else {
            true
        }
    }

    /// The name of the entry as it is shown; `unknown` for an entry that
    /// is not in use, marks the end, or holds a part of a long name.
    pub fn filename(&self) -> (name: String)
        requires
            self.spec_name_shown(),
        ensures
            name@ == self.spec_filename(),
    {
        if self.is_valid() && !self.is_long_name() {
            self.filename.to_string()
        } else {
            "unknown".to_owned()
        }
    }

    /// Whether the entry is in use and does not mark the end of the
    /// directory.
    pub fn is_valid(&self) -> (valid: bool)
        ensures
            valid == self.spec_is_valid(),
    {
        !self.filename.is_eod() && !self.filename.is_unused()
    }

    /// Whether the entry holds a part of a long file name.
    pub fn is_long_name(&self) -> (long: bool)
        ensures
            long == self.spec_is_long_name(),
    {
        self.attributes.contains(ATTR_LFN)
    }

    /// Whether the entry is a directory.
    pub fn is_directory(&self) -> (dir: bool)
        ensures
            dir == self.spec_is_directory(),
    {
        self.attributes.contains(ATTR_DIRECTORY)
    }

    /// Reads an entry in the standard 8.3 format from the first 32 bytes
    /// of `data`.
    ///
    /// Bytes 0 to 10 are the name, byte 11 the attributes, bytes 14 to 17
    /// the time of creation, 18 and 19 the date of the last access, 22 to
    /// 25 the time of the last change, 28 to 31 the size, and bytes 26,
    /// 27, 20 and 21 the cluster, each number with its lowest byte first.
    pub fn parse(data: &[u8]) -> (entry: Result<DirEntry, FsError>)
        requires
            data@.len() >= 32,
        ensures
            entry matches Ok(e) && Self::spec_parsed(data@, e),
    {
        let filename = ShortFileName::new(data);
        let attributes = Attributes::from_bits_truncate(data[11]);
        let created_time = prase_datetime(le_u32(data[14], data[15], data[16], data[17]));
        let accessed_time = prase_datetime(le_u32(0, 0, data[18], data[19]));
        let cluster = le_u32(data[26], data[27], data[20], data[21]);
        let modified_time = prase_datetime(le_u32(data[22], data[23], data[24], data[25]));
        let size = le_u32(data[28], data[29], data[30], data[31]);
        Ok(
            DirEntry {
                filename,
                modified_time,
                created_time,
                accessed_time,
                cluster: Cluster(cluster),
                attributes,
                size,
            },
        )
    }

    /// Whether `entry` is what the first 32 bytes of `data` hold.
    pub open spec fn spec_parsed(data: Seq<u8>, entry: DirEntry) -> bool {
        &&& entry.filename.name@ == data.subrange(0, 8)
        &&& entry.filename.ext@ == data.subrange(8, 11)
        &&& entry.attributes.bits == data[11] & ATTR_ALL
        &&& entry.created_time == spec_parse_datetime(
            spec_le_u32(data[14], data[15], data[16], data[17]),
        )
        &&& entry.accessed_time == spec_parse_datetime(spec_le_u32(0, 0, data[18], data[19]))
        &&& entry.cluster == Cluster(spec_le_u32(data[26], data[27], data[20], data[21]))
        &&& entry.modified_time == spec_parse_datetime(
            spec_le_u32(data[22], data[23], data[24], data[25]),
        )
        &&& entry.size == spec_le_u32(data[28], data[29], data[30], data[31])
    }

    /// What the file system tells of the entry.
    pub fn as_meta(&self) -> (meta: Metadata)
        requires
            self.spec_name_shown(),
        ensures
            meta.entry_type == (if self.spec_is_directory() {
                FileType::Directory
            } else {
                FileType::File
            }),
            meta.name@ == self.spec_filename(),
            meta.len == self.size,
            meta.created == Some(self.created_time),
            meta.accessed == Some(self.accessed_time),
            meta.modified == Some(self.modified_time),
    {
        Metadata {
            entry_type: if self.is_directory() {
                FileType::Directory
            } else {
                FileType::File
            },
            name: self.filename(),
            len: self.size as usize,
            created: Some(self.created_time),
            accessed: Some(self.accessed_time),
            modified: Some(self.modified_time),
        }
    }
}

/// Whether a file name may not hold the byte `b`: a control character, a
/// space, or one of `"*+,/:;<=>?[\]|`.
pub open spec fn spec_invalid_byte(b: u8) -> bool {
    b <= 0x20 || b == 0x22 || b == 0x2A || b == 0x2B || b == 0x2C || b == 0x2F || (0x3A <= b
        <= 0x3F) || (0x5B <= b <= 0x5D) || b == 0x7C
}

/// Whether a file name may not hold the byte `b`.
pub fn invalid_byte(b: u8) -> (invalid: bool)
    ensures
        invalid == spec_invalid_byte(b),
{
    b <= 0x20 || b == 0x22 || b == 0x2A || b == 0x2B || b == 0x2C || b == 0x2F || (0x3A <= b && b
        <= 0x3F) || (0x5B <= b && b <= 0x5D) || b == 0x7C
}

/// The place of the first dot in `s`, or the length of `s` where it has
/// none.
pub open spec fn spec_dot_index(s: Seq<u8>) -> int
    decreases s.len(),
{
    if s.len() == 0 {
        0
    } else if s[0] == 0x2E {
        0
    } else {
        1 + spec_dot_index(s.subrange(1, s.len() as int))
    }
}

/// Where none of the first `i` bytes is a dot and the `i`-th is, or `i`
/// is the length, `i` is the place of the first dot.
pub proof fn lemma_dot_index_is(s: Seq<u8>, i: int)
    requires
        0 <= i <= s.len(),
        forall|j: int| 0 <= j < i ==> s[j] != 0x2E,
        i < s.len() ==> s[i] == 0x2E,
    ensures
        spec_dot_index(s) == i,
    decreases s.len(),
{
    if s.len() > 0 && i > 0 {
        let rest = s.subrange(1, s.len() as int);
        assert forall|j: int| 0 <= j < i - 1 implies rest[j] != 0x2E by {
            assert(rest[j] == s[j + 1]);
        }
        if i < s.len() {
            assert(rest[i - 1] == s[i]);
        }
        lemma_dot_index_is(rest, i - 1);
    }
}

/// The upper-case form of `b` where it is one of the letters `a` to `z`,
/// else `b`.
pub open spec fn spec_upper(b: u8) -> u8 {
    if 0x61 <= b <= 0x7A {
        (b - 0x20) as u8
    } else {
        b
    }
}

/// The bytes of `part` in upper case, filled up with spaces to `len`
/// bytes.
pub open spec fn spec_padded(part: Seq<u8>, len: nat) -> Seq<u8> {
    Seq::new(
        len,
        |i: int|
            if i < part.len() {
                spec_upper(part[i])
            } else {
                0x20u8
            },
    )
}

/// The part of a trimmed file name before its first dot.
pub open spec fn spec_name_part(trimmed: Seq<u8>) -> Seq<u8> {
    trimmed.subrange(0, spec_dot_index(trimmed))
}

/// The part of a trimmed file name behind its first dot; nothing where
/// it has no dot.
pub open spec fn spec_ext_part(trimmed: Seq<u8>) -> Seq<u8> {
    if spec_dot_index(trimmed) < trimmed.len() {
        trimmed.subrange(spec_dot_index(trimmed) + 1, trimmed.len() as int)
    } else {
        Seq::empty()
    }
}

/// Why the file name with the bytes `raw`, which trimmed has the bytes
/// `trimmed`, is no short file name; `None` where it is one.
pub open spec fn spec_name_error(raw: Seq<u8>, trimmed: Seq<u8>) -> Option<FilenameError> {
    if trimmed.len() == 0 {
        Some(FilenameError::FilenameEmpty)
    } else if exists|i: int| 0 <= i < raw.len() && spec_invalid_byte(#[trigger] raw[i]) {
        Some(FilenameError::InvalidCharacter)
    } else if spec_name_part(trimmed).len() == 0 {
        Some(FilenameError::FilenameEmpty)
    } else if spec_name_part(trimmed).len() > 8 {
        Some(FilenameError::NameTooLong)
    } else if spec_ext_part(trimmed).len() > 3 {
        Some(FilenameError::NameTooLong)
    } else {
        None
    }
}

impl ShortFileName {
    /// Makes a short file name of a file name, given its bytes `raw` and
    /// the bytes `trimmed` that are left of it without the white space at
    /// its ends.
    ///
    /// The name is empty where nothing is left of it, or nothing stands
    /// before its first dot. It has an invalid character where one of
    /// `raw` is a control character, a space or one of `"*+,/:;<=>?[\]|`.
    /// It is too long where more than eight bytes stand before the first
    /// dot or more than three behind it. Else the short file name holds
    /// the two parts in upper case, filled up with spaces.
    pub fn parse_trimmed(raw: &[u8], trimmed: &[u8]) -> (res: Result<ShortFileName, FsError>)
        ensures
            match spec_name_error(raw@, trimmed@) {
                Some(e) => res == Err::<ShortFileName, FsError>(FsError::FileNameError(e)),
                None => res matches Ok(sfn) && sfn.name@ == spec_padded(spec_name_part(trimmed@), 8)
                    && sfn.ext@ == spec_padded(spec_ext_part(trimmed@), 3),
            },
    {
        if trimmed.len() == 0 {
            return Err(FsError::FileNameError(FilenameError::FilenameEmpty));
        }
        let mut i: usize = 0;
        while i < raw.len()
            invariant
                0 <= i <= raw.len(),
                trimmed@.len() > 0,
                forall|j: int| 0 <= j < i ==> !spec_invalid_byte(#[trigger] raw@[j]),
            decreases raw.len() - i,
        {
            if invalid_byte(raw[i]) {
                assert(spec_invalid_byte(raw@[i as int]));
                return Err(FsError::FileNameError(FilenameError::InvalidCharacter));
            }
            i = i + 1;
        }
        let mut dot: usize = 0;
        while dot < trimmed.len() && trimmed[dot] != 0x2E
            invariant
                0 <= dot <= trimmed.len(),
                forall|j: int| 0 <= j < dot ==> trimmed@[j] != 0x2E,
            decreases trimmed.len() - dot,
        {
            dot = dot + 1;
        }
        proof {
            lemma_dot_index_is(trimmed@, dot as int);
        }
        let ext_start: usize = if dot < trimmed.len() {
            dot + 1
        } else {
            dot
        };
        let ext_len: usize = trimmed.len() - ext_start;
        if dot == 0 {
            return Err(FsError::FileNameError(FilenameError::FilenameEmpty));
        }
        if dot > 8 {
            return Err(FsError::FileNameError(FilenameError::NameTooLong));
        }
        if ext_len > 3 {
            return Err(FsError::FileNameError(FilenameError::NameTooLong));
        }
        let ghost name_part = spec_name_part(trimmed@);
        let ghost ext_part = spec_ext_part(trimmed@);
        let mut name_bytes: [u8; 8] = [0x20u8;8];
        let mut n: usize = 0;
        while n < dot
            invariant
                0 <= n <= dot <= 8,
                dot <= trimmed.len(),
                name_part == trimmed@.subrange(0, dot as int),
                forall|j: int| 0 <= j < n ==> name_bytes@[j] == spec_upper(name_part[j]),
                forall|j: int| n <= j < 8 ==> name_bytes@[j] == 0x20,
            decreases dot - n,
        {
            name_bytes[n] = upper(trimmed[n]);
            n = n + 1;
        }
        let mut ext_bytes: [u8; 3] = [0x20u8;3];
        let mut m: usize = 0;
        while m < ext_len
            invariant
                0 <= m <= ext_len <= 3,
                ext_start + ext_len == trimmed.len(),
                ext_part.len() == ext_len,
                forall|j: int| 0 <= j < ext_len ==> ext_part[j] == trimmed@[ext_start + j],
                forall|j: int| 0 <= j < m ==> ext_bytes@[j] == spec_upper(ext_part[j]),
                forall|j: int| m <= j < 3 ==> ext_bytes@[j] == 0x20,
            decreases ext_len - m,
        {
            ext_bytes[m] = upper(trimmed[ext_start + m]);
            m = m + 1;
        }
        assert(name_bytes@ =~= spec_padded(name_part, 8));
        assert(ext_bytes@ =~= spec_padded(ext_part, 3));
        Ok(ShortFileName { name: name_bytes, ext: ext_bytes })
    }

    /// Makes a short file name of the file name `raw`, as
    /// [`ShortFileName::parse_trimmed`] does of its bytes and of those
    /// that `str::trim` leaves of them.
    pub fn parse(raw: &str) -> (res: Result<ShortFileName, FsError>)
        ensures
            match spec_name_error(raw.spec_bytes(), spec_trim(raw.spec_bytes())) {
                Some(e) => res == Err::<ShortFileName, FsError>(FsError::FileNameError(e)),
                None => res matches Ok(sfn) && sfn.name@ == spec_padded(
                    spec_name_part(spec_trim(raw.spec_bytes())),
                    8,
                ) && sfn.ext@ == spec_padded(spec_ext_part(spec_trim(raw.spec_bytes())), 3),
            },
    {
        let trimmed = trim(raw);
        Self::parse_trimmed(raw.as_bytes(), trimmed.as_bytes())
    }
}

/// The upper-case form of `b` where it is one of the letters `a` to `z`,
/// else `b`.
pub fn upper(b: u8) -> (up: u8)
    ensures
        up == spec_upper(b),
{
    if 0x61 <= b && b <= 0x7A {
        b - 0x20
    } else {
        b
    }
}

} // verus!
