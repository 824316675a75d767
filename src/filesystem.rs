//! Known filesystem kinds.
use crate::text::chars_of;
use vstd::prelude::*;

verus! {

broadcast use vstd::string::group_string_axioms;

/// Known filesystems. Every physical filesystem has its own variant; the
/// others, virtual ones among them, are `Other`.
#[derive(Debug, PartialEq, Eq, Hash)]
pub enum FileSystem {
    /// ext2 (https://en.wikipedia.org/wiki/Ext2)
    Ext2,
    /// ext3 (https://en.wikipedia.org/wiki/Ext3)
    Ext3,
    /// ext4 (https://en.wikipedia.org/wiki/Ext4)
    Ext4,
    /// FAT (https://en.wikipedia.org/wiki/File_Allocation_Table)
    VFat,
    /// exFAT (https://en.wikipedia.org/wiki/ExFAT)
    ExFat,
    /// F2FS (https://en.wikipedia.org/wiki/F2FS)
    F2fs,
    /// NTFS (https://en.wikipedia.org/wiki/NTFS)
    Ntfs,
    /// ZFS (https://en.wikipedia.org/wiki/ZFS)
    Zfs,
    /// HFS (https://en.wikipedia.org/wiki/Hierarchical_File_System)
    Hfs,
    /// HFS+ (https://en.wikipedia.org/wiki/HFS_Plus)
    HfsPlus,
    /// JFS (https://en.wikipedia.org/wiki/JFS_(file_system))
    Jfs,
    /// ReiserFS 3 (https://en.wikipedia.org/wiki/ReiserFS)
    Reiser3,
    /// ReiserFS 4 (https://en.wikipedia.org/wiki/Reiser4)
    Reiser4,
    /// Btrfs (https://en.wikipedia.org/wiki/Btrfs)
    Btrfs,
    /// MINIX FS (https://en.wikipedia.org/wiki/MINIX_file_system)
    Minix,
    /// NILFS (https://en.wikipedia.org/wiki/NILFS)
    Nilfs,
    /// XFS (https://en.wikipedia.org/wiki/XFS)
    Xfs,
    /// APFS (https://en.wikipedia.org/wiki/Apple_File_System)
    Apfs,
    /// FUSE (https://en.wikipedia.org/wiki/Filesystem_in_Userspace)
    FuseBlk,
    /// Some other filesystem, by name.
    Other(String),
}

/// The code of `c`, with ASCII capitals taken as small letters.
pub open spec fn ascii_lower(c: char) -> int {
    if 'A' <= c && c <= 'Z' {
        c as int + 32
    } else {
        c as int
    }
}

/// Equal but for the case of ASCII letters, as `str::eq_ignore_ascii_case` compares.
pub open spec fn same_ignoring_case(a: Seq<char>, b: Seq<char>) -> bool {
    a.len() == b.len() && forall|i: int| 0 <= i < a.len() ==> ascii_lower(#[trigger] a[i]) == ascii_lower(b[i])
}

/// The known filesystem a name stands for.
pub open spec fn known_filesystem(s: Seq<char>) -> Option<FileSystem> {
    if same_ignoring_case(s, "ext2"@) {
        Some(FileSystem::Ext2)
    } else if same_ignoring_case(s, "ext3"@) {
        Some(FileSystem::Ext3)
    } else if same_ignoring_case(s, "ext4"@) {
        Some(FileSystem::Ext4)
    } else if same_ignoring_case(s, "vfat"@) {
        Some(FileSystem::VFat)
    } else if same_ignoring_case(s, "ntfs"@) {
        Some(FileSystem::Ntfs)
    } else if same_ignoring_case(s, "zfs"@) {
        Some(FileSystem::Zfs)
    } else if same_ignoring_case(s, "hfs"@) {
        Some(FileSystem::Hfs)
    } else if same_ignoring_case(s, "reiserfs"@) {
        Some(FileSystem::Reiser3)
    } else if same_ignoring_case(s, "reiser4"@) {
        Some(FileSystem::Reiser4)
    } else if same_ignoring_case(s, "exfat"@) {
        Some(FileSystem::ExFat)
    } else if same_ignoring_case(s, "f2fs"@) {
        Some(FileSystem::F2fs)
    } else if same_ignoring_case(s, "hfsplus"@) {
        Some(FileSystem::HfsPlus)
    } else if same_ignoring_case(s, "jfs"@) {
        Some(FileSystem::Jfs)
    } else if same_ignoring_case(s, "btrfs"@) {
        Some(FileSystem::Btrfs)
    } else if same_ignoring_case(s, "minix"@) {
        Some(FileSystem::Minix)
    } else if same_ignoring_case(s, "nilfs"@) {
        Some(FileSystem::Nilfs)
    } else if same_ignoring_case(s, "xfs"@) {
        Some(FileSystem::Xfs)
    } else if same_ignoring_case(s, "apfs"@) {
        Some(FileSystem::Apfs)
    } else if same_ignoring_case(s, "fuseblk"@) {
        Some(FileSystem::FuseBlk)
    } else {
        None
    }
}

/// The name of a filesystem.
pub open spec fn filesystem_name(f: FileSystem) -> Seq<char> {
    match f {
        FileSystem::Ext2 => "ext2"@,
        FileSystem::Ext3 => "ext3"@,
        FileSystem::Ext4 => "ext4"@,
        FileSystem::VFat => "vfat"@,
        FileSystem::ExFat => "exfat"@,
        FileSystem::F2fs => "f2fs"@,
        FileSystem::Ntfs => "ntfs"@,
        FileSystem::Zfs => "zfs"@,
        FileSystem::Hfs => "hfs"@,
        FileSystem::HfsPlus => "hfs+"@,
        FileSystem::Jfs => "jfs"@,
        FileSystem::Reiser3 => "reiserfs"@,
        FileSystem::Reiser4 => "reiser4"@,
        FileSystem::Btrfs => "btrfs"@,
        FileSystem::Minix => "minix"@,
        FileSystem::Nilfs => "nilfs"@,
        FileSystem::Xfs => "xfs"@,
        FileSystem::Apfs => "apfs"@,
        FileSystem::FuseBlk => "fuseblk"@,
        FileSystem::Other(s) => s@,
    }
}

fn lower_code(c: char) -> (r: u32)
    ensures
        r == ascii_lower(c),
{
    if 'A' <= c && c <= 'Z' {
        c as u32 + 32
    } else {
        c as u32
    }
}

/// Whether `a` and `b` are equal but for the case of ASCII letters.
pub fn eq_ignore_case(a: &str, b: &str) -> (r: bool)
    ensures
        r == same_ignoring_case(a@, b@),
{
    let x = chars_of(a);
    let y = chars_of(b);
    if x.len() != y.len() {
        return false;
    }
    let mut i: usize = 0;
    while i < x.len()
        invariant
            x@ == a@,
            y@ == b@,
            x.len() == y.len(),
            i <= x.len(),
            forall|j: int| 0 <= j < i ==> ascii_lower(#[trigger] x@[j]) == ascii_lower(y@[j]),
        decreases x.len() - i,
    {
        if lower_code(x[i]) != lower_code(y[i]) {
            return false;
        }
        i = i + 1;
    }
    true
}

impl FileSystem {
    /// Whether the filesystem is one used on physical devices.
    pub fn is_physical(&self) -> (r: bool)
        ensures
            r == !(self is Other),
    {
        match self {
            FileSystem::Other(_) => false,
            _ => true,
        }
    }

    /// Whether the filesystem is a virtual one, such as `tmpfs` or an `smb` mount.
    pub fn is_virtual(&self) -> (r: bool)
        ensures
            r == (self is Other),
    {
        !self.is_physical()
    }

    /// The name of the filesystem.
    pub fn as_str(&self) -> (r: &str)
        ensures
            r@ == filesystem_name(*self),
    {
        match self {
            FileSystem::Ext2 => "ext2",
            FileSystem::Ext3 => "ext3",
            FileSystem::Ext4 => "ext4",
            FileSystem::VFat => "vfat",
            FileSystem::ExFat => "exfat",
            FileSystem::F2fs => "f2fs",
            FileSystem::Ntfs => "ntfs",
            FileSystem::Zfs => "zfs",
            FileSystem::Hfs => "hfs",
            FileSystem::HfsPlus => "hfs+",
            FileSystem::Jfs => "jfs",
            FileSystem::Reiser3 => "reiserfs",
            FileSystem::Reiser4 => "reiser4",
            FileSystem::Btrfs => "btrfs",
            FileSystem::Minix => "minix",
            FileSystem::Nilfs => "nilfs",
            FileSystem::Xfs => "xfs",
            FileSystem::Apfs => "apfs",
            FileSystem::FuseBlk => "fuseblk",
            FileSystem::Other(s) => s.as_str(),
        }
    }

    /// The filesystem a name stands for, ignoring the case of ASCII letters;
    /// an unknown name gives `Other` holding the name as written.
    pub fn from_name(s: &str) -> (r: FileSystem)
        ensures
            match known_filesystem(s@) {
                Some(k) => r == k,
                None => r is Other && r->Other_0@ == s@,
            },
    {
        if eq_ignore_case(s, "ext2") {
            FileSystem::Ext2
        } else if eq_ignore_case(s, "ext3") {
            FileSystem::Ext3
        } else if eq_ignore_case(s, "ext4") {
            FileSystem::Ext4
        } else if eq_ignore_case(s, "vfat") {
            FileSystem::VFat
        } else if eq_ignore_case(s, "ntfs") {
            FileSystem::Ntfs
        } else if eq_ignore_case(s, "zfs") {
            FileSystem::Zfs
        } else if eq_ignore_case(s, "hfs") {
            FileSystem::Hfs
        } else if eq_ignore_case(s, "reiserfs") {
            FileSystem::Reiser3
        } else if eq_ignore_case(s, "reiser4") {
            FileSystem::Reiser4
        } else if eq_ignore_case(s, "exfat") {
            FileSystem::ExFat
        } else if eq_ignore_case(s, "f2fs") {
            FileSystem::F2fs
        } else if eq_ignore_case(s, "hfsplus") {
            FileSystem::HfsPlus
        } else if eq_ignore_case(s, "jfs") {
            FileSystem::Jfs
        } else if eq_ignore_case(s, "btrfs") {
            FileSystem::Btrfs
        } else if eq_ignore_case(s, "minix") {
            FileSystem::Minix
        } else if eq_ignore_case(s, "nilfs") {
            FileSystem::Nilfs
        } else if eq_ignore_case(s, "xfs") {
            FileSystem::Xfs
        } else if eq_ignore_case(s, "apfs") {
            FileSystem::Apfs
        } else if eq_ignore_case(s, "fuseblk") {
            FileSystem::FuseBlk
        } else {
            FileSystem::Other(s.to_string())
        }
    }
}

impl std::str::FromStr for FileSystem {
    type Err = std::convert::Infallible;

    fn from_str(s: &str) -> (r: Result<FileSystem, std::convert::Infallible>)
        ensures
            r is Ok,
            match known_filesystem(s@) {
                Some(k) => r->Ok_0 == k,
                None => r->Ok_0 is Other && r->Ok_0->Other_0@ == s@,
            },
    {
        Ok(FileSystem::from_name(s))
    }
}

} // verus!
