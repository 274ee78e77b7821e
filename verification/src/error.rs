//! Errors that a request is answered with.
use vstd::prelude::*;

verus! {

/// The classes of system error that a reply can carry.
#[derive(Clone, Copy, Debug, PartialEq, Eq, Structural)]
pub enum Errno {
    /// `ENOENT`
    NoEntry,
    /// `EIO`
    Io,
    /// `EBADF`
    BadDescriptor,
    /// `ENOTDIR`
    NotDirectory,
    /// `EINVAL`
    Invalid,
    /// `ENOTEMPTY`
    NotEmpty,
    /// A system error number that the backing file system reported.
    Raw(i32),
}

/// Why a request failed.
#[derive(Clone, Copy, Debug, PartialEq, Eq)]
pub enum FuseError {
    /// No inode has this number.
    InodeNotFound { ino: u64 },
    /// The directory has no entry of that name.
    NameNotFound { parent: u64 },
    /// The inode is not a directory.
    NotDirectory { ino: u64 },
    /// The chain of parents does not lead to the root.
    BrokenPath { ino: u64 },
    /// The directory still has cached children.
    DirectoryNotEmpty { ino: u64 },
    /// The directory inode has no entry table.
    MissingDirEntry { ino: u64 },
    /// The inode is not a file.
    NotFile { ino: u64 },
    /// The inode has changes of its own that are not written back.
    InodeDirty { ino: u64 },
    /// Write-back takes sequential appends only.
    NotSequential { offset: i64, len: usize },
    /// An offset cannot be negative.
    NegativeOffset,
    /// The flags hold no known access mode.
    InvalidAccessMode { mode: u32 },
    /// The flags opened neither a reader nor a writer.
    InvalidFlags { flags: u32 },
    /// The inode has no such file handle.
    FileHandleNotFound { ino: u64, fh: u64 },
    /// The inode has no such directory handle.
    DirHandleNotFound { ino: u64, fh: u64 },
    /// The state file does not start with the expected mark.
    InvalidMagic { mark: [u8; 4] },
    /// The state file is of another version.
    UnsupportedVersion { version: u64 },
    /// The state file ends early or holds a value out of range.
    CorruptState,
    /// The backing file system failed.
    Backend { code: i32 },
}

/// What a request gives.
pub type FuseResult<T> = Result<T, FuseError>;

impl FuseError {
    /// The class of system error that stands for this failure.
    pub open spec fn spec_errno(self) -> Errno {
        match self {
            FuseError::InodeNotFound { .. } => Errno::NoEntry,
            FuseError::NameNotFound { .. } => Errno::NoEntry,
            FuseError::NotDirectory { .. } => Errno::NotDirectory,
            FuseError::BrokenPath { .. } => Errno::Io,
            FuseError::DirectoryNotEmpty { .. } => Errno::NotEmpty,
            FuseError::MissingDirEntry { .. } => Errno::Io,
            FuseError::NotFile { .. } => Errno::Io,
            FuseError::InodeDirty { .. } => Errno::Io,
            FuseError::NotSequential { .. } => Errno::Invalid,
            FuseError::NegativeOffset => Errno::Invalid,
            FuseError::InvalidAccessMode { .. } => Errno::Invalid,
            FuseError::InvalidFlags { .. } => Errno::Invalid,
            FuseError::FileHandleNotFound { .. } => Errno::BadDescriptor,
            FuseError::DirHandleNotFound { .. } => Errno::BadDescriptor,
            FuseError::InvalidMagic { .. } => Errno::Io,
            FuseError::UnsupportedVersion { .. } => Errno::Io,
            FuseError::CorruptState => Errno::Io,
            FuseError::Backend { code } => Errno::Raw(code),
        }
    }

    /// The class of system error that stands for this failure.
    pub fn errno(&self) -> (r: Errno)
        ensures
            r == self.spec_errno(),
    {
        match *self {
            FuseError::InodeNotFound { .. } | FuseError::NameNotFound { .. } => Errno::NoEntry,
            FuseError::NotDirectory { .. } => Errno::NotDirectory,
            FuseError::DirectoryNotEmpty { .. } => Errno::NotEmpty,
            FuseError::NotSequential { .. }
            | FuseError::NegativeOffset
            | FuseError::InvalidAccessMode { .. }
            | FuseError::InvalidFlags { .. } => Errno::Invalid,
            FuseError::FileHandleNotFound { .. } | FuseError::DirHandleNotFound { .. } => {
                Errno::BadDescriptor
            },
            FuseError::BrokenPath { .. }
            | FuseError::MissingDirEntry { .. }
            | FuseError::NotFile { .. }
            | FuseError::InodeDirty { .. }
            | FuseError::InvalidMagic { .. }
            | FuseError::UnsupportedVersion { .. }
            | FuseError::CorruptState => Errno::Io,
            FuseError::Backend { code } => Errno::Raw(code),
        }
    }
}

/// Each failure is answered with its own class of system error, whatever it
/// carries: what is missing, no descriptor, no directory, not empty, an
/// invalid argument, and an I/O error for what should not happen.
pub proof fn law_failures_have_their_class(
    ino: u64,
    fh: u64,
    offset: i64,
    len: usize,
    mode: u32,
    mark: [u8; 4],
    version: u64,
    code: i32,
)
    ensures
        (FuseError::InodeNotFound { ino }).spec_errno() == Errno::NoEntry,
        (FuseError::NameNotFound { parent: ino }).spec_errno() == Errno::NoEntry,
        (FuseError::NotDirectory { ino }).spec_errno() == Errno::NotDirectory,
        (FuseError::DirectoryNotEmpty { ino }).spec_errno() == Errno::NotEmpty,
        (FuseError::MissingDirEntry { ino }).spec_errno() == Errno::Io,
        (FuseError::NotFile { ino }).spec_errno() == Errno::Io,
        (FuseError::InodeDirty { ino }).spec_errno() == Errno::Io,
        (FuseError::BrokenPath { ino }).spec_errno() == Errno::Io,
        (FuseError::NotSequential { offset, len }).spec_errno() == Errno::Invalid,
        FuseError::NegativeOffset.spec_errno() == Errno::Invalid,
        (FuseError::InvalidAccessMode { mode }).spec_errno() == Errno::Invalid,
        (FuseError::InvalidFlags { flags: mode }).spec_errno() == Errno::Invalid,
        (FuseError::FileHandleNotFound { ino, fh }).spec_errno() == Errno::BadDescriptor,
        (FuseError::DirHandleNotFound { ino, fh }).spec_errno() == Errno::BadDescriptor,
        (FuseError::InvalidMagic { mark }).spec_errno() == Errno::Io,
        (FuseError::UnsupportedVersion { version }).spec_errno() == Errno::Io,
        FuseError::CorruptState.spec_errno() == Errno::Io,
        (FuseError::Backend { code }).spec_errno() == Errno::Raw(code),
{
}

} // verus!
