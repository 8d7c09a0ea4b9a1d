//! What can go wrong while installing one package.

use vstd::prelude::*;

verus! {

#[derive(Clone, Copy, Debug, PartialEq, Eq, Structural)]
pub enum InstallError {
    /// Neither script extension was found locally or on the repository.
    ScriptNotFound,
    /// A local script could not be copied into the staging directory.
    ScriptCopyFailed,
    /// The staged script could not be read.
    ScriptUnreadable,
    /// The script lacks a non-empty `source` or `format`.
    InvalidScript,
    /// The `format` names no archive kind this installer knows.
    UnsupportedFormat,
    /// The payload download failed.
    TransportError,
    /// The archive could not be decoded.
    CorruptArchive,
    /// An archive entry would land outside the scratch directory.
    UnsafeEntryPath,
    /// An archive entry is a link, device or other member that cannot be
    /// reproduced as a plain file or directory.
    UnsupportedEntry,
    /// Writing the extracted tree failed.
    FilesystemError,
}

/// The status text of each error.
pub open spec fn message_of(e: InstallError) -> Seq<char> {
    match e {
        InstallError::ScriptNotFound => "no .sspm or .rlpm script found"@,
        InstallError::ScriptCopyFailed => "failed to copy local script"@,
        InstallError::ScriptUnreadable => "failed to read staged script"@,
        InstallError::InvalidScript => "invalid package script: missing source or format"@,
        InstallError::UnsupportedFormat => "unsupported archive format"@,
        InstallError::TransportError => "download failed"@,
        InstallError::CorruptArchive => "corrupt archive"@,
        InstallError::UnsafeEntryPath => "archive entry escapes the target directory"@,
        InstallError::UnsupportedEntry => "archive entry is a link or special file"@,
        InstallError::FilesystemError => "failed to write extracted files"@,
    }
}

impl InstallError {
    /// A short description for status lines.
    pub fn message(&self) -> (r: &'static str)
        ensures
            r@ == message_of(*self),
    {
        match self {
            InstallError::ScriptNotFound => "no .sspm or .rlpm script found",
            InstallError::ScriptCopyFailed => "failed to copy local script",
            InstallError::ScriptUnreadable => "failed to read staged script",
            InstallError::InvalidScript => "invalid package script: missing source or format",
            InstallError::UnsupportedFormat => "unsupported archive format",
            InstallError::TransportError => "download failed",
            InstallError::CorruptArchive => "corrupt archive",
            InstallError::UnsafeEntryPath => "archive entry escapes the target directory",
            InstallError::UnsupportedEntry => "archive entry is a link or special file",
            InstallError::FilesystemError => "failed to write extracted files",
        }
    }
}

} // verus!
