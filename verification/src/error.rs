use vstd::prelude::*;

verus! {

/// The failures that the SDK reports to its callers.
#[derive(Debug, Clone, Copy, PartialEq, Eq, Structural)]
pub enum SdkError {
    /// The host refused to open a file (negative handle).
    FileOpen,
    /// The host refused to open a file stream (negative handle).
    StreamOpen,
    /// The host wrote fewer bytes than it was handed.
    FileWrite,
    /// Reading from a file failed.
    FileRead,
    /// The host could not flush a file.
    Flush,
    /// The host refused to open a network connection (negative handle).
    ConnectionOpen,
    /// Reading from a network connection failed.
    ConnectionRead,
    /// The host could not remove a filesystem entry.
    RemoveEntry,
    /// The host could not move a filesystem entry.
    MoveEntry,
    /// The host could not tell whether a path is a file.
    IsFile,
    /// The host could not report the size of a file.
    FileSize,
    /// The host could not create a directory.
    CreateDir,
}

impl SdkError {
    /// The human-readable message that accompanies this error.
    pub fn message(&self) -> (msg: &'static str)
        ensures
            *self == SdkError::FileOpen ==> msg@ == "File cannot be opened"@,
            *self == SdkError::StreamOpen ==> msg@
                == "File cannot be opened, negative id returned by the Sirius Chain"@,
            *self == SdkError::FileWrite ==> msg@ == "File cannot be written"@,
            *self == SdkError::FileRead ==> msg@ == "File cannot be read"@,
            *self == SdkError::Flush ==> msg@ == "Failed to flush the written buffer"@,
            *self == SdkError::ConnectionOpen ==> msg@
                == "Connection cannot be opened, negative id returned by the Sirius Chain"@,
            *self == SdkError::ConnectionRead ==> msg@
                == "File cannot be read, Sirius Chain returned negative length of the buffer"@,
            *self == SdkError::RemoveEntry ==> msg@ == "Failed to remove entry"@,
            *self == SdkError::MoveEntry ==> msg@ == "Failed to move file"@,
            *self == SdkError::IsFile ==> msg@ == "Failed to check whether is file"@,
            *self == SdkError::FileSize ==> msg@ == "Failed to obtain file size"@,
            *self == SdkError::CreateDir ==> msg@ == "Failed to create a directory"@,
    {
        match self {
            SdkError::FileOpen => "File cannot be opened",
            SdkError::StreamOpen => "File cannot be opened, negative id returned by the Sirius Chain",
            SdkError::FileWrite => "File cannot be written",
            SdkError::FileRead => "File cannot be read",
            SdkError::Flush => "Failed to flush the written buffer",
            SdkError::ConnectionOpen => "Connection cannot be opened, negative id returned by the Sirius Chain",
            SdkError::ConnectionRead => "File cannot be read, Sirius Chain returned negative length of the buffer",
            SdkError::RemoveEntry => "Failed to remove entry",
            SdkError::MoveEntry => "Failed to move file",
            SdkError::IsFile => "Failed to check whether is file",
            SdkError::FileSize => "Failed to obtain file size",
            SdkError::CreateDir => "Failed to create a directory",
        }
    }
}

} // verus!
