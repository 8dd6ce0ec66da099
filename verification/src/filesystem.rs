//! The interpretation of the host's answers to filesystem requests.
use vstd::prelude::*;
use crate::error::SdkError;

verus! {

/// The host's answer to a removal request: zero means failure.
pub fn removal_outcome(ret: u8) -> (r: Result<(), SdkError>)
    ensures
        r is Err <==> ret == 0,
        r matches Err(e) ==> e == SdkError::RemoveEntry,
{
    if ret == 0 {
        return Err(SdkError::RemoveEntry);
    }
    Ok(())
}

/// The host's answer to a move request: zero means failure.
pub fn move_outcome(ret: u8) -> (r: Result<(), SdkError>)
    ensures
        r is Err <==> ret == 0,
        r matches Err(e) ==> e == SdkError::MoveEntry,
{
    if ret == 0 {
        return Err(SdkError::MoveEntry);
    }
    Ok(())
}

/// The host's answer to an existence query: any non-zero value means the
/// path exists.
pub fn existence_outcome(res: u8) -> (exists: bool)
    ensures
        exists <==> res != 0,
{
    res != 0
}

/// The host's answer to an is-file query: negative means the query failed,
/// zero that the path is not a file, positive that it is.
pub fn is_file_outcome(res: i8) -> (r: Result<bool, SdkError>)
    ensures
        r is Err <==> res < 0,
        r matches Err(e) ==> e == SdkError::IsFile,
        r matches Ok(b) ==> (b <==> res > 0),
{
    if res < 0 {
        return Err(SdkError::IsFile);
    }
    Ok(res != 0)
}

/// The host's answer to a file-size query: negative means the query failed,
/// otherwise it is the size in bytes.
pub fn file_size_outcome(res: i64) -> (r: Result<u64, SdkError>)
    ensures
        r is Err <==> res < 0,
        r matches Err(e) ==> e == SdkError::FileSize,
        r matches Ok(n) ==> n == res,
{
    if res < 0 {
        return Err(SdkError::FileSize);
    }
    Ok(res as u64)
}

/// The host's answer to a directory creation request: zero means failure.
pub fn create_dir_outcome(res: u8) -> (r: Result<(), SdkError>)
    ensures
        r is Err <==> res == 0,
        r matches Err(e) ==> e == SdkError::CreateDir,
{
    if res == 0 {
        return Err(SdkError::CreateDir);
    }
    Ok(())
}

} // verus!
