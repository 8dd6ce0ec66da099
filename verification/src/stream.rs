//! Unbuffered file and network streams: each read or write is one host call.
use vstd::prelude::*;
use crate::error::SdkError;

verus! {

/// A file opened for writing; every write goes straight to the host.
pub struct FileWriter(i64);

/// A file opened for reading; every read goes straight to the host.
pub struct FileReader(i64);

/// A network connection; every read goes straight to the host.
pub struct Internet {
    id: i64,
}

impl FileWriter {
    pub closed spec fn id_spec(&self) -> i64 {
        self.0
    }

    /// The stream for the handle that the host returned when asked to open a
    /// file for writing; a negative handle means it could not be opened.
    pub fn opened(id: i64) -> (r: Result<FileWriter, SdkError>)
        ensures
            id < 0 <==> r is Err,
            r matches Err(e) ==> e == SdkError::StreamOpen,
            r matches Ok(w) ==> w.id_spec() == id,
    {
        if id < 0 {
            return Err(SdkError::StreamOpen);
        }
        Ok(FileWriter(id))
    }

    pub fn id(&self) -> (r: i64)
        ensures
            r == self.id_spec(),
    {
        self.0
    }
}

impl FileReader {
    pub closed spec fn id_spec(&self) -> i64 {
        self.0
    }

    /// The stream for the handle that the host returned when asked to open a
    /// file for reading; a negative handle means it could not be opened.
    pub fn opened(id: i64) -> (r: Result<FileReader, SdkError>)
        ensures
            id < 0 <==> r is Err,
            r matches Err(e) ==> e == SdkError::StreamOpen,
            r matches Ok(f) ==> f.id_spec() == id,
    {
        if id < 0 {
            return Err(SdkError::StreamOpen);
        }
        Ok(FileReader(id))
    }

    pub fn id(&self) -> (r: i64)
        ensures
            r == self.id_spec(),
    {
        self.0
    }
}

impl Internet {
    pub closed spec fn id_spec(&self) -> i64 {
        self.id
    }

    /// The stream for the handle that the host returned when asked to open a
    /// URL; a negative handle means the connection could not be opened.
    pub fn connected(id: i64) -> (r: Result<Internet, SdkError>)
        ensures
            id < 0 <==> r is Err,
            r matches Err(e) ==> e == SdkError::ConnectionOpen,
            r matches Ok(c) ==> c.id_spec() == id,
    {
        if id < 0 {
            return Err(SdkError::ConnectionOpen);
        }
        Ok(Internet { id })
    }

    pub fn id(&self) -> (r: i64)
        ensures
            r == self.id_spec(),
    {
        self.id
    }
}

} // verus!
