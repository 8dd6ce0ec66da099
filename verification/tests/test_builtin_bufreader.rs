use sdk::error::SdkError;
use sdk::file::FileReader;
use sdk::read_buffer::{ReadAction, ReadProgress};
use std::cmp::min;
use std::io::{BufRead, BufReader, Read};

const FILE_SIZE: usize = 16384 * 1024;

/// A host whose file holds 16 MiB and hands out 16 KiB per fetch.
struct Host {
    file: Vec<u8>,
    pointer: usize,
}

impl Host {
    fn new(prefix: &[u8]) -> Host {
        let mut file = vec![99u8; FILE_SIZE];
        file[..prefix.len()].copy_from_slice(prefix);
        Host { file, pointer: 0 }
    }

    fn open_file(&self) -> i64 {
        10000000
    }

    fn buffer_size(&self) -> u64 {
        16 * 1024
    }

    fn read_file_stream(&mut self, out: &mut [u8]) -> i64 {
        let end = min(16384 + self.pointer, self.file.len());
        let n = end - self.pointer;
        out[..n].copy_from_slice(&self.file[self.pointer..end]);
        self.pointer = end;
        n as i64
    }
}

/// Drives the library's reader against the host.
struct HostFileReader {
    reader: FileReader,
    host: Host,
}

impl HostFileReader {
    fn open(host: Host) -> HostFileReader {
        let reader = FileReader::opened(host.open_file(), host.buffer_size()).unwrap();
        HostFileReader { reader, host }
    }
}

impl Read for HostFileReader {
    fn read(&mut self, buf: &mut [u8]) -> std::io::Result<usize> {
        let mut progress = ReadProgress::new(buf.len());
        let mut out = Vec::new();
        let mut scratch = vec![0u8; self.reader.chunk_size()];
        loop {
            match self.reader.read_step(&mut progress, &mut out) {
                ReadAction::Fetch => {
                    let ret = self.host.read_file_stream(&mut scratch);
                    self.reader.receive(&mut progress, &scratch[..ret as usize]);
                }
                ReadAction::Done(n) => {
                    buf[..n].copy_from_slice(&out);
                    return Ok(n);
                }
                ReadAction::Fail => {
                    return Err(std::io::Error::new(
                        std::io::ErrorKind::Other,
                        SdkError::FileRead.message(),
                    ))
                }
            }
        }
    }
}

#[test]
fn test_file_read_default() {
    let test_case = "Hi wasmer.\nGood to see you.\n".as_bytes();
    let host = Host::new(test_case);
    let head = host.file[..8192].to_vec();
    let file = HostFileReader::open(host);
    let mut reader = BufReader::new(file);
    let mut big_buffer = Vec::new();
    reader.read(&mut big_buffer).unwrap();
    let expected: Vec<u8> = vec![];
    assert_eq!(big_buffer, expected);
    big_buffer.resize(20 * 1048576, 0);
    let ret = reader.read(&mut big_buffer).unwrap();
    let mut remain = head;
    remain.resize(20 * 1048576, 0);
    assert_eq!(big_buffer.len(), 20 * 1048576);
    assert_eq!(ret, 8192);
    assert_eq!(big_buffer.to_vec(), remain);
}

#[test]
fn test_file_read_with_cap() {
    let test_case = "Hi wasmer.\nGood to see you.\n".as_bytes();
    let host = Host::new(test_case);
    let mut expected = host.file.clone();
    let file = HostFileReader::open(host);
    let mut reader = BufReader::with_capacity(20 * 1048576, file);
    let mut big_buffer = Vec::new();
    big_buffer.resize(20 * 1048576, 0);
    let ret = reader.read(&mut big_buffer).unwrap();
    expected.resize(20 * 1048576, 0);
    assert_eq!(ret, 16 * 1048576);
    assert_eq!(big_buffer, expected);
}

#[test]
fn test_file_read_line() {
    let test_case = "Hi wasmer.\nGood to see you.\n".as_bytes();
    let file = HostFileReader::open(Host::new(test_case));
    let mut reader = BufReader::new(file);
    let mut big_buffer = String::new();
    reader.read_line(&mut big_buffer).unwrap();
    assert_eq!(big_buffer, "Hi wasmer.\n");
    reader.read_line(&mut big_buffer).unwrap();
    assert_eq!(big_buffer, "Hi wasmer.\nGood to see you.\n");
}

#[test]
fn test_file_read_all() {
    let test_case = "Hi wasmer.\nGood to see you.\n".as_bytes();
    let file = HostFileReader::open(Host::new(test_case));
    let mut reader = BufReader::new(file);
    let mut big_buffer = Vec::new();
    reader.read_to_end(&mut big_buffer).unwrap();
    let mut remain = vec![];
    for _ in 0..FILE_SIZE - test_case.len() {
        remain.push(99);
    }
    let mut expected = "Hi wasmer.\nGood to see you.\n".as_bytes().to_vec();
    expected.append(&mut remain);
    assert_eq!(big_buffer, expected);
}

#[test]
fn test_file_read_exact() {
    let test_case = "Hi wasmer.\nGood to see you.\n".as_bytes();
    let file = HostFileReader::open(Host::new(test_case));
    let mut reader = BufReader::new(file);
    let mut big_buffer = Vec::new();
    reader.read_exact(&mut big_buffer).unwrap();
    let expected: Vec<u8> = vec![];
    assert_eq!(big_buffer, expected);
    let mut big_buffer = [0u8; 1 * 1048576];
    reader.read_exact(&mut big_buffer).unwrap();
    let mut remain = vec![];
    for _ in 0..1048576 - test_case.len() {
        remain.push(99);
    }
    let mut expected = "Hi wasmer.\nGood to see you.\n".as_bytes().to_vec();
    expected.append(&mut remain);
    assert_eq!(big_buffer.len(), 1048576);
    assert_eq!(expected.len(), 1048576);
    assert_eq!(reader.get_ref().host.pointer, 1048576);
    assert_eq!(big_buffer.to_vec(), expected);
}
