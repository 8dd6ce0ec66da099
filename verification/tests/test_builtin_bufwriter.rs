use sdk::error::SdkError;
use sdk::file::{FileWriter, WriteAction, WriteProgress};
use std::cmp::min;
use std::io::{BufWriter, Write};

const FILE_SIZE: usize = 16384 * 1024;

/// A host whose file has room for 16 MiB and keeps its write position
/// across handles.
struct Host {
    file: Vec<u8>,
    pointer: usize,
}

impl Host {
    fn write_file_stream(&mut self, data: &[u8]) -> i64 {
        let end = min(self.file.len(), self.pointer + data.len());
        let n = end - self.pointer;
        self.file[self.pointer..end].copy_from_slice(&data[..n]);
        self.pointer = end;
        n as i64
    }
}

/// Drives the library's writer against the host.
struct HostFileWriter<'a> {
    writer: FileWriter,
    host: &'a mut Host,
}

impl<'a> Write for HostFileWriter<'a> {
    fn write(&mut self, buf: &[u8]) -> std::io::Result<usize> {
        let mut progress = WriteProgress::new(buf.len());
        loop {
            match self.writer.next_write(&progress) {
                WriteAction::Send { start, end } => {
                    let written = self.host.write_file_stream(&buf[start..end]);
                    if !self.writer.acknowledge_write(&mut progress, written) {
                        return Err(std::io::Error::new(
                            std::io::ErrorKind::Other,
                            SdkError::FileWrite.message(),
                        ));
                    }
                }
                WriteAction::Done(n) => return Ok(n),
            }
        }
    }

    fn flush(&mut self) -> std::io::Result<()> {
        FileWriter::flush_outcome(1)
            .map_err(|e| std::io::Error::new(std::io::ErrorKind::Other, e.message()))
    }
}

fn open<'a>(host: &'a mut Host) -> HostFileWriter<'a> {
    HostFileWriter { writer: FileWriter::opened(10000000, 16 * 1024).unwrap(), host }
}

#[test]
fn test_file_write() {
    let mut host = Host { file: vec![0; FILE_SIZE], pointer: 0 };
    let test_case = "Hi wasmer.\nGood to see you.\n".as_bytes();
    {
        let mut writer = BufWriter::new(open(&mut host));
        let ret = writer.write(test_case).unwrap();
        writer.flush().unwrap();
        assert_eq!(ret, test_case.len());
    }
    let mut expected = "Hi wasmer.\nGood to see you.\n".as_bytes().to_vec();
    expected.resize(16 * 1048576, 0);
    assert_eq!(host.file, expected);

    let test_case = [99; 1 * 1048576];
    {
        let mut writer = BufWriter::new(open(&mut host));
        let ret = writer.write(&test_case).unwrap();
        writer.flush().unwrap();
        assert_eq!(ret, 1048576);
    }
    let mut expected = "Hi wasmer.\nGood to see you.\n".as_bytes().to_vec();
    expected.append(&mut vec![99; 1048576]);
    expected.resize(FILE_SIZE, 0);
    assert_eq!(host.file, expected);
}

#[test]
fn test_file_write_all() {
    let mut host = Host { file: vec![0; FILE_SIZE], pointer: 0 };
    let test_case = "Hi wasmer.\nGood to see you.\n".as_bytes();
    {
        let mut writer = BufWriter::new(open(&mut host));
        writer.write_all(test_case).unwrap();
        writer.flush().unwrap();
    }
    let mut expected = "Hi wasmer.\nGood to see you.\n".as_bytes().to_vec();
    expected.resize(16 * 1048576, 0);
    assert_eq!(host.file, expected);

    let test_case = [99; 1 * 1048576];
    {
        let mut writer = BufWriter::new(open(&mut host));
        writer.write_all(&test_case).unwrap();
        writer.flush().unwrap();
    }
    let mut expected = "Hi wasmer.\nGood to see you.\n".as_bytes().to_vec();
    expected.append(&mut vec![99; 1048576]);
    expected.resize(FILE_SIZE, 0);
    assert_eq!(host.file, expected);
}
