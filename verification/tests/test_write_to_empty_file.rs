use sdk::error::SdkError;
use sdk::file::{FileWriter, WriteAction, WriteProgress};
use std::io::Write;

/// A host whose file has no room at all: every write stores nothing.
struct HostFileWriter {
    writer: FileWriter,
    stored: Vec<u8>,
}

impl HostFileWriter {
    fn open() -> HostFileWriter {
        HostFileWriter { writer: FileWriter::opened(10000000, 16 * 1024).unwrap(), stored: Vec::new() }
    }

    fn write_file_stream(&mut self, _data: &[u8]) -> i64 {
        0
    }
}

impl Write for HostFileWriter {
    fn write(&mut self, buf: &[u8]) -> std::io::Result<usize> {
        let mut progress = WriteProgress::new(buf.len());
        loop {
            match self.writer.next_write(&progress) {
                WriteAction::Send { start, end } => {
                    let written = self.write_file_stream(&buf[start..end]);
                    if !self.writer.acknowledge_write(&mut progress, written) {
                        return Err(std::io::Error::new(
                            std::io::ErrorKind::Other,
                            SdkError::FileWrite.message(),
                        ));
                    }
                }
                WriteAction::Done(n) => return Ok(n),
            }
        }
    }

    fn flush(&mut self) -> std::io::Result<()> {
        Ok(())
    }
}

#[test]
fn test_write_buffer_1gb() {
    let mut file = HostFileWriter::open();
    let mut buffer = vec![128; 1073741824];
    match file.write(&mut buffer) {
        Ok(_) => panic!("Should panic"),
        Err(_) => (),
    };
}

#[test]
fn test_write_buffer_100mb() {
    let mut file = HostFileWriter::open();
    let mut buffer = vec![128; 1048576 * 100];
    match file.write(&mut buffer) {
        Ok(_) => panic!("Should panic"),
        Err(_) => (),
    };
}

#[test]
fn test_write_buffer_100kb() {
    let mut file = HostFileWriter::open();
    let mut buffer = vec![128; 1024 * 100];
    match file.write(&mut buffer) {
        Ok(_) => panic!("Should panic"),
        Err(_) => (),
    };
}

#[test]
fn test_write_buffer_empty() {
    let mut file = HostFileWriter::open();
    let mut buffer = vec![];
    let ret = file.write(&mut buffer).unwrap();
    assert_eq!(ret, 0);
    let expected: [u8; 0] = [];
    assert_eq!(file.stored, expected);
}
