use sdk::file::{FileWriter, WriteAction, WriteProgress};
use sdk::filesystem::{create_dir_outcome, existence_outcome, file_size_outcome, move_outcome};

/// A host on which every path exists and every request succeeds.
struct Host;

impl Host {
    fn open_file(&self, _path: &str, _mode: &str) -> i64 {
        10000000
    }
    fn buffer_size(&self) -> u64 {
        1024
    }
    fn write_file_stream(&self, _data: &[u8]) -> i64 {
        1024
    }
    fn path_exists(&self, _path: &str) -> u8 {
        1
    }
    fn file_size(&self, _path: &str) -> i64 {
        1
    }
    fn create_dir(&self, _path: &str) -> u8 {
        1
    }
    fn move_filesystem_entry(&self, _new_path: &str, _old_path: &str) -> u8 {
        1
    }

    fn write(&self, writer: &FileWriter, buf: &[u8]) -> Result<usize, &'static str> {
        let mut progress = WriteProgress::new(buf.len());
        loop {
            match writer.next_write(&progress) {
                WriteAction::Send { start, end } => {
                    let written = self.write_file_stream(&buf[start..end]);
                    if !writer.acknowledge_write(&mut progress, written) {
                        return Err("File cannot be written");
                    }
                }
                WriteAction::Done(n) => return Ok(n),
            }
        }
    }
}

#[test]
fn test_contract_file_test_internet() {
    let host = Host;
    let buf = [99u8; 1024];
    if existence_outcome(host.path_exists("./test")) {
        create_dir_outcome(host.create_dir("./test")).unwrap();
    } else {
        let file = FileWriter::opened(host.open_file("./text", "w"), host.buffer_size()).unwrap();
        let len = host.write(&file, &buf).unwrap();
        assert_eq!(1024, len);
        move_outcome(host.move_filesystem_entry("./test/text", "./text")).unwrap();
        let size = file_size_outcome(host.file_size("./test/text")).unwrap();
        assert_eq!(1024, size);
    }
}
