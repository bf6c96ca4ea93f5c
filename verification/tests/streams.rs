use std::io::Cursor;

use chksum_md5::reader;
use chksum_md5::writer;

struct FailingSource;

impl std::io::Read for FailingSource {
    fn read(&mut self, _buf: &mut [u8]) -> std::io::Result<usize> {
        Err(std::io::Error::new(std::io::ErrorKind::Other, "broken source"))
    }
}

struct StingySink {
    accepted: Vec<u8>,
}

impl std::io::Write for StingySink {
    fn write(&mut self, buf: &[u8]) -> std::io::Result<usize> {
        let n = buf.len().min(3);
        self.accepted.extend_from_slice(&buf[..n]);
        Ok(n)
    }

    fn flush(&mut self) -> std::io::Result<()> {
        Ok(())
    }
}

#[test]
fn reader_digest_matches_direct_hash() {
    let source = Cursor::new(b"example data".to_vec());
    let mut reader = reader::new(source);
    let mut collected: Vec<u8> = Vec::new();
    let mut buf: Vec<u8> = Vec::new();
    loop {
        let n = reader.read(&mut buf, 5).unwrap();
        if n == 0 {
            break;
        }
        collected.extend_from_slice(&buf);
    }
    assert_eq!(collected, b"example data".to_vec());
    let digest = reader.digest();
    assert_eq!(digest, chksum_md5::hash(b"example data"));
    assert_eq!(digest.to_hex_lowercase(), "5c71dbb287630d65ca93764c34d9aa0d");
}

#[test]
fn reader_digest_reflects_only_bytes_read_so_far() {
    let source = Cursor::new(b"example data".to_vec());
    let mut reader = reader::new(source);
    let mut buf: Vec<u8> = Vec::new();
    let n = reader.read(&mut buf, 6).unwrap();
    assert_eq!(n, 6);
    assert_eq!(buf, b"exampl".to_vec());
    let digest = reader.digest();
    assert_eq!(digest, chksum_md5::hash(b"exampl"));
}

#[test]
fn reader_with_hash_continues_accumulation() {
    let mut hash = chksum_md5::new();
    hash.update(b"example ");
    let source = Cursor::new(b"data".to_vec());
    let mut reader = reader::with_hash(source, hash);
    let mut buf: Vec<u8> = Vec::new();
    loop {
        let n = reader.read(&mut buf, 64).unwrap();
        if n == 0 {
            break;
        }
    }
    assert_eq!(reader.digest().to_hex_lowercase(), "5c71dbb287630d65ca93764c34d9aa0d");
}

#[test]
fn reader_surfaces_source_error() {
    let mut reader = reader::new(FailingSource);
    let mut buf: Vec<u8> = Vec::new();
    let result = reader.read(&mut buf, 64);
    let error = result.err().expect("the failed read must surface an error");
    assert!(error.message().contains("broken source"));
    assert_eq!(reader.digest().to_hex_lowercase(), "d41d8cd98f00b204e9800998ecf8427e");
}

#[test]
fn writer_digest_matches_direct_hash() {
    let sink: Vec<u8> = Vec::new();
    let mut writer = writer::new(sink);
    writer.write_all(b"example data").unwrap();
    let digest = writer.digest();
    assert_eq!(digest, chksum_md5::hash(b"example data"));
    assert_eq!(digest.to_hex_lowercase(), "5c71dbb287630d65ca93764c34d9aa0d");
}

#[test]
fn writer_hashes_only_accepted_bytes() {
    let sink = StingySink { accepted: Vec::new() };
    let mut writer = writer::new(sink);
    let n = writer.write(b"example data").unwrap();
    assert_eq!(n, 3);
    let digest = writer.digest();
    assert_eq!(digest, chksum_md5::hash(b"exa"));
}

#[test]
fn writer_write_all_retries_partial_writes() {
    let sink = StingySink { accepted: Vec::new() };
    let mut writer = writer::new(sink);
    writer.write_all(b"example data").unwrap();
    let digest = writer.digest();
    assert_eq!(digest.to_hex_lowercase(), "5c71dbb287630d65ca93764c34d9aa0d");
}

#[test]
fn writer_with_hash_continues_accumulation() {
    let mut hash = chksum_md5::new();
    hash.update(b"example ");
    let sink: Vec<u8> = Vec::new();
    let mut writer = writer::with_hash(sink, hash);
    writer.write_all(b"data").unwrap();
    assert_eq!(writer.digest().to_hex_lowercase(), "5c71dbb287630d65ca93764c34d9aa0d");
}
