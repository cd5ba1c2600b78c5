use embedded_block_io::io::{ErrorKind, SeekFrom};
use embedded_block_io::stream_slice::{StreamSlice, StreamSliceError};

/// A stream over a vector, as far as a slice needs one.
struct Cursor {
    bytes: Vec<u8>,
    position: u64,
    /// The most bytes that a call moves.
    chunk: usize,
}

impl Cursor {
    fn new(bytes: Vec<u8>) -> Self {
        Cursor { bytes, position: 0, chunk: usize::MAX }
    }

    fn read(&mut self, buf: &mut [u8]) -> Result<usize, ()> {
        let start = (self.position as usize).min(self.bytes.len());
        let n = buf.len().min(self.bytes.len() - start).min(self.chunk);
        buf[..n].copy_from_slice(&self.bytes[start..start + n]);
        self.position += n as u64;
        Ok(n)
    }

    fn write(&mut self, buf: &[u8]) -> Result<usize, ()> {
        let start = (self.position as usize).min(self.bytes.len());
        let n = buf.len().min(self.bytes.len() - start).min(self.chunk);
        self.bytes[start..start + n].copy_from_slice(&buf[..n]);
        self.position += n as u64;
        Ok(n)
    }

    fn seek(&mut self, position: u64) -> Result<u64, ()> {
        self.position = position;
        Ok(position)
    }
}

type Error = StreamSliceError<()>;

fn open(bytes: Vec<u8>, start: u64, end: u64) -> StreamSlice<Cursor> {
    let mut inner = Cursor::new(bytes);
    inner.seek(start).unwrap();
    StreamSlice::new(inner, start, end)
}

fn read(stream: &mut StreamSlice<Cursor>, buf: &mut [u8]) -> Result<usize, Error> {
    let n = stream.begin_read(buf.len());
    let count = stream.inner_mut().read(&mut buf[..n])?;
    Ok(stream.end_read(count))
}

fn write(stream: &mut StreamSlice<Cursor>, buf: &[u8]) -> Result<usize, Error> {
    let n = stream.begin_write(buf.len())?;
    let count = stream.inner_mut().write(&buf[..n])?;
    stream.end_write(n, count)
}

fn seek(stream: &mut StreamSlice<Cursor>, pos: SeekFrom) -> Result<u64, Error> {
    let target = stream.begin_seek(pos)?;
    let reached = stream.inner_mut().seek(target)?;
    Ok(stream.end_seek(reached))
}

fn write_all(stream: &mut StreamSlice<Cursor>, mut buf: &[u8]) -> Result<(), Error> {
    while !buf.is_empty() {
        let n = write(stream, buf)?;
        buf = &buf[n..];
    }
    Ok(())
}

fn read_to_string(stream: &mut StreamSlice<Cursor>) -> Result<String, Error> {
    let mut buf = Vec::new();
    loop {
        let mut tmp = [0; 256];
        match read(stream, &mut tmp) {
            Ok(0) => break,
            Ok(n) => buf.extend(&tmp[..n]),
            Err(e) => return Err(e),
        }
    }
    Ok(String::from_utf8(buf).unwrap())
}

#[test]
fn stream_slice_stream_test() {
    let buf = "BeforeTest dataAfter".to_string().into_bytes();
    let mut stream = open(buf, 6, 6 + 9);

    let data = read_to_string(&mut stream).unwrap();
    assert_eq!(data, "Test data");

    seek(&mut stream, SeekFrom::Start(5)).unwrap();
    let data = read_to_string(&mut stream).unwrap();
    assert_eq!(data, "data");

    seek(&mut stream, SeekFrom::Start(5)).unwrap();
    write_all(&mut stream, "Rust".as_bytes()).unwrap();
    assert!(write_all(&mut stream, "X".as_bytes()).is_err());
    seek(&mut stream, SeekFrom::Start(0)).unwrap();
    let data = read_to_string(&mut stream).unwrap();
    assert_eq!(data, "Test Rust");
}

#[test]
fn writes_stay_in_the_window() {
    let mut stream = open("BeforeTest dataAfter".to_string().into_bytes(), 6, 15);
    seek(&mut stream, SeekFrom::Start(5)).unwrap();
    write_all(&mut stream, b"Rust").unwrap();
    assert!(matches!(write(&mut stream, b"X"), Err(StreamSliceError::WriteZero)));
    // a write over the end is cut short, and does not fail
    seek(&mut stream, SeekFrom::Start(7)).unwrap();
    assert_eq!(write(&mut stream, b"abcdef").unwrap(), 2);
    assert_eq!(stream.position(), 15);
    assert_eq!(stream.into_inner().bytes, b"BeforeTest RuabAfter");
}

#[test]
fn cursor_and_stream_move_together() {
    let mut stream = open((0..100).collect(), 10, 60);
    assert_eq!(stream.position(), 10);
    let mut buf = [0u8; 20];
    assert_eq!(read(&mut stream, &mut buf).unwrap(), 20);
    assert_eq!(buf[0], 10);
    assert_eq!(stream.position(), 30);
    assert_eq!(stream.inner_mut().position, 30);
    assert_eq!(seek(&mut stream, SeekFrom::Current(-5)).unwrap(), 15);
    assert_eq!(stream.inner_mut().position, 25);
    assert_eq!(seek(&mut stream, SeekFrom::End(-10)).unwrap(), 40);
    assert_eq!(stream.inner_mut().position, 50);
    assert_eq!(write(&mut stream, &[0; 4]).unwrap(), 4);
    assert_eq!(stream.position(), 54);
    assert_eq!(stream.inner_mut().position, 54);
    // a read at the end of the window reads nothing
    assert_eq!(seek(&mut stream, SeekFrom::End(0)).unwrap(), 50);
    assert_eq!(read(&mut stream, &mut buf).unwrap(), 0);
    assert_eq!(stream.position(), 60);
}

#[test]
fn short_transfers_move_the_cursor_by_what_was_moved() {
    let mut stream = open((0..100).collect(), 10, 60);
    stream.inner_mut().chunk = 3;
    let mut buf = [0u8; 20];
    assert_eq!(stream.begin_read(20), 20);
    assert_eq!(read(&mut stream, &mut buf).unwrap(), 3);
    assert_eq!(&buf[..3], &[10, 11, 12]);
    assert_eq!(stream.position(), 13);
    assert_eq!(write(&mut stream, &[1; 20]).unwrap(), 3);
    assert_eq!(stream.position(), 16);
    // a stream that takes nothing of what it is handed is an error
    stream.inner_mut().chunk = 0;
    assert!(matches!(write(&mut stream, &[1; 20]), Err(StreamSliceError::WriteZero)));
    assert_eq!(stream.position(), 16);
    // nothing to write is no error
    assert_eq!(write(&mut stream, &[]).unwrap(), 0);
    assert_eq!(stream.begin_read(0), 0);
}

#[test]
fn transfers_are_limited_by_the_window() {
    let mut stream = open(vec![0; 100], 10, 60);
    assert_eq!(stream.begin_read(1000), 50);
    assert_eq!(stream.begin_write::<()>(1000).unwrap(), 50);
    assert_eq!(stream.begin_read(7), 7);
    seek(&mut stream, SeekFrom::Start(48)).unwrap();
    assert_eq!(stream.begin_read(7), 2);
    assert_eq!(stream.begin_write::<()>(7).unwrap(), 2);
    seek(&mut stream, SeekFrom::Start(50)).unwrap();
    assert_eq!(stream.begin_read(7), 0);
    assert!(matches!(stream.begin_write::<()>(7), Err(StreamSliceError::WriteZero)));
    assert_eq!(stream.begin_write::<()>(0).unwrap(), 0);
}

#[test]
fn seeks_out_of_the_window_are_invalid() {
    let mut stream = open(vec![0; 100], 10, 60);
    seek(&mut stream, SeekFrom::Start(20)).unwrap();
    assert!(matches!(seek(&mut stream, SeekFrom::Start(51)), Err(StreamSliceError::InvalidSeek(51))));
    assert!(matches!(seek(&mut stream, SeekFrom::Current(-21)), Err(StreamSliceError::InvalidSeek(-1))));
    assert!(matches!(seek(&mut stream, SeekFrom::Current(31)), Err(StreamSliceError::InvalidSeek(51))));
    assert!(matches!(seek(&mut stream, SeekFrom::End(1)), Err(StreamSliceError::InvalidSeek(51))));
    assert!(matches!(seek(&mut stream, SeekFrom::End(-51)), Err(StreamSliceError::InvalidSeek(-1))));
    assert!(matches!(
        seek(&mut stream, SeekFrom::End(i64::MIN)),
        Err(StreamSliceError::InvalidSeek(offset)) if offset == i64::MIN + 50
    ));
    // offsets from 2^63 on are reported as they look in 64 bits with a sign
    assert!(matches!(
        seek(&mut stream, SeekFrom::Start(u64::MAX)),
        Err(StreamSliceError::InvalidSeek(-1))
    ));
    assert!(matches!(
        seek(&mut stream, SeekFrom::Current(i64::MAX)),
        Err(StreamSliceError::InvalidSeek(offset)) if offset == i64::MIN + 19
    ));
    // the cursor has not moved
    assert_eq!(stream.position(), 30);
    // the ends of the window are in it
    assert_eq!(seek(&mut stream, SeekFrom::Start(50)).unwrap(), 50);
    assert_eq!(seek(&mut stream, SeekFrom::Current(-50)).unwrap(), 0);
    assert_eq!(seek(&mut stream, SeekFrom::End(-50)).unwrap(), 0);
    assert_eq!(seek(&mut stream, SeekFrom::End(0)).unwrap(), 50);
}

#[test]
fn empty_window() {
    let mut stream = open(vec![1, 2, 3], 2, 2);
    let mut buf = [0u8; 4];
    assert_eq!(read(&mut stream, &mut buf).unwrap(), 0);
    assert_eq!(write(&mut stream, &[]).unwrap(), 0);
    assert!(matches!(write(&mut stream, &[9]), Err(StreamSliceError::WriteZero)));
    assert_eq!(seek(&mut stream, SeekFrom::Start(0)).unwrap(), 0);
    assert!(matches!(seek(&mut stream, SeekFrom::Start(1)), Err(StreamSliceError::InvalidSeek(1))));
    assert_eq!(stream.into_inner().bytes, vec![1, 2, 3]);
}

#[test]
fn error_kinds() {
    assert_eq!(StreamSliceError::<()>::InvalidSeek(-1).kind(), ErrorKind::InvalidInput);
    assert_eq!(StreamSliceError::<()>::WriteZero.kind(), ErrorKind::Other);
    assert_eq!(StreamSliceError::Other(()).kind(), ErrorKind::Other);
    assert!(matches!(StreamSliceError::from(7u8), StreamSliceError::Other(7)));
}
