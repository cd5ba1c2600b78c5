use embedded_block_io::block_device_driver::BlockDevice;
use embedded_block_io::buf_stream::{BufStream, BufStreamError};
use embedded_block_io::io::{ErrorKind, SeekFrom};

/// A device over a vector that asks for buffers aligned to four bytes, and counts the
/// transfers it is asked for.
struct TestBlockDevice {
    bytes: Vec<u8>,
    reads: Vec<(u32, usize)>,
    writes: Vec<(u32, usize)>,
    fail_writes: bool,
    fail_reads: bool,
}

impl TestBlockDevice {
    fn new(bytes: Vec<u8>) -> Self {
        TestBlockDevice { bytes, reads: Vec::new(), writes: Vec::new(), fail_writes: false, fail_reads: false }
    }
}

#[derive(Debug, PartialEq, Eq)]
struct DeviceFault;

impl BlockDevice<512> for TestBlockDevice {
    type Error = DeviceFault;

    // The three functions of the device's model are never called in compiled code.

    fn spec_align() -> usize {
        4
    }

    fn contents(&self) -> vstd::seq::Seq<u8> {
        unreachable!()
    }

    fn history(&self) -> vstd::seq::Seq<embedded_block_io::block_device_driver::Transfer> {
        unreachable!()
    }

    fn align() -> usize {
        4
    }

    fn read(&mut self, block_address: u32, data: &mut [[u8; 512]]) -> Result<(), DeviceFault> {
        self.reads.push((block_address, data.len()));
        let start = block_address as usize * 512;
        if self.fail_reads || start + data.len() * 512 > self.bytes.len() {
            return Err(DeviceFault);
        }
        for (i, b) in data.iter_mut().enumerate() {
            b.copy_from_slice(&self.bytes[start + i * 512..start + (i + 1) * 512]);
        }
        Ok(())
    }

    fn write(&mut self, block_address: u32, data: &[[u8; 512]]) -> Result<(), DeviceFault> {
        self.writes.push((block_address, data.len()));
        let start = block_address as usize * 512;
        if self.fail_writes || start + data.len() * 512 > self.bytes.len() {
            return Err(DeviceFault);
        }
        for (i, b) in data.iter().enumerate() {
            self.bytes[start + i * 512..start + (i + 1) * 512].copy_from_slice(b);
        }
        Ok(())
    }

    fn size(&mut self) -> Result<u64, DeviceFault> {
        Ok(self.bytes.len() as u64)
    }
}

fn stream(bytes: Vec<u8>) -> BufStream<TestBlockDevice, 512> {
    BufStream::new(TestBlockDevice::new(bytes))
}

/// The offset in `storage` of the first byte at an address that is a multiple of four.
fn aligned_offset(storage: &[u8]) -> usize {
    (4 - (storage.as_ptr() as usize % 4)) % 4
}

fn read_exact(block: &mut BufStream<TestBlockDevice, 512>, buf: &mut [u8]) {
    assert_eq!(block.read(buf).unwrap(), buf.len());
}

fn write_all(block: &mut BufStream<TestBlockDevice, 512>, buf: &[u8]) {
    assert_eq!(block.write(buf).unwrap(), buf.len());
}

#[test]
fn buf_stream_block_512_read_test() {
    let buf = ("A".repeat(512) + "B".repeat(512).as_str()).into_bytes();
    let mut block = stream(buf);

    // Test sector aligned access
    let mut buf = vec![0; 128];
    block.seek(SeekFrom::Start(0)).unwrap();
    read_exact(&mut block, &mut buf[..]);
    assert_eq!(buf, "A".repeat(128).into_bytes());

    let mut buf = vec![0; 128];
    block.seek(SeekFrom::Start(512)).unwrap();
    read_exact(&mut block, &mut buf[..]);
    assert_eq!(buf, "B".repeat(128).into_bytes());

    // Read across sectors
    let mut buf = vec![0; 128];
    block.seek(SeekFrom::Start(512 - 64)).unwrap();
    read_exact(&mut block, &mut buf[..]);
    assert_eq!(buf, ("A".repeat(64) + "B".repeat(64).as_str()).into_bytes());
}

#[test]
fn buf_stream_block_512_read_successive() {
    let buf = ("A".repeat(64) + "B".repeat(64).as_str()).repeat(16).into_bytes();
    let mut block = stream(buf);

    // Test sector aligned access
    let mut buf = vec![0; 64];
    block.seek(SeekFrom::Start(0)).unwrap();
    read_exact(&mut block, &mut buf[..]);
    assert_eq!(buf, "A".repeat(64).into_bytes());

    let mut buf = vec![0; 64];
    block.seek(SeekFrom::Start(64)).unwrap();
    read_exact(&mut block, &mut buf[..]);
    assert_eq!(buf, "B".repeat(64).into_bytes());

    let mut buf = vec![0; 64];
    block.seek(SeekFrom::Start(32)).unwrap();
    read_exact(&mut block, &mut buf[..]);
    assert_eq!(buf, ("A".repeat(32) + "B".repeat(32).as_str()).into_bytes());
}

#[test]
fn buf_stream_block_512_write_single_sector() {
    let buf = vec![0; 2048];
    let mut block = stream(buf);

    // Test sector aligned access
    let data_a = "A".repeat(512).into_bytes();
    block.seek(SeekFrom::Start(0)).unwrap();
    write_all(&mut block, &data_a);
    assert_eq!(&block.into_inner().bytes[..512], data_a)
}

#[test]
fn buf_stream_block_512_write_across_sectors() {
    let buf = vec![0; 2048];
    let mut block = stream(buf);

    // Test sector aligned access
    let data_a = "A".repeat(512).into_bytes();
    block.seek(SeekFrom::Start(256)).unwrap();
    write_all(&mut block, &data_a);
    block.flush().unwrap();
    let buf = block.into_inner().bytes;
    assert_eq!(&buf[..256], [0; 256]);
    assert_eq!(&buf[256..768], data_a);
    assert_eq!(&buf[768..1024], [0; 256]);
}

#[test]
fn buf_stream_aligned_write_block_optimization() {
    let buf = vec![0; 2048];
    let mut block = stream(buf);

    let mut storage = vec![0u8; 512 + 4];
    let offset = aligned_offset(&storage);
    let aligned_buffer = &mut storage[offset..offset + 512];
    let data_a = "A".repeat(512).into_bytes();
    aligned_buffer.copy_from_slice(&data_a[..]);
    block.seek(SeekFrom::Start(0)).unwrap();
    write_all(&mut block, aligned_buffer);

    // if we wrote directly, the block buffer will be empty
    assert_eq!(&block.buffer()[..], [0u8; 512]);
    // ensure that the current offset is still updated
    assert_eq!(block.current_offset(), 512);
    // the write suceeded
    assert_eq!(&block.into_inner().bytes[..512], &data_a)
}

#[test]
fn buf_stream_aligned_write_block_optimization_misaligned_block() {
    let buf = vec![0; 2048];
    let mut block = stream(buf);

    let mut storage = vec![0u8; 2048 + 4];
    let offset = aligned_offset(&storage);
    let aligned_buffer = &mut storage[offset..offset + 2048];
    let data_a = "A".repeat(512).into_bytes();
    aligned_buffer[..512].copy_from_slice(&data_a[..]);
    // seek away from aligned block address
    block.seek(SeekFrom::Start(3)).unwrap();
    // attempt write all
    write_all(&mut block, &aligned_buffer[..512]);
    block.flush().unwrap();

    // because the addr was not block aligned, we will have used the cache
    assert_ne!(&block.buffer()[..], [0u8; 512]);
    // the write suceeded
    assert_eq!(&block.into_inner().bytes[3..515], &data_a)
}

#[test]
fn buf_stream_aligned_read_block_optimization() {
    let buf = "A".repeat(2048).into_bytes();
    let mut block = stream(buf);

    let mut storage = vec![0u8; 512 + 4];
    let offset = aligned_offset(&storage);
    let aligned_buffer = &mut storage[offset..offset + 512];
    block.seek(SeekFrom::Start(0)).unwrap();
    read_exact(&mut block, aligned_buffer);

    // if we read directly, the block buffer will be empty
    assert_eq!(&block.buffer()[..], [0u8; 512]);
    // ensure that the current offset is still updated
    assert_eq!(block.current_offset(), 512);
    // the write suceeded
    assert_eq!(&block.into_inner().bytes[..512], &aligned_buffer[..])
}

#[test]
fn buf_stream_aligned_read_block_optimization_misaligned() {
    let buf = "A".repeat(2048).into_bytes();
    let mut block = stream(buf);

    let mut storage = vec![0u8; 512 + 4];
    let offset = aligned_offset(&storage);
    let aligned_buffer = &mut storage[offset..offset + 512];
    // seek away from aligned block
    block.seek(SeekFrom::Start(3)).unwrap();
    // pass an aligned buffer with correct sizing
    read_exact(&mut block, aligned_buffer);

    // now, we must seek back and read the entire block
    // meaning our block cache will be written to:
    assert_ne!(&block.buffer()[..], [0u8; 512]);

    // the read suceeded
    assert_eq!(&block.into_inner().bytes[3..512], &aligned_buffer[3..])
}

#[test]
fn buf_stream_write_seek_read_write() {
    let buf = "A".repeat(2048).into_bytes();
    let mut block = stream(buf);

    block.seek(SeekFrom::Start(524)).unwrap();
    write_all(&mut block, &"B".repeat(512).into_bytes());
    block.flush().unwrap();

    block.seek(SeekFrom::Start(0)).unwrap();
    let mut tmp = [0u8; 256];
    block.read(&mut tmp[..]).unwrap();

    assert_eq!(&tmp[..], "A".repeat(256).into_bytes().as_slice());

    block.seek(SeekFrom::Start(524 + 512)).unwrap();
    write_all(&mut block, &"C".repeat(512).into_bytes());
    block.flush().unwrap();

    let buf = block.into_inner().bytes;

    assert_eq!(
        buf,
        ("A".repeat(524) + &"B".repeat(512) + &"C".repeat(512) + &"A".repeat(500)).into_bytes()
    )
}

#[test]
fn write_across_sectors_from_zeros() {
    // 256 zeros, 512 times A, 1280 zeros
    let mut block = stream(vec![0; 2048]);
    block.seek(SeekFrom::Start(256)).unwrap();
    write_all(&mut block, &[b'A'; 512]);
    block.flush().unwrap();
    let mut expected = vec![0u8; 256];
    expected.extend_from_slice(&[b'A'; 512]);
    expected.extend_from_slice(&[0u8; 1280]);
    assert_eq!(block.into_inner().bytes, expected);
}

#[test]
fn direct_read_is_one_transfer_and_leaves_the_cache() {
    let mut bytes = vec![0u8; 4096];
    for (i, b) in bytes.iter_mut().enumerate() {
        *b = (i / 512) as u8 + 1;
    }
    let mut block = stream(bytes);
    // bring block 0 into the cache
    let mut one = [0u8; 1];
    block.seek(SeekFrom::Start(5)).unwrap();
    read_exact(&mut block, &mut one);
    assert_eq!(one, [1]);
    let cache = *block.buffer();

    let mut buf = vec![0u8; 1536];
    block.seek(SeekFrom::Start(1024)).unwrap();
    assert_eq!(block.read_with_alignment(&mut buf, true).unwrap(), 1536);
    assert_eq!(&buf[..512], &[3u8; 512][..]);
    assert_eq!(&buf[512..1024], &[4u8; 512][..]);
    assert_eq!(&buf[1024..], &[5u8; 512][..]);
    assert_eq!(block.current_offset(), 2560);
    assert_eq!(*block.buffer(), cache);
    let device = block.into_inner();
    assert_eq!(device.reads, vec![(0, 1), (2, 3)]);
    assert!(device.writes.is_empty());
}

#[test]
fn direct_write_is_one_transfer_and_leaves_the_buffer() {
    let mut block = stream(vec![0u8; 4096]);
    let data = [7u8; 1024];
    block.seek(SeekFrom::Start(512)).unwrap();
    assert_eq!(block.write_with_alignment(&data, true).unwrap(), 1024);
    assert_eq!(block.current_offset(), 1536);
    assert_eq!(&block.buffer()[..], [0u8; 512]);
    let device = block.into_inner();
    assert_eq!(device.writes, vec![(1, 2)]);
    assert!(device.reads.is_empty());
    assert_eq!(&device.bytes[..512], &[0u8; 512][..]);
    assert_eq!(&device.bytes[512..1536], &data[..]);
    assert_eq!(&device.bytes[1536..], &[0u8; 2560][..]);
}

#[test]
fn unaligned_buffer_goes_through_the_cache() {
    let mut block = stream(vec![0u8; 2048]);
    let data = [9u8; 512];
    block.seek(SeekFrom::Start(0)).unwrap();
    assert_eq!(block.write_with_alignment(&data, false).unwrap(), 512);
    // the block was filled up to its end, so it went to the device
    assert_eq!(&block.buffer()[..], &data[..]);
    let device = block.into_inner();
    assert_eq!(device.reads, vec![(0, 1)]);
    assert_eq!(device.writes, vec![(0, 1)]);
    assert_eq!(&device.bytes[..512], &data[..]);
}

#[test]
fn direct_write_over_the_dirty_block_drops_it() {
    let mut block = stream(vec![1u8; 2048]);
    // make block 1 dirty
    block.seek(SeekFrom::Start(512 + 10)).unwrap();
    write_all(&mut block, &[2u8; 4]);
    // write blocks 0 to 2 directly
    block.seek(SeekFrom::Start(0)).unwrap();
    assert_eq!(block.write_with_alignment(&[3u8; 1536], true).unwrap(), 1536);
    // the flush has nothing to write: the older bytes of the cache are gone
    block.flush().unwrap();
    let device = block.into_inner();
    assert_eq!(device.writes, vec![(0, 3)]);
    assert_eq!(&device.bytes[..1536], &[3u8; 1536][..]);
    assert_eq!(&device.bytes[1536..], &[1u8; 512][..]);
}

#[test]
fn direct_write_beside_the_dirty_block_keeps_it() {
    let mut block = stream(vec![1u8; 2048]);
    block.seek(SeekFrom::Start(1536 + 10)).unwrap();
    write_all(&mut block, &[2u8; 4]);
    block.seek(SeekFrom::Start(0)).unwrap();
    assert_eq!(block.write_with_alignment(&[3u8; 1024], true).unwrap(), 1024);
    block.flush().unwrap();
    let device = block.into_inner();
    assert_eq!(device.writes, vec![(0, 2), (3, 1)]);
    assert_eq!(&device.bytes[..1024], &[3u8; 1024][..]);
    assert_eq!(&device.bytes[1024..1546], &[1u8; 522][..]);
    assert_eq!(&device.bytes[1546..1550], &[2u8; 4][..]);
    assert_eq!(&device.bytes[1550..], &[1u8; 498][..]);
}

#[test]
fn direct_read_does_not_see_the_dirty_block() {
    let mut block = stream(vec![1u8; 1024]);
    block.seek(SeekFrom::Start(10)).unwrap();
    write_all(&mut block, &[2u8; 4]);
    block.seek(SeekFrom::Start(0)).unwrap();
    let mut direct = [0u8; 512];
    assert_eq!(block.read_with_alignment(&mut direct, true).unwrap(), 512);
    assert_eq!(direct, [1u8; 512]);
    block.seek(SeekFrom::Start(0)).unwrap();
    let mut cached = [0u8; 512];
    assert_eq!(block.read_with_alignment(&mut cached, false).unwrap(), 512);
    assert_eq!(&cached[10..14], &[2u8; 4][..]);
}

#[test]
fn round_trip_at_any_offset() {
    for offset in [0u64, 1, 100, 511, 512, 513, 1000, 1024] {
        for len in [0usize, 1, 2, 511, 512, 513, 1024] {
            for aligned in [false, true] {
                let mut block = stream(vec![0xEE; 4096]);
                let data: Vec<u8> = (0..len).map(|i| (i * 7 + 3) as u8).collect();
                block.seek(SeekFrom::Start(offset)).unwrap();
                assert_eq!(block.write_with_alignment(&data, aligned).unwrap(), len);
                block.flush().unwrap();
                assert_eq!(block.seek(SeekFrom::Start(offset)).unwrap(), offset);
                let mut back = vec![0u8; len];
                assert_eq!(block.read_with_alignment(&mut back, !aligned).unwrap(), len);
                assert_eq!(back, data);
                // the device holds what an array of bytes would hold
                let mut oracle = vec![0xEE; 4096];
                oracle[offset as usize..offset as usize + len].copy_from_slice(&data);
                assert_eq!(block.into_inner().bytes, oracle);
            }
        }
    }
}

#[test]
fn stream_matches_a_byte_array() {
    // a fixed pseudo-random sequence of operations, against an array of bytes
    let mut seed: u32 = 12345;
    let mut next = move |bound: u32| {
        seed = seed.wrapping_mul(1103515245).wrapping_add(12345);
        (seed >> 8) % bound
    };
    let mut block = stream(vec![0u8; 8192]);
    let mut oracle = vec![0u8; 8192];
    let mut cursor: usize = 0;
    for round in 0..400 {
        match next(4) {
            0 => {
                cursor = next(6144) as usize;
                assert_eq!(block.seek(SeekFrom::Start(cursor as u64)).unwrap(), cursor as u64);
            },
            1 => {
                let len = if next(3) == 0 { 512 * next(4) as usize } else { next(1500) as usize };
                let len = len.min(8191 - cursor);
                let data: Vec<u8> = (0..len).map(|i| (i + round) as u8).collect();
                assert_eq!(block.write_with_alignment(&data, next(2) == 0).unwrap(), len);
                oracle[cursor..cursor + len].copy_from_slice(&data);
                cursor += len;
            },
            2 => {
                let len = (next(1500) as usize).min(8191 - cursor);
                let mut buf = vec![0u8; len];
                // a read through the cache sees what was written
                assert_eq!(block.read_with_alignment(&mut buf, false).unwrap(), len);
                assert_eq!(&buf[..], &oracle[cursor..cursor + len]);
                cursor += len;
            },
            _ => block.flush().unwrap(),
        }
        assert_eq!(block.current_offset(), cursor as u64);
    }
    block.flush().unwrap();
    assert_eq!(block.into_inner().bytes, oracle);
}

#[test]
fn transfers_of_a_write_through_the_cache() {
    let mut block = stream(vec![0u8; 4096]);
    block.seek(SeekFrom::Start(256)).unwrap();
    assert!(block.is_addressable(1000));
    assert_eq!(block.write_with_alignment(&[1u8; 1000], true).unwrap(), 1000);
    // blocks 0 and 1 were filled up to their ends, block 2 was not
    {
        let device = block.into_inner();
        assert_eq!(device.reads, vec![(0, 1), (1, 1), (2, 1)]);
        assert_eq!(device.writes, vec![(0, 1), (1, 1)]);
        assert_eq!(&device.bytes[256..1024], &[1u8; 768][..]);
        assert_eq!(&device.bytes[1024..], &[0u8; 3072][..]);
        block = BufStream::new(device);
    }
    // a dirty block is written back when the cursor has left it, and not before
    block.seek(SeekFrom::Start(10)).unwrap();
    write_all(&mut block, &[2u8; 4]);
    write_all(&mut block, &[3u8; 4]);
    let mut buf = [0u8; 20];
    block.seek(SeekFrom::Start(0)).unwrap();
    read_exact(&mut block, &mut buf);
    block.seek(SeekFrom::Start(600)).unwrap();
    read_exact(&mut block, &mut buf);
    let device = block.into_inner();
    assert_eq!(device.reads[3..], [(0, 1), (1, 1)]);
    assert_eq!(device.writes[2..], [(0, 1)]);
    assert_eq!(&device.bytes[10..18], &[2, 2, 2, 2, 3, 3, 3, 3]);
}

#[test]
fn transfers_of_a_read_through_the_cache() {
    let mut block = stream(vec![7u8; 4096]);
    block.seek(SeekFrom::Start(500)).unwrap();
    let mut buf = [0u8; 1100];
    assert_eq!(block.read_with_alignment(&mut buf, true).unwrap(), 1100);
    assert_eq!(buf, [7u8; 1100]);
    // the block of the cursor is cached: a read in it asks the device for nothing
    block.seek(SeekFrom::Start(1540)).unwrap();
    read_exact(&mut block, &mut buf[..100]);
    let device = block.into_inner();
    assert_eq!(device.reads, vec![(0, 1), (1, 1), (2, 1), (3, 1)]);
    assert!(device.writes.is_empty());
}

#[test]
fn blocks_beyond_32_bits_are_not_addressable() {
    let mut block = stream(vec![0u8; 1024]);
    assert!(block.is_addressable(0));
    assert!(block.is_addressable(1024));
    block.seek(SeekFrom::Start(512 * (u32::MAX as u64 + 1) - 1)).unwrap();
    assert!(block.is_addressable(0));
    assert!(block.is_addressable(1));
    assert!(!block.is_addressable(2));
    block.seek(SeekFrom::Start(512 * (u32::MAX as u64 + 1))).unwrap();
    assert!(!block.is_addressable(1));
    block.seek(SeekFrom::Start(u64::MAX)).unwrap();
    assert!(!block.is_addressable(1));
    // no bytes address nothing
    assert!(block.is_addressable(0));
    let mut none = [0u8; 0];
    assert_eq!(block.read(&mut none), Ok(0));
    assert_eq!(block.write(&none), Ok(0));
    assert_eq!(block.current_offset(), u64::MAX);
}

#[test]
fn direct_transfers_need_the_block_of_the_cursor_only() {
    // the last block that 32 bits address: what lies behind it is the device's to refuse
    let mut block = stream(vec![0u8; 1024]);
    block.seek(SeekFrom::Start(512 * u32::MAX as u64)).unwrap();
    let mut buf = [0u8; 1024];
    assert!(!block.is_addressable(1024));
    assert_eq!(block.read_with_alignment(&mut buf, true), Err(BufStreamError::Io(DeviceFault)));
    assert_eq!(block.write_with_alignment(&buf, true), Err(BufStreamError::Io(DeviceFault)));
    assert_eq!(block.current_offset(), 512 * u32::MAX as u64);
    let device = block.into_inner();
    assert_eq!(device.reads, vec![(u32::MAX, 2)]);
    assert_eq!(device.writes, vec![(u32::MAX, 2)]);
}

#[test]
fn a_borrowed_device_is_a_device() {
    let mut device = TestBlockDevice::new(vec![0u8; 1024]);
    {
        let mut block: BufStream<&mut TestBlockDevice, 512> = BufStream::new(&mut device);
        assert_eq!(block.write(b"borrowed").unwrap(), 8);
        block.flush().unwrap();
    }
    assert_eq!(&device.bytes[..8], b"borrowed");
    assert_eq!(<&mut TestBlockDevice as BlockDevice<512>>::align(), 4);
}

#[test]
fn transfers_in_the_cached_block_cannot_fail() {
    let mut block = stream(vec![5u8; 2048]);
    let mut buf = [0u8; 8];
    block.seek(SeekFrom::Start(520)).unwrap();
    read_exact(&mut block, &mut buf);
    // the device is gone, and block 1 is in the cache
    let mut device = block.into_inner();
    device.fail_reads = true;
    device.fail_writes = true;
    device.reads.clear();
    let mut block: BufStream<_, 512> = BufStream::new(device);
    assert_eq!(block.read(&mut buf), Err(BufStreamError::Io(DeviceFault)));
    let mut device = block.into_inner();
    assert_eq!(device.reads, vec![(0, 1)]);
    device.fail_reads = false;
    device.reads.clear();
    let mut block: BufStream<_, 512> = BufStream::new(device);
    block.seek(SeekFrom::Start(520)).unwrap();
    read_exact(&mut block, &mut buf);
    block.seek(SeekFrom::Start(600)).unwrap();
    // reads and writes in block 1 ask the device for nothing
    read_exact(&mut block, &mut buf);
    write_all(&mut block, &[1u8; 100]);
    block.seek(SeekFrom::Start(1023)).unwrap();
    read_exact(&mut block, &mut buf[..1]);
    assert_eq!(block.current_offset(), 1024);
    // a write that fills block 1 up to its end hands it to the device, which fails
    block.seek(SeekFrom::Start(1000)).unwrap();
    assert_eq!(block.write(&[2u8; 24]), Err(BufStreamError::Io(DeviceFault)));
    assert_eq!(block.current_offset(), 1000);
    // and so does a write that goes on behind it: with the write of block 1
    assert_eq!(block.write(&[2u8; 30]), Err(BufStreamError::Io(DeviceFault)));
    assert_eq!(block.current_offset(), 1000);
    let device = block.into_inner();
    assert_eq!(device.reads, vec![(1, 1)]);
    assert_eq!(device.writes, vec![(1, 1), (1, 1)]);
}

#[test]
fn a_failed_transfer_is_the_last_one() {
    // the third block cannot be read
    let mut block = stream(vec![5u8; 1024]);
    let mut buf = [0u8; 1200];
    block.seek(SeekFrom::Start(100)).unwrap();
    assert_eq!(block.read_with_alignment(&mut buf, false), Err(BufStreamError::Io(DeviceFault)));
    assert_eq!(block.current_offset(), 1024);
    assert_eq!(&buf[..924], &[5u8; 924][..]);
    let device = block.into_inner();
    assert_eq!(device.reads, vec![(0, 1), (1, 1), (2, 1)]);
    assert!(device.writes.is_empty());

    // nor can it be written: the write ends with the read of the third block
    let mut block = stream(vec![5u8; 1024]);
    block.seek(SeekFrom::Start(100)).unwrap();
    assert_eq!(block.write_with_alignment(&[6u8; 1200], false), Err(BufStreamError::Io(DeviceFault)));
    assert_eq!(block.current_offset(), 1024);
    let device = block.into_inner();
    assert_eq!(device.reads, vec![(0, 1), (1, 1), (2, 1)]);
    assert_eq!(device.writes, vec![(0, 1), (1, 1)]);
    assert_eq!(&device.bytes[..100], &[5u8; 100][..]);
    assert_eq!(&device.bytes[100..], &[6u8; 924][..]);
}

#[test]
fn flush_twice_is_flush_once() {
    let mut block = stream(vec![0u8; 1024]);
    block.seek(SeekFrom::Start(7)).unwrap();
    write_all(&mut block, b"abc");
    block.flush().unwrap();
    let cache = *block.buffer();
    block.flush().unwrap();
    assert_eq!(*block.buffer(), cache);
    assert_eq!(block.current_offset(), 10);
    let device = block.into_inner();
    assert_eq!(device.writes, vec![(0, 1)]);
    assert_eq!(&device.bytes[7..10], b"abc");
}

#[test]
fn flush_of_a_clean_stream_asks_nothing() {
    let mut block = stream(vec![0u8; 1024]);
    block.flush().unwrap();
    let mut one = [0u8; 1];
    read_exact(&mut block, &mut one);
    block.flush().unwrap();
    let device = block.into_inner();
    assert!(device.writes.is_empty());
    assert_eq!(device.reads, vec![(0, 1)]);
}

#[test]
fn failed_flush_stays_dirty_and_can_be_retried() {
    let mut device = TestBlockDevice::new(vec![0u8; 1024]);
    device.fail_writes = true;
    let mut block: BufStream<_, 512> = BufStream::new(device);
    write_all(&mut block, b"xyz");
    assert_eq!(block.flush(), Err(BufStreamError::Io(DeviceFault)));
    assert_eq!(block.flush(), Err(BufStreamError::Io(DeviceFault)));
    let mut device = block.into_inner();
    assert_eq!(device.writes, vec![(0, 1), (0, 1)]);
    device.fail_writes = false;
    device.writes.clear();
    let mut block: BufStream<_, 512> = BufStream::new(device);
    write_all(&mut block, b"xyz");
    block.flush().unwrap();
    assert_eq!(&block.into_inner().bytes[..3], b"xyz");
}

#[test]
fn failed_load_is_an_error_and_moves_nothing() {
    let mut device = TestBlockDevice::new(vec![5u8; 1024]);
    device.fail_reads = true;
    let mut block: BufStream<_, 512> = BufStream::new(device);
    block.seek(SeekFrom::Start(100)).unwrap();
    let mut buf = [0u8; 4];
    assert_eq!(block.read(&mut buf), Err(BufStreamError::Io(DeviceFault)));
    assert_eq!(block.current_offset(), 100);
    assert_eq!(block.write(b"abcd"), Err(BufStreamError::Io(DeviceFault)));
    assert_eq!(block.current_offset(), 100);
    assert_eq!(block.into_inner().bytes, vec![5u8; 1024]);
}

#[test]
fn read_behind_the_device_is_an_error() {
    let mut block = stream(vec![5u8; 1024]);
    block.seek(SeekFrom::Start(1000)).unwrap();
    let mut buf = [0u8; 100];
    assert_eq!(block.read(&mut buf), Err(BufStreamError::Io(DeviceFault)));
    // the bytes of the last block were copied, and the cursor is behind them
    assert_eq!(block.current_offset(), 1024);
    assert_eq!(&buf[..24], &[5u8; 24][..]);
}

#[test]
fn empty_transfers_ask_the_device_for_nothing() {
    let mut device = TestBlockDevice::new(vec![5u8; 2048]);
    device.fail_reads = true;
    device.fail_writes = true;
    let mut block: BufStream<_, 512> = BufStream::new(device);
    let mut none = [0u8; 0];
    // with no block in the cache
    for aligned in [false, true] {
        block.seek(SeekFrom::Start(512)).unwrap();
        assert_eq!(block.read_with_alignment(&mut none, aligned), Ok(0));
        assert_eq!(block.write_with_alignment(&none, aligned), Ok(0));
        block.seek(SeekFrom::Start(700)).unwrap();
        assert_eq!(block.read_with_alignment(&mut none, aligned), Ok(0));
        assert_eq!(block.write_with_alignment(&none, aligned), Ok(0));
        assert_eq!(block.current_offset(), 700);
    }
    // nothing is to be flushed behind them
    assert_eq!(block.flush(), Ok(()));
    assert_eq!(&block.buffer()[..], [0u8; 512]);
    let mut device = block.into_inner();
    assert!(device.reads.is_empty());
    assert!(device.writes.is_empty());

    // with a dirty block in the cache, and the cursor in another
    device.fail_reads = false;
    device.fail_writes = false;
    let mut block: BufStream<_, 512> = BufStream::new(device);
    block.seek(SeekFrom::Start(10)).unwrap();
    write_all(&mut block, b"abc");
    let cache = *block.buffer();
    block.seek(SeekFrom::Start(1500)).unwrap();
    assert_eq!(block.read(&mut none), Ok(0));
    assert_eq!(block.write(&none), Ok(0));
    assert_eq!(block.current_offset(), 1500);
    assert_eq!(*block.buffer(), cache);
    let device = block.into_inner();
    assert_eq!(device.reads, vec![(0, 1)]);
    assert!(device.writes.is_empty());
    assert_eq!(device.bytes, vec![5u8; 2048]);
}

#[test]
fn empty_transfers() {
    let mut block = stream(vec![5u8; 1024]);
    block.seek(SeekFrom::Start(600)).unwrap();
    let mut none = [0u8; 0];
    assert_eq!(block.read(&mut none).unwrap(), 0);
    assert_eq!(block.write(&[]).unwrap(), 0);
    assert_eq!(block.current_offset(), 600);
    block.flush().unwrap();
    assert_eq!(block.into_inner().bytes, vec![5u8; 1024]);
}

#[test]
fn seek_moves_the_cursor_only() {
    let mut block = stream(vec![0u8; 2048]);
    assert_eq!(block.seek(SeekFrom::Start(700)).unwrap(), 700);
    assert_eq!(block.seek(SeekFrom::Current(-100)).unwrap(), 600);
    assert_eq!(block.seek(SeekFrom::Current(24)).unwrap(), 624);
    // from the end, a negative offset is before the end
    assert_eq!(block.seek(SeekFrom::End(-4)).unwrap(), 2044);
    assert_eq!(block.seek(SeekFrom::End(-48)).unwrap(), 2000);
    assert_eq!(block.seek(SeekFrom::End(0)).unwrap(), 2048);
    assert_eq!(block.seek(SeekFrom::End(2)).unwrap(), 2050);
    // offsets wrap at 2^64
    assert_eq!(block.seek(SeekFrom::Start(5)).unwrap(), 5);
    assert_eq!(block.seek(SeekFrom::Current(-6)).unwrap(), u64::MAX);
    assert_eq!(block.seek(SeekFrom::Current(i64::MIN)).unwrap(), u64::MAX - (1 << 63));
    assert_eq!(block.seek(SeekFrom::End(i64::MIN)).unwrap(), 2048 + (1 << 63));
    assert_eq!(block.seek(SeekFrom::End(i64::MAX)).unwrap(), 2047 + (1 << 63));
    assert_eq!(block.seek(SeekFrom::End(-2049)).unwrap(), u64::MAX);
    assert_eq!(block.current_offset(), u64::MAX);
    let device = block.into_inner();
    assert!(device.reads.is_empty());
    assert!(device.writes.is_empty());
}

#[test]
fn error_kind_is_other() {
    assert_eq!(BufStreamError::Io(DeviceFault).kind(), ErrorKind::Other);
    assert_eq!(BufStreamError::from(3u8), BufStreamError::Io(3u8));
}
