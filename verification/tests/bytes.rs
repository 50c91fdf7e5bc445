use randomprime::endian::{decode_u16, decode_u32, push_bytes, push_u16, push_u32};
use randomprime::reader::{BoundsError, Reader};
use randomprime::sink::{MemorySink, Sink, SinkFull};

#[test]
fn integers_are_stored_high_byte_first() {
    assert_eq!(decode_u16(0x12, 0x34), 0x1234);
    assert_eq!(decode_u32(0xc2, 0x33, 0x9f, 0x3d), 0xc233_9f3d);
    assert_eq!(decode_u32(0, 0, 0, 0), 0);
    assert_eq!(decode_u32(0xff, 0xff, 0xff, 0xff), u32::MAX);
    let mut out = vec![9u8];
    push_u16(&mut out, 0xabcd);
    push_u32(&mut out, 0x0102_0304);
    push_bytes(&mut out, &[7, 8]);
    push_u32(&mut out, u32::MAX);
    push_u16(&mut out, 0);
    assert_eq!(out, vec![9, 0xab, 0xcd, 1, 2, 3, 4, 7, 8, 0xff, 0xff, 0xff, 0xff, 0, 0]);
}

#[test]
fn views_share_the_buffer_and_move_apart() {
    let buffer: Vec<u8> = (0u8..20).collect();
    let whole = Reader::new(&buffer);
    assert_eq!(whole.len(), 20);
    assert_eq!(whole.start_offset(), 0);
    let mut first = whole;
    let mut second = whole;
    assert_eq!(first.read_u8(), Ok(0));
    assert_eq!(first.read_u16(), Ok(0x0102));
    assert_eq!(first.read_u32(), Ok(0x0304_0506));
    assert_eq!(first.read_array::<3>(), Ok([7, 8, 9]));
    assert_eq!(first.len(), 10);
    assert_eq!(first.start_offset(), 10);
    // the copy has not moved
    assert_eq!(second.read_u8(), Ok(0));
    assert_eq!(second.len(), 19);
    let taken = first.read_bytes(4).unwrap();
    assert_eq!(taken.as_slice(), &[10, 11, 12, 13]);
    assert_eq!(taken.start_offset(), 10);
    assert_eq!(first.as_slice(), &[14, 15, 16, 17, 18, 19]);
    // the bytes are those of the buffer, not a copy
    assert!(std::ptr::eq(taken.as_slice().as_ptr(), buffer[10..].as_ptr()));
}

#[test]
fn sub_views_stay_within_the_view() {
    let buffer: Vec<u8> = (0u8..20).collect();
    let whole = Reader::new(&buffer);
    let tail = whole.offset(15).unwrap();
    assert_eq!(tail.as_slice(), &[15, 16, 17, 18, 19]);
    assert_eq!(tail.start_offset(), 15);
    assert_eq!(whole.offset(20).unwrap().len(), 0);
    assert_eq!(
        whole.offset(21).err(),
        Some(BoundsError { offset: 0, requested: 21, available: 20 })
    );
    let head = tail.truncated(2).unwrap();
    assert_eq!(head.as_slice(), &[15, 16]);
    assert_eq!(
        tail.truncated(6).err(),
        Some(BoundsError { offset: 15, requested: 6, available: 5 })
    );
    assert_eq!(whole.range(3, 4).unwrap().as_slice(), &[3, 4, 5, 6]);
    assert_eq!(whole.range(20, 0).unwrap().len(), 0);
    assert_eq!(
        whole.range(18, 3).err(),
        Some(BoundsError { offset: 18, requested: 3, available: 2 })
    );
    assert_eq!(
        whole.range(25, 1).err(),
        Some(BoundsError { offset: 0, requested: 25, available: 20 })
    );
    assert_eq!(
        tail.range(6, 0).err(),
        Some(BoundsError { offset: 15, requested: 6, available: 5 })
    );
}

#[test]
fn short_read_leaves_the_view_in_place() {
    let buffer = [1u8, 2, 3];
    let mut reader = Reader::new(&buffer);
    assert_eq!(reader.read_u8(), Ok(1));
    assert_eq!(
        reader.read_u32(),
        Err(BoundsError { offset: 1, requested: 4, available: 2 })
    );
    assert_eq!(
        reader.read_array::<3>(),
        Err(BoundsError { offset: 1, requested: 3, available: 2 })
    );
    assert_eq!(
        reader.read_bytes(3).err(),
        Some(BoundsError { offset: 1, requested: 3, available: 2 })
    );
    assert_eq!(reader.len(), 2);
    assert_eq!(reader.read_u16(), Ok(0x0203));
    assert_eq!(
        reader.read_u16(),
        Err(BoundsError { offset: 3, requested: 2, available: 0 })
    );
    assert_eq!(
        reader.read_u8(),
        Err(BoundsError { offset: 3, requested: 1, available: 0 })
    );
}

#[test]
fn sink_overwrites_extends_and_fills_gaps() {
    let mut sink = MemorySink::new(16);
    assert_eq!(sink.write_all(&[1, 2, 3, 4]), Ok(()));
    assert_eq!(sink.as_slice(), &[1, 2, 3, 4]);
    // in the middle
    assert_eq!(sink.seek(1), Ok(()));
    assert_eq!(sink.write_all(&[9, 9]), Ok(()));
    assert_eq!(sink.as_slice(), &[1, 9, 9, 4]);
    // over the end
    assert_eq!(sink.write_all(&[5, 6]), Ok(()));
    assert_eq!(sink.as_slice(), &[1, 9, 9, 5, 6]);
    // past the end
    assert_eq!(sink.seek(8), Ok(()));
    assert_eq!(sink.write_all(&[7]), Ok(()));
    assert_eq!(sink.as_slice(), &[1, 9, 9, 5, 6, 0, 0, 0, 7]);
    // nothing, past the end
    assert_eq!(sink.seek(12), Ok(()));
    assert_eq!(sink.write_all(&[]), Ok(()));
    assert_eq!(sink.as_slice().len(), 9);
    // up to the limit
    assert_eq!(sink.write_all(&[8, 8, 8, 8]), Ok(()));
    assert_eq!(sink.into_bytes(), vec![1, 9, 9, 5, 6, 0, 0, 0, 7, 0, 0, 0, 8, 8, 8, 8]);
}

#[test]
fn sink_refuses_what_passes_its_limit() {
    let mut sink = MemorySink::new(4);
    assert_eq!(sink.seek(5), Err(SinkFull { end: 5, limit: 4 }));
    assert_eq!(sink.seek(2), Ok(()));
    assert_eq!(sink.write_all(&[1, 2, 3]), Err(SinkFull { end: 5, limit: 4 }));
    assert_eq!(sink.as_slice().len(), 0);
    assert_eq!(sink.write_all(&[1, 2]), Ok(()));
    assert_eq!(sink.as_slice(), &[0, 0, 1, 2]);
    assert_eq!(sink.write_all(&[]), Ok(()));
    assert_eq!(sink.write_all(&[1]), Err(SinkFull { end: 5, limit: 4 }));
    let mut held = MemorySink::with_contents(vec![1, 2, 3], 2);
    // the limit is no less than what the sink holds
    assert_eq!(held.seek(3), Ok(()));
    assert_eq!(held.write_all(&[4]), Err(SinkFull { end: 4, limit: 3 }));
    assert_eq!(held.seek(0), Ok(()));
    assert_eq!(held.write_all(&[7]), Ok(()));
    assert_eq!(held.as_slice(), &[7, 2, 3]);
}
