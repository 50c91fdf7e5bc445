use randomprime::gc_disc::{
    FileSystemTable, FormatError, FstEntryFile, GcDisc, LayoutError, Operation, Pak, PromoteError,
    ReadWrapper, WriteError, GC_DISC_LENGTH,
};
use randomprime::reader::{BoundsError, Reader};
use randomprime::sink::{MemorySink, Sink, SinkFull};

const IMAGE_LENGTH: usize = 0x3000;
const FST_OFFSET: usize = 0x2460;
const NAMES: &[u8] = b"sub\0default.dol\0data.PAK\0";

fn put_u32(image: &mut [u8], at: usize, value: u32) {
    image[at..at + 4].copy_from_slice(&value.to_be_bytes());
}

fn put_entry(image: &mut [u8], at: usize, flags: u8, name: u16, offset: u32, length: u32) {
    image[at] = flags;
    image[at + 1] = 0;
    image[at + 2..at + 4].copy_from_slice(&name.to_be_bytes());
    put_u32(image, at + 4, offset);
    put_u32(image, at + 8, length);
}

/// An image of 0x3000 bytes: a root, a directory and two files, which lie
/// where a write into 0x3000 bytes places them.
fn toy_image() -> Vec<u8> {
    let mut image = vec![0u8; IMAGE_LENGTH];
    for i in 0..0x1c {
        image[i] = 0x30 + (i as u8);
    }
    put_u32(&mut image, 0x1c, 0xc233_9f3d);
    for i in 0x20..0x420 {
        image[i] = (i % 251) as u8;
    }
    put_u32(&mut image, 0x420, 0x2fc0);
    put_u32(&mut image, 0x424, FST_OFFSET as u32);
    put_u32(&mut image, 0x428, (4 * 12 + NAMES.len()) as u32);
    put_u32(&mut image, 0x42c, 0x100);
    put_u32(&mut image, 0x430, 7);
    put_u32(&mut image, 0x434, 8);
    put_u32(&mut image, 0x438, 9);
    put_u32(&mut image, 0x43c, 10);
    for i in 0x440..0x2440 {
        image[i] = (i % 7) as u8;
    }
    for i in 0..16 {
        image[0x2440 + i] = b'0' + (i as u8 % 10);
    }
    put_u32(&mut image, 0x2450, 0x8120_0000);
    put_u32(&mut image, 0x2454, 3);
    put_u32(&mut image, 0x2458, 1);
    image[0x245c..0x2460].copy_from_slice(&[0xde, 0xad, 0xbe, 0xef]);
    put_entry(&mut image, FST_OFFSET, 1, 0, 0, 4);
    put_entry(&mut image, FST_OFFSET + 12, 1, 0, 0, 4);
    put_entry(&mut image, FST_OFFSET + 24, 0, 4, 0x2fc0, 50);
    put_entry(&mut image, FST_OFFSET + 36, 0, 16, 0x2f80, 60);
    image[FST_OFFSET + 48..FST_OFFSET + 48 + NAMES.len()].copy_from_slice(NAMES);
    for i in 0..50 {
        image[0x2fc0 + i] = 0xa0 + (i as u8 % 16);
    }
    for i in 0..60 {
        image[0x2f80 + i] = 0x50 + (i as u8 % 16);
    }
    image
}

#[test]
fn reads_every_part_of_an_image() {
    let image = toy_image();
    let disc = GcDisc::read(Reader::new(&image)).unwrap();
    assert_eq!(disc.header.console_id, 0x30);
    assert_eq!(disc.header.game_code, [0x31, 0x32]);
    assert_eq!(disc.header.unused0[17], 0x30 + 0x1b);
    assert_eq!(disc.header.game_name[0], 0x20);
    assert_eq!(disc.header.main_dol_offset, 0x2fc0);
    assert_eq!(disc.header.fst_offset, FST_OFFSET as u32);
    assert_eq!(disc.header.fst_length, (48 + NAMES.len()) as u32);
    assert_eq!(disc.header.fst_max_length, 0x100);
    assert_eq!(disc.header.unused3, 10);
    assert_eq!(disc.header_info.len(), 0x2000);
    assert_eq!(disc.header_info.as_slice()[1], (0x441usize % 7) as u8);
    assert_eq!(disc.apploader.entrypoint, 0x8120_0000);
    assert_eq!(disc.apploader.size, 3);
    assert_eq!(disc.apploader.trailer_size, 1);
    assert_eq!(disc.apploader.code.as_slice(), &[0xde, 0xad, 0xbe, 0xef]);
    let table = &disc.file_system_table;
    assert_eq!(table.fst_entries.len(), 4);
    assert_eq!(table.string_table.as_slice(), NAMES);
    assert!(table.fst_entries[0].is_folder());
    assert!(table.fst_entries[1].is_folder());
    assert!(!table.fst_entries[2].is_folder());
    assert_eq!(table.fst_entries[2].offset, 0x2fc0);
    assert_eq!(table.fst_entries[2].length, 50);
    assert_eq!(table.fst_entries[3].name_offset, 16);
    match table.fst_entries[3].file() {
        Some(FstEntryFile::Unknown(range)) => {
            assert_eq!(range.as_slice(), &image[0x2f80..0x2f80 + 60]);
        }
        _ => panic!("the payload of a file that was read is a range of the image"),
    }
    assert!(table.fst_entries[1].file().is_none());
}

#[test]
fn round_trip_gives_the_image_back() {
    let image = toy_image();
    let mut disc = GcDisc::read(Reader::new(&image)).unwrap();
    let mut sink = MemorySink::with_contents(vec![0u8; IMAGE_LENGTH], IMAGE_LENGTH);
    disc.write_with_capacity(&mut sink, IMAGE_LENGTH as u32).unwrap();
    assert_eq!(sink.as_slice(), &image[..]);
    assert_eq!(disc.header.main_dol_offset, 0x2fc0);
    assert_eq!(disc.file_system_table.fst_entries[2].offset, 0x2fc0);
    assert_eq!(disc.file_system_table.fst_entries[3].offset, 0x2f80);
}

#[test]
fn round_trip_into_an_empty_sink_fills_the_gaps_with_zeros() {
    let image = toy_image();
    let mut disc = GcDisc::read(Reader::new(&image)).unwrap();
    let mut sink = MemorySink::new(IMAGE_LENGTH);
    disc.write_with_capacity(&mut sink, IMAGE_LENGTH as u32).unwrap();
    let written = sink.into_bytes();
    assert_eq!(written.len(), 0x2fc0 + 50);
    assert_eq!(&written[..], &image[..0x2fc0 + 50]);
}

#[test]
fn magic_mismatch_is_a_format_error() {
    let mut image = toy_image();
    image[0x1f] ^= 0xff;
    match GcDisc::read(Reader::new(&image)) {
        Err(e) => assert_eq!(
            e,
            FormatError::MagicMismatch { expected: 0xc233_9f3d, found: 0xc233_9fc2 }
        ),
        Ok(_) => panic!("a header without the magic value was read"),
    }
}

#[test]
fn header_read_leaves_the_view_in_place_on_a_magic_mismatch() {
    let mut image = toy_image();
    image[0x1c] = 0;
    let mut reader = Reader::new(&image);
    let r = randomprime::gc_disc::GcDiscHeader::read(&mut reader);
    assert_eq!(
        r.err(),
        Some(FormatError::MagicMismatch { expected: 0xc233_9f3d, found: 0x0033_9f3d })
    );
    assert_eq!(reader.len(), IMAGE_LENGTH);
    assert_eq!(reader.start_offset(), 0);
}

#[test]
fn magic_value_is_looked_at_before_the_rest_of_the_header() {
    let mut image = toy_image();
    let e = GcDisc::read(Reader::new(&image[..0x1f])).err();
    assert_eq!(
        e,
        Some(FormatError::OutOfBounds(BoundsError { offset: 0, requested: 0x20, available: 0x1f }))
    );
    image[0x1d] = 0x34;
    let e = GcDisc::read(Reader::new(&image[..0x20])).err();
    assert_eq!(e, Some(FormatError::MagicMismatch { expected: 0xc233_9f3d, found: 0xc234_9f3d }));
    let image = toy_image();
    let e = GcDisc::read(Reader::new(&image[..0x20])).err();
    assert_eq!(
        e,
        Some(FormatError::OutOfBounds(BoundsError { offset: 0, requested: 0x440, available: 0x20 }))
    );
}

#[test]
fn short_image_is_out_of_bounds() {
    let image = toy_image();
    let e = GcDisc::read(Reader::new(&image[..0x43f])).err();
    assert_eq!(
        e,
        Some(FormatError::OutOfBounds(BoundsError { offset: 0, requested: 0x440, available: 0x43f }))
    );
    let e = GcDisc::read(Reader::new(&image[..0x2000])).err();
    assert_eq!(
        e,
        Some(FormatError::OutOfBounds(BoundsError {
            offset: 0x440,
            requested: 0x2000,
            available: 0x2000 - 0x440
        }))
    );
    let e = GcDisc::read(Reader::new(&image[..0x2450])).err();
    assert_eq!(
        e,
        Some(FormatError::OutOfBounds(BoundsError { offset: 0x2440, requested: 28, available: 16 }))
    );
    let e = GcDisc::read(Reader::new(&image[..0x245e])).err();
    assert_eq!(
        e,
        Some(FormatError::OutOfBounds(BoundsError { offset: 0x245c, requested: 4, available: 2 }))
    );
    let e = GcDisc::read(Reader::new(&image[..0x2470])).err();
    assert_eq!(
        e,
        Some(FormatError::OutOfBounds(BoundsError {
            offset: 0x2460,
            requested: (48 + NAMES.len()) as u64,
            available: 16
        }))
    );
}

#[test]
fn payload_beyond_the_image_is_out_of_bounds() {
    let mut image = toy_image();
    put_u32(&mut image, FST_OFFSET + 36 + 8, 0x81);
    let e = GcDisc::read(Reader::new(&image)).err();
    assert_eq!(
        e,
        Some(FormatError::OutOfBounds(BoundsError {
            offset: 0x2f80,
            requested: 0x81,
            available: 0x80
        }))
    );
    put_u32(&mut image, FST_OFFSET + 36 + 4, 0x3001);
    let e = GcDisc::read(Reader::new(&image)).err();
    assert_eq!(
        e,
        Some(FormatError::OutOfBounds(BoundsError {
            offset: 0,
            requested: 0x3001,
            available: 0x3000
        }))
    );
}

#[test]
fn table_that_declares_more_entries_than_it_holds_is_out_of_bounds() {
    let mut image = toy_image();
    put_u32(&mut image, FST_OFFSET + 8, 7);
    let e = GcDisc::read(Reader::new(&image)).err();
    assert_eq!(
        e,
        Some(FormatError::OutOfBounds(BoundsError {
            offset: FST_OFFSET as u64,
            requested: 84,
            available: (48 + NAMES.len()) as u64
        }))
    );
}

#[test]
fn directory_payload_is_never_checked() {
    let mut image = toy_image();
    put_u32(&mut image, FST_OFFSET + 12 + 4, 0xffff_0000);
    put_u32(&mut image, FST_OFFSET + 12 + 8, 0xffff_0000);
    let disc = GcDisc::read(Reader::new(&image)).unwrap();
    assert!(disc.file_system_table.fst_entries[1].file().is_none());
    assert_eq!(disc.file_system_table.fst_entries[1].offset, 0xffff_0000);
}

#[test]
fn names_resolve_at_the_offsets_of_the_entries() {
    // the root, which is the one directory, counts three entries
    let mut table = vec![0u8; 36];
    let pool = b"docs\0a.txt\0bb.bin\0";
    put_entry(&mut table, 0, 1, 0, 0, 3);
    put_entry(&mut table, 12, 0, 5, 0, 2);
    put_entry(&mut table, 24, 0, 11, 2, 3);
    table.extend_from_slice(pool);
    let parsed = FileSystemTable::read(Reader::new(&table), 0, table.len()).unwrap();
    assert_eq!(parsed.fst_entries.len(), 3);
    assert_eq!(parsed.fst_entries[0].name(), Some(&b"docs"[..]));
    assert_eq!(parsed.fst_entries[1].name(), Some(&b"a.txt"[..]));
    assert_eq!(parsed.fst_entries[2].name(), Some(&b"bb.bin"[..]));
    assert_eq!(parsed.string_table.as_slice(), &pool[..]);
}

#[test]
fn synthetic_table_with_a_directory_and_two_files() {
    let image = toy_image();
    let table =
        FileSystemTable::read(Reader::new(&image), FST_OFFSET, 48 + NAMES.len()).unwrap();
    assert_eq!(table.fst_entries[1].name(), Some(&b"sub"[..]));
    assert_eq!(table.fst_entries[2].name(), Some(&b"default.dol"[..]));
    assert_eq!(table.fst_entries[3].name(), Some(&b"data.PAK"[..]));
    assert_eq!(table.size(), Some(48 + NAMES.len()));
    assert_eq!(table.find(b"default.dol"), Some(2));
    assert_eq!(table.find(b"sub"), Some(0));
    assert_eq!(table.find(b"data.pak"), None);
}

#[test]
fn name_without_terminator_or_outside_the_pool_is_unresolved() {
    let mut table = vec![0u8; 24];
    put_entry(&mut table, 0, 1, 0, 0, 2);
    put_entry(&mut table, 12, 0, 2, 0, 0);
    table.extend_from_slice(b"a\0bc");
    let mut parsed = FileSystemTable::read(Reader::new(&table), 0, table.len()).unwrap();
    assert_eq!(parsed.fst_entries[0].name(), Some(&b"a"[..]));
    assert_eq!(parsed.fst_entries[1].name(), None);
    assert_eq!(parsed.fst_entries[1].guess_kind(), Err(PromoteError::NameUnresolved));
    parsed.fst_entries[1].name_offset = 4;
    assert_eq!(parsed.fst_entries[1].name(), None);
    parsed.fst_entries[1].name_offset = 1;
    assert_eq!(parsed.fst_entries[1].name(), Some(&b""[..]));
    assert_eq!(parsed.fst_entries[1].guess_kind(), Err(PromoteError::NameTooShort));
}

#[test]
fn extension_decides_promotion() {
    let image = toy_image();
    let mut disc = GcDisc::read(Reader::new(&image)).unwrap();
    let entries = &mut disc.file_system_table.fst_entries;
    // data.PAK, in mixed case
    assert_eq!(entries[3].guess_kind(), Ok(()));
    match entries[3].file() {
        Some(FstEntryFile::Pak(Pak::Unread(range))) => {
            assert_eq!(range.as_slice(), &image[0x2f80..0x2f80 + 60])
        }
        _ => panic!("a file named .PAK becomes a container"),
    }
    // default.dol
    assert_eq!(entries[2].guess_kind(), Ok(()));
    assert!(matches!(entries[2].file(), Some(FstEntryFile::Unknown(_))));
    // a directory whose name is no container's
    assert_eq!(entries[1].guess_kind(), Ok(()));
}

#[test]
fn foo_pak_is_promoted_and_foo_dat_is_not() {
    let mut table = vec![0u8; 36];
    put_entry(&mut table, 0, 1, 0, 0, 3);
    put_entry(&mut table, 12, 0, 1, 0, 8);
    put_entry(&mut table, 24, 0, 9, 8, 4);
    table.extend_from_slice(b"\0foo.PAK\0foo.dat\0");
    let mut parsed = FileSystemTable::read(Reader::new(&table), 0, table.len()).unwrap();
    assert_eq!(parsed.fst_entries[1].name(), Some(&b"foo.PAK"[..]));
    assert_eq!(parsed.fst_entries[1].guess_kind(), Ok(()));
    assert!(matches!(parsed.fst_entries[1].file(), Some(FstEntryFile::Pak(Pak::Unread(_)))));
    assert_eq!(parsed.fst_entries[2].name(), Some(&b"foo.dat"[..]));
    assert_eq!(parsed.fst_entries[2].guess_kind(), Ok(()));
    assert!(matches!(parsed.fst_entries[2].file(), Some(FstEntryFile::Unknown(_))));
    // the root has the empty name
    assert_eq!(parsed.fst_entries[0].guess_kind(), Err(PromoteError::NameTooShort));
}

#[test]
fn promotion_twice_is_promotion_once() {
    let image = toy_image();
    let mut disc = GcDisc::read(Reader::new(&image)).unwrap();
    let entry = &mut disc.file_system_table.fst_entries[3];
    entry.guess_kind().unwrap();
    let once = format!("{:?}", entry);
    assert_eq!(entry.guess_kind(), Ok(()));
    assert_eq!(format!("{:?}", entry), once);
    assert_eq!(entry.file().unwrap().size(), 60);
}

#[test]
fn promotion_fails_on_a_directory_and_on_a_replacement() {
    let mut image = toy_image();
    // the directory takes the name of the container
    image[FST_OFFSET + 12 + 3] = 16;
    let mut disc = GcDisc::read(Reader::new(&image)).unwrap();
    let entries = &mut disc.file_system_table.fst_entries;
    assert_eq!(entries[1].guess_kind(), Err(PromoteError::Directory));
    *entries[3].file_mut().unwrap() = FstEntryFile::ExternalFile(ReadWrapper::new(vec![1, 2]), 2);
    assert_eq!(entries[3].guess_kind(), Err(PromoteError::ExternalFile));
    assert!(entries[1].file_mut().is_none());
}

#[test]
fn boot_file_relocation() {
    // two files at offsets 1000 and 2000, of 50 and 60 bytes
    let mut image = vec![0u8; 4096];
    put_entry(&mut image, 3000, 1, 0, 0, 3);
    put_entry(&mut image, 3012, 0, 1, 1000, 50);
    put_entry(&mut image, 3024, 0, 13, 2000, 60);
    image[3036..3036 + 19].copy_from_slice(b"\0default.dol\0b.bin\0");
    let source = toy_image();
    let mut disc = GcDisc::read(Reader::new(&source)).unwrap();
    disc.file_system_table = FileSystemTable::read(Reader::new(&image), 3000, 55).unwrap();
    // the boot file grows to 200 bytes
    *disc.file_system_table.fst_entries[1].file_mut().unwrap() =
        FstEntryFile::ExternalFile(ReadWrapper::new(vec![0x11; 200]), 200);
    assert_eq!(disc.replan(GC_DISC_LENGTH as u32), Ok(()));
    let entries = &disc.file_system_table.fst_entries;
    // the file that stood higher goes first: 60 bytes take 64
    assert_eq!(entries[2].offset, 1_459_978_240 - 64);
    assert_eq!(entries[2].length, 60);
    // 200 bytes take 224
    assert_eq!(entries[1].offset, 1_459_978_240 - 64 - 224);
    assert_eq!(entries[1].length, 200);
    assert!(entries[1].offset < entries[2].offset);
    assert_eq!(entries[1].offset % 32, 0);
    assert_eq!(entries[2].offset % 32, 0);
    assert_eq!(disc.header.main_dol_offset, entries[1].offset);
    // the root is left alone
    assert_eq!(entries[0].offset, 0);
    assert_eq!(entries[0].length, 3);
}

#[test]
fn boot_file_is_the_first_entry_of_its_name() {
    let mut image = vec![0u8; 128];
    put_entry(&mut image, 0, 1, 12, 0, 4);
    put_entry(&mut image, 12, 1, 0, 77, 4);
    put_entry(&mut image, 24, 0, 0, 64, 8);
    put_entry(&mut image, 36, 0, 0, 96, 8);
    image[48..60].copy_from_slice(b"default.dol\0");
    image[60] = 0;
    let source = toy_image();
    let mut disc = GcDisc::read(Reader::new(&source)).unwrap();
    disc.file_system_table = FileSystemTable::read(Reader::new(&image), 0, 61).unwrap();
    assert_eq!(disc.file_system_table.find(b"default.dol"), Some(1));
    assert_eq!(disc.replan(1024), Ok(()));
    // the first entry of the name is a directory, which is not placed
    assert_eq!(disc.header.main_dol_offset, 77);
    assert_eq!(disc.file_system_table.fst_entries[3].offset, 1024 - 32);
    assert_eq!(disc.file_system_table.fst_entries[2].offset, 1024 - 64);
}

#[test]
fn files_of_one_offset_are_placed_in_table_order() {
    let mut image = vec![0u8; 256];
    put_entry(&mut image, 0, 1, 0, 0, 5);
    put_entry(&mut image, 12, 0, 0, 100, 1);
    put_entry(&mut image, 24, 0, 0, 200, 33);
    put_entry(&mut image, 36, 0, 0, 100, 32);
    put_entry(&mut image, 48, 0, 0, 200, 0);
    image[60] = 0;
    let mut table = FileSystemTable::read(Reader::new(&image), 0, 61).unwrap();
    assert_eq!(table.recalculate_offsets_and_lengths(1000), Ok(()));
    let offsets: Vec<u32> = table.fst_entries.iter().map(|e| e.offset).collect();
    // order of placement: entry 2 (64 bytes), entry 4 (none), entry 1 (32), entry 3 (32)
    assert_eq!(offsets, vec![0, 1000 - 96, 1000 - 64, 1000 - 128, 1000 - 64]);
    // each ends less than 32 bytes below the one before it
    assert_eq!(1000 - (offsets[2] + 33), 31);
    assert_eq!(offsets[4] - (offsets[1] + 1), 31);
    assert_eq!(offsets[1] - (offsets[3] + 32), 0);
}

#[test]
fn files_that_do_not_fit_change_nothing() {
    let image = toy_image();
    let mut disc = GcDisc::read(Reader::new(&image)).unwrap();
    assert!(disc.file_system_table.fits(128));
    assert!(!disc.file_system_table.fits(127));
    assert_eq!(
        disc.file_system_table.recalculate_offsets_and_lengths(127),
        Err(LayoutError::CapacityExceeded)
    );
    assert_eq!(disc.file_system_table.fst_entries[2].offset, 0x2fc0);
    assert_eq!(disc.file_system_table.fst_entries[3].offset, 0x2f80);
    let mut sink = MemorySink::new(IMAGE_LENGTH);
    match disc.write_with_capacity(&mut sink, 127) {
        Err(WriteError::Layout(LayoutError::CapacityExceeded)) => {}
        _ => panic!("files of 128 bytes were placed in 127"),
    }
    assert_eq!(sink.as_slice().len(), 0);
    assert_eq!(disc.header.main_dol_offset, 0x2fc0);
}

#[test]
fn missing_boot_file_is_a_layout_error() {
    let mut image = toy_image();
    image[FST_OFFSET + 48 + 4] = b'D';
    let mut disc = GcDisc::read(Reader::new(&image)).unwrap();
    assert_eq!(disc.replan(0x3000), Err(LayoutError::BootFileMissing));
    assert_eq!(disc.replan(100), Err(LayoutError::CapacityExceeded));
    let mut sink = MemorySink::new(IMAGE_LENGTH);
    match disc.write(&mut sink) {
        Err(WriteError::Layout(LayoutError::BootFileMissing)) => {}
        _ => panic!("an image without a boot file was written"),
    }
    assert_eq!(sink.as_slice().len(), 0);
}

#[test]
fn grown_file_moves_the_others_down() {
    let image = toy_image();
    let mut disc = GcDisc::read(Reader::new(&image)).unwrap();
    let replacement: Vec<u8> = (0..5000u32).map(|i| (i % 253) as u8).collect();
    *disc.file_system_table.fst_entries[2].file_mut().unwrap() =
        FstEntryFile::ExternalFile(ReadWrapper::new(replacement.clone()), 5000);
    let mut sink = MemorySink::new(0x10000);
    disc.write_with_capacity(&mut sink, 0x10000).unwrap();
    let entries = &disc.file_system_table.fst_entries;
    // 5000 bytes take 5024
    assert_eq!(entries[2].offset, 0x10000 - 5024);
    assert_eq!(entries[2].length, 5000);
    assert_eq!(entries[3].offset, 0x10000 - 5024 - 64);
    assert_eq!(disc.header.main_dol_offset, 0x10000 - 5024);
    let written = sink.as_slice();
    assert_eq!(written.len(), 0x10000 - 5024 + 5000);
    assert_eq!(&written[0x10000 - 5024..], &replacement[..]);
    assert_eq!(&written[0x10000 - 5088..0x10000 - 5088 + 60], &image[0x2f80..0x2f80 + 60]);
    // the front is that of the image, but for the boot file's offset
    assert_eq!(&written[..0x420], &image[..0x420]);
    assert_eq!(&written[0x420..0x424], &(0x10000u32 - 5024).to_be_bytes());
    assert_eq!(&written[0x424..FST_OFFSET + 24], &image[0x424..FST_OFFSET + 24]);
    // the table holds the new places and the names as they were
    assert_eq!(&written[FST_OFFSET + 28..FST_OFFSET + 32], &(0x10000u32 - 5024).to_be_bytes());
    assert_eq!(&written[FST_OFFSET + 32..FST_OFFSET + 36], &5000u32.to_be_bytes());
    assert_eq!(&written[FST_OFFSET + 48..FST_OFFSET + 48 + NAMES.len()], NAMES);
    // a second image read from what was written has the same files
    let again = GcDisc::read(Reader::new(written)).unwrap();
    match again.file_system_table.fst_entries[2].file() {
        Some(FstEntryFile::Unknown(range)) => assert_eq!(range.as_slice(), &replacement[..]),
        _ => panic!("the replacement was not written where the table says"),
    }
}

#[test]
fn parts_say_what_goes_where() {
    let image = toy_image();
    let mut disc = GcDisc::read(Reader::new(&image)).unwrap();
    *disc.file_system_table.fst_entries[3].file_mut().unwrap() =
        FstEntryFile::ExternalFile(ReadWrapper::new(vec![0x77; 100]), 100);
    assert_eq!(disc.replan(0x4000), Ok(()));
    let parts = disc.parts();
    assert_eq!(parts.front.len(), 0x2460);
    assert_eq!(&parts.front[..0x420], &image[..0x420]);
    assert_eq!(&parts.front[0x420..0x424], &(0x4000u32 - 64).to_be_bytes());
    assert_eq!(&parts.front[0x424..], &image[0x424..0x2460]);
    assert_eq!(parts.table_offset, FST_OFFSET as u64);
    assert_eq!(parts.table.len(), 48 + NAMES.len());
    assert_eq!(&parts.table[..24], &image[FST_OFFSET..FST_OFFSET + 24]);
    assert_eq!(&parts.table[48..], NAMES);
    assert_eq!(parts.files.len(), 2);
    assert_eq!(parts.files[0].offset, 0x4000 - 64);
    assert_eq!(parts.files[0].bytes, &image[0x2fc0..0x2fc0 + 50]);
    assert_eq!(parts.files[1].offset, 0x4000 - 64 - 128);
    assert_eq!(parts.files[1].bytes, &[0x77u8; 100][..]);
    // written by hand, the parts give what a write gives
    let mut by_hand = vec![0u8; 0x4000 - 64 + 50];
    by_hand[..0x2460].copy_from_slice(&parts.front);
    by_hand[FST_OFFSET..FST_OFFSET + parts.table.len()].copy_from_slice(&parts.table);
    for file in parts.files.iter() {
        let at = file.offset as usize;
        by_hand[at..at + file.bytes.len()].copy_from_slice(file.bytes);
    }
    let mut sink = MemorySink::new(0x4000);
    disc.write_with_capacity(&mut sink, 0x4000).unwrap();
    assert_eq!(sink.as_slice(), &by_hand[..]);
}

#[test]
fn payload_sizes_and_bytes() {
    let bytes = [1u8, 2, 3, 4, 5];
    let raw = FstEntryFile::Unknown(Reader::new(&bytes));
    assert_eq!(raw.size(), 5);
    let external = FstEntryFile::ExternalFile(ReadWrapper::new(vec![9; 10000]), 12);
    assert_eq!(external.size(), 12);
    let unread = FstEntryFile::Pak(Pak::Unread(Reader::new(&bytes[1..])));
    assert_eq!(unread.size(), 4);
    let rebuilt = FstEntryFile::Pak(Pak::Rebuilt(vec![7; 70]));
    assert_eq!(rebuilt.size(), 70);

    let mut sink = MemorySink::new(20000);
    sink.seek(3).unwrap();
    raw.write(&mut sink).unwrap();
    assert_eq!(sink.as_slice(), &[0, 0, 0, 1, 2, 3, 4, 5]);
    unread.write(&mut sink).unwrap();
    assert_eq!(sink.as_slice(), &[0, 0, 0, 1, 2, 3, 4, 5, 2, 3, 4, 5]);
    sink.seek(1).unwrap();
    rebuilt.write(&mut sink).unwrap();
    assert_eq!(sink.as_slice().len(), 71);
    assert_eq!(sink.as_slice()[0], 0);
    assert_eq!(sink.as_slice()[70], 7);
    // a replacement writes all of its bytes, in runs of 4096
    sink.seek(0).unwrap();
    external.write(&mut sink).unwrap();
    assert_eq!(sink.as_slice(), &vec![9u8; 10000][..]);
}

#[test]
fn full_sink_fails_the_write_with_the_step() {
    let image = toy_image();
    let mut disc = GcDisc::read(Reader::new(&image)).unwrap();
    let mut sink = MemorySink::new(0x2000);
    match disc.write_with_capacity(&mut sink, IMAGE_LENGTH as u32) {
        Err(WriteError::Io { operation: Operation::Write, cause }) => {
            assert_eq!(cause, SinkFull { end: 0x2440, limit: 0x2000 })
        }
        _ => panic!("a sink of 0x2000 bytes took the front of an image"),
    }
    let mut sink = MemorySink::new(0x2f00);
    match disc.write_with_capacity(&mut sink, IMAGE_LENGTH as u32) {
        Err(WriteError::Io { operation: Operation::Seek, cause }) => {
            assert_eq!(cause, SinkFull { end: 0x2fc0, limit: 0x2f00 })
        }
        _ => panic!("a sink of 0x2f00 bytes took a file at 0x2fc0"),
    }
}
