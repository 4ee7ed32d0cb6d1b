use cpio_reader::entry::Entry;
use cpio_reader::iter_files;
use cpio_reader::mode::DIRECTORY;
use cpio_reader::mode::REGULAR_FILE;
use cpio_reader::mode::SYMBOLIK_LINK;
use cpio_reader::Iter;

fn w16(v: &mut Vec<u8>, x: u16, big: bool) {
    let b = if big { x.to_be_bytes() } else { x.to_le_bytes() };
    v.extend_from_slice(&b);
}

#[allow(clippy::too_many_arguments)]
fn obin_entry(
    big: bool,
    dev: u16,
    ino: u16,
    mode: u16,
    uid: u16,
    gid: u16,
    nlink: u16,
    rdev: u16,
    mtime: u32,
    name: &str,
    content: &[u8],
) -> Vec<u8> {
    let mut v = Vec::new();
    w16(&mut v, 0o070_707, big);
    w16(&mut v, dev, big);
    w16(&mut v, ino, big);
    w16(&mut v, mode, big);
    w16(&mut v, uid, big);
    w16(&mut v, gid, big);
    w16(&mut v, nlink, big);
    w16(&mut v, rdev, big);
    w16(&mut v, (mtime >> 16) as u16, big);
    w16(&mut v, (mtime & 0xffff) as u16, big);
    let namesize = (name.len() + 1) as u16;
    w16(&mut v, namesize, big);
    let filesize = content.len() as u32;
    w16(&mut v, (filesize >> 16) as u16, big);
    w16(&mut v, (filesize & 0xffff) as u16, big);
    v.extend_from_slice(name.as_bytes());
    v.push(0);
    if namesize % 2 == 1 {
        v.push(0);
    }
    v.extend_from_slice(content);
    if content.len() % 2 == 1 {
        v.push(0);
    }
    v
}

fn obin_trailer(big: bool) -> Vec<u8> {
    obin_entry(big, 0, 0, 0, 0, 0, 1, 0, 0, "TRAILER!!!", b"")
}

#[allow(clippy::too_many_arguments)]
fn odc_entry(
    dev: u32,
    ino: u32,
    mode: u32,
    uid: u32,
    gid: u32,
    nlink: u32,
    rdev: u32,
    mtime: u64,
    name: &str,
    content: &[u8],
) -> Vec<u8> {
    let mut v = Vec::new();
    v.extend_from_slice(b"070707");
    for x in [dev, ino, mode, uid, gid, nlink, rdev] {
        v.extend_from_slice(format!("{:06o}", x).as_bytes());
    }
    v.extend_from_slice(format!("{:011o}", mtime).as_bytes());
    v.extend_from_slice(format!("{:06o}", name.len() + 1).as_bytes());
    v.extend_from_slice(format!("{:011o}", content.len()).as_bytes());
    v.extend_from_slice(name.as_bytes());
    v.push(0);
    v.extend_from_slice(content);
    v
}

fn odc_trailer() -> Vec<u8> {
    odc_entry(0, 0, 0, 0, 0, 1, 0, 0, "TRAILER!!!", b"")
}

#[allow(clippy::too_many_arguments)]
fn newc_entry(
    magic: &str,
    ino: u32,
    mode: u32,
    uid: u32,
    gid: u32,
    nlink: u32,
    mtime: u32,
    devmajor: u32,
    devminor: u32,
    rdevmajor: u32,
    rdevminor: u32,
    check: u32,
    name_bytes: &[u8],
    content: &[u8],
) -> Vec<u8> {
    let mut v = Vec::new();
    v.extend_from_slice(magic.as_bytes());
    let fields = [
        ino,
        mode,
        uid,
        gid,
        nlink,
        mtime,
        content.len() as u32,
        devmajor,
        devminor,
        rdevmajor,
        rdevminor,
        (name_bytes.len() + 1) as u32,
        check,
    ];
    for x in fields {
        v.extend_from_slice(format!("{:08x}", x).as_bytes());
    }
    v.extend_from_slice(name_bytes);
    v.push(0);
    while v.len() % 4 != 0 {
        v.push(0);
    }
    v.extend_from_slice(content);
    while v.len() % 4 != 0 {
        v.push(0);
    }
    v
}

fn newc_trailer(magic: &str) -> Vec<u8> {
    newc_entry(magic, 0, 0, 0, 0, 1, 0, 0, 0, 0, 0, 0, b"TRAILER!!!", b"")
}

fn byte_sum(content: &[u8]) -> u32 {
    content.iter().fold(0u32, |acc, &b| acc.wrapping_add(b as u32))
}

#[test]
fn empty_buffer_yields_nothing() {
    let entries = iter_files(&[]);
    assert_eq!(entries.len(), 0);
}

#[test]
fn one_byte_yields_nothing() {
    let entries = iter_files(&[0x30]);
    assert_eq!(entries.len(), 0);
}

#[test]
fn legacy_binary_three_entries() {
    let mut bin = Vec::new();
    bin.extend(obin_entry(
        true,
        2050,
        48818,
        0o040_755,
        1000,
        1000,
        2,
        0,
        1_629_615_694,
        "skills",
        b"",
    ));
    bin.extend(obin_entry(
        true,
        2050,
        48825,
        0o100_644,
        1000,
        1000,
        2,
        0,
        1_629_615_520,
        "skills/derich",
        b"King\n",
    ));
    bin.extend(obin_entry(
        true,
        2050,
        48820,
        0o120_777,
        1000,
        1000,
        1,
        0,
        1_629_615_560,
        "derich",
        b"skills/derich",
    ));
    bin.extend(obin_trailer(true));

    let entries = iter_files(&bin);
    assert_eq!(entries.len(), 3);

    assert_eq!(entries[0].name(), "skills");
    assert_eq!(entries[0].file(), b"");
    assert!(entries[0].mode().contains(DIRECTORY));
    assert_eq!(entries[0].mode().bits(), 0o040_755);
    assert_eq!(entries[0].ino(), 48818);
    assert_eq!(entries[0].uid(), 1000);
    assert_eq!(entries[0].gid(), 1000);
    assert_eq!(entries[0].nlink(), 2);
    assert_eq!(entries[0].mtime(), 1_629_615_694);
    assert_eq!(entries[0].dev(), Some(2050));
    assert_eq!(entries[0].rdev(), Some(0));
    assert_eq!(entries[0].devmajor(), None);
    assert_eq!(entries[0].devminor(), None);
    assert_eq!(entries[0].rdevmajor(), None);
    assert_eq!(entries[0].rdevminor(), None);

    assert_eq!(entries[1].name(), "skills/derich");
    assert_eq!(entries[1].file(), b"King\n");
    assert!(entries[1].mode().contains(REGULAR_FILE));
    assert_eq!(entries[1].mode().bits(), 0o100_644);

    assert_eq!(entries[2].name(), "derich");
    assert_eq!(entries[2].file(), b"skills/derich");
    assert!(entries[2].mode().contains(SYMBOLIK_LINK));
    assert!(!entries[2].mode().contains(DIRECTORY));
}

#[test]
fn legacy_binary_little_endian() {
    let mut bin = Vec::new();
    bin.extend(obin_entry(
        false,
        7,
        42,
        0o100_600,
        1,
        2,
        1,
        0,
        0x0001_0002,
        "ab",
        b"xyz",
    ));
    bin.extend(obin_trailer(false));

    let entries = iter_files(&bin);
    assert_eq!(entries.len(), 1);
    assert_eq!(entries[0].name(), "ab");
    assert_eq!(entries[0].file(), b"xyz");
    assert_eq!(entries[0].ino(), 42);
    assert_eq!(entries[0].dev(), Some(7));
    assert_eq!(entries[0].mtime(), 0x0001_0002);
}

#[test]
fn portable_ascii_entry() {
    let mut bin = Vec::new();
    bin.extend(odc_entry(
        2050,
        48828,
        0o100_644,
        1000,
        1000,
        1,
        0,
        1_629_615_553,
        "magics/rosemary",
        b"Mother green\n",
    ));
    bin.extend(odc_trailer());

    let entries = iter_files(&bin);
    assert_eq!(entries.len(), 1);
    assert_eq!(entries[0].name(), "magics/rosemary");
    assert_eq!(entries[0].file(), b"Mother green\n");
    assert_eq!(entries[0].mode().bits(), 0o100_644);
    assert_eq!(entries[0].ino(), 48828);
    assert_eq!(entries[0].uid(), 1000);
    assert_eq!(entries[0].gid(), 1000);
    assert_eq!(entries[0].nlink(), 1);
    assert_eq!(entries[0].mtime(), 1_629_615_553);
    assert_eq!(entries[0].dev(), Some(2050));
    assert_eq!(entries[0].rdev(), Some(0));
    assert_eq!(entries[0].devmajor(), None);
}

#[test]
fn new_ascii_hard_links() {
    let mut bin = Vec::new();
    bin.extend(newc_entry(
        "070701",
        379,
        0o100_644,
        1000,
        1000,
        2,
        1_747_442_230,
        0,
        26,
        0,
        0,
        0,
        b"skills/derich",
        b"",
    ));
    bin.extend(newc_entry(
        "070701",
        379,
        0o100_644,
        1000,
        1000,
        2,
        1_747_442_230,
        0,
        26,
        0,
        0,
        0,
        b"magics/derich",
        b"King\n",
    ));
    bin.extend(newc_trailer("070701"));

    let entries = iter_files(&bin);
    assert_eq!(entries.len(), 2);
    assert_eq!(entries[0].name(), "skills/derich");
    assert_eq!(entries[0].file(), b"");
    assert_eq!(entries[1].name(), "magics/derich");
    assert_eq!(entries[1].file(), b"King\n");
    assert_eq!(entries[0].ino(), entries[1].ino());
    assert_eq!(entries[0].nlink(), 2);
    assert_eq!(entries[0].devmajor(), Some(0));
    assert_eq!(entries[0].devminor(), Some(26));
    assert_eq!(entries[0].rdevmajor(), Some(0));
    assert_eq!(entries[0].rdevminor(), Some(0));
    assert_eq!(entries[0].dev(), None);
    assert_eq!(entries[0].rdev(), None);
}

#[test]
fn crc_checksum_verified() {
    let content = b"King\n";
    let mut bin = Vec::new();
    bin.extend(newc_entry(
        "070702",
        387,
        0o100_644,
        1000,
        1000,
        1,
        1_747_442_236,
        0,
        26,
        0,
        0,
        byte_sum(content),
        b"magics/derich",
        content,
    ));
    bin.extend(newc_trailer("070702"));

    let entries = iter_files(&bin);
    assert_eq!(entries.len(), 1);
    assert_eq!(entries[0].name(), "magics/derich");
    assert_eq!(entries[0].file(), b"King\n");
}

#[test]
fn crc_checksum_mismatch_stops() {
    let content = b"King\n";
    let good = newc_entry(
        "070702",
        387,
        0o100_644,
        1000,
        1000,
        1,
        1_747_442_236,
        0,
        26,
        0,
        0,
        byte_sum(content),
        b"magics/derich",
        content,
    );
    // The content begins right after the 110-byte header, the name, its
    // null terminator, and the padding to the next 4-byte boundary.
    let content_start = (110 + b"magics/derich".len() + 1 + 3) / 4 * 4;
    assert_eq!(&good[content_start..content_start + 5], content);

    for flip in 0..content.len() {
        let mut bad = good.clone();
        bad[content_start + flip] ^= 0x01;
        let entries = iter_files(&bad);
        assert_eq!(entries.len(), 0, "flipped content byte {} still decoded", flip);
    }
}

#[test]
fn crc_symlink_checksum_ignored() {
    let target = b"skills/derich";
    // A deliberately wrong checksum: symbolic links are not verified.
    let mut bin = Vec::new();
    bin.extend(newc_entry(
        "070702",
        388,
        0o120_777,
        1000,
        1000,
        1,
        1_747_442_236,
        0,
        26,
        0,
        0,
        byte_sum(target).wrapping_add(5),
        b"derich",
        target,
    ));
    let entries = iter_files(&bin);
    assert_eq!(entries.len(), 1);
    assert_eq!(entries[0].name(), "derich");
    assert_eq!(entries[0].file(), b"skills/derich");
    assert!(entries[0].mode().contains(SYMBOLIK_LINK));
}

#[test]
fn trailer_stops_iteration() {
    let mut bin = Vec::new();
    bin.extend(newc_entry(
        "070701",
        1,
        0o100_644,
        0,
        0,
        1,
        0,
        0,
        0,
        0,
        0,
        0,
        b"first",
        b"data",
    ));
    bin.extend(newc_trailer("070701"));
    // A perfectly valid record after the trailer must never be reached.
    bin.extend(newc_entry(
        "070701",
        2,
        0o100_644,
        0,
        0,
        1,
        0,
        0,
        0,
        0,
        0,
        0,
        b"after",
        b"more",
    ));

    let entries = iter_files(&bin);
    assert_eq!(entries.len(), 1);
    assert_eq!(entries[0].name(), "first");
}

#[test]
fn magic_mismatch_yields_nothing() {
    let bin = vec![0x41u8; 200];
    let entries = iter_files(&bin);
    assert_eq!(entries.len(), 0);
}

#[test]
fn formats_not_confused() {
    let odc = odc_entry(1, 2, 0o100_644, 3, 4, 1, 0, 5, "x", b"y");
    assert!(Entry::interpret_as_old_binary(&odc).is_none());
    assert!(Entry::interpret_as_new_ascii_or_crc(&odc).is_none());
    assert!(Entry::interpret_as_portable_ascii(&odc).is_some());

    let newc = newc_entry("070701", 1, 0o100_644, 0, 0, 1, 0, 0, 0, 0, 0, 0, b"x", b"y");
    assert!(Entry::interpret_as_old_binary(&newc).is_none());
    assert!(Entry::interpret_as_portable_ascii(&newc).is_none());
    assert!(Entry::interpret_as_new_ascii_or_crc(&newc).is_some());

    let obin = obin_entry(true, 1, 2, 0o100_644, 3, 4, 1, 0, 5, "x", b"y");
    assert!(Entry::interpret_as_portable_ascii(&obin).is_none());
    assert!(Entry::interpret_as_new_ascii_or_crc(&obin).is_none());
    assert!(Entry::interpret_as_old_binary(&obin).is_some());
}

#[test]
fn zero_namesize_declines() {
    let mut bin = newc_entry("070701", 1, 0o100_644, 0, 0, 1, 0, 0, 0, 0, 0, 0, b"", b"");
    // Rewrite the namesize field (the twelfth 8-character field) to zero.
    let namesize_at = 6 + 8 * 11;
    for b in bin[namesize_at..namesize_at + 8].iter_mut() {
        *b = b'0';
    }
    let entries = iter_files(&bin);
    assert_eq!(entries.len(), 0);
}

#[test]
fn truncated_archive_stops() {
    let mut bin = Vec::new();
    bin.extend(newc_entry(
        "070701",
        1,
        0o100_644,
        0,
        0,
        1,
        0,
        0,
        0,
        0,
        0,
        0,
        b"first",
        b"data",
    ));
    let one_len = bin.len();
    bin.extend(newc_entry(
        "070701",
        2,
        0o100_644,
        0,
        0,
        1,
        0,
        0,
        0,
        0,
        0,
        0,
        b"second",
        b"payload",
    ));

    // Cutting anywhere inside the second record keeps the first entry and
    // never panics.  The only cut that still decodes the second entry is
    // the one that removes nothing but the final alignment padding, which
    // the decoder deliberately clamps.
    let second_content_start = (110 + b"second".len() + 1 + 3) / 4 * 4;
    let second_content_end = one_len + second_content_start + b"payload".len();
    for cut in one_len..bin.len() {
        let entries = iter_files(&bin[..cut]);
        if cut >= second_content_end {
            assert_eq!(entries.len(), 2);
            assert_eq!(entries[1].name(), "second");
            assert_eq!(entries[1].file(), b"payload");
        } else {
            assert_eq!(entries.len(), 1);
        }
        assert_eq!(entries[0].name(), "first");
    }
}

#[test]
fn non_digit_field_declines() {
    let mut bin = odc_entry(1, 2, 0o100_644, 3, 4, 1, 0, 5, "x", b"y");
    bin[10] = b'z';
    assert_eq!(iter_files(&bin).len(), 0);

    let mut newc = newc_entry("070701", 1, 0o100_644, 0, 0, 1, 0, 0, 0, 0, 0, 0, b"x", b"y");
    newc[20] = b'!';
    assert_eq!(iter_files(&newc).len(), 0);
}

#[test]
fn octal_eight_and_nine_decline() {
    let mut bin = odc_entry(1, 2, 0o100_644, 3, 4, 1, 0, 5, "x", b"y");
    bin[10] = b'8';
    assert_eq!(iter_files(&bin).len(), 0);
    bin[10] = b'9';
    assert_eq!(iter_files(&bin).len(), 0);
}

#[test]
fn hex_upper_and_lower_accepted() {
    let mut bin = newc_entry("070701", 0xab, 0o100_644, 0, 0, 1, 0, 0, 0, 0, 0, 0, b"x", b"");
    let entries = iter_files(&bin);
    assert_eq!(entries.len(), 1);
    assert_eq!(entries[0].ino(), 0xab);

    // The same field spelled with uppercase digits decodes to the same
    // value.
    let ino_at = 6;
    for b in bin[ino_at..ino_at + 8].iter_mut() {
        *b = b.to_ascii_uppercase();
    }
    let entries = iter_files(&bin);
    assert_eq!(entries.len(), 1);
    assert_eq!(entries[0].ino(), 0xab);
}

#[test]
fn invalid_utf8_name_declines() {
    let bin = newc_entry("070701", 1, 0o100_644, 0, 0, 1, 0, 0, 0, 0, 0, 0, &[0xff, 0xfe], b"");
    assert_eq!(iter_files(&bin).len(), 0);
}

#[test]
fn multibyte_utf8_name_decoded() {
    let bin = newc_entry(
        "070701",
        1,
        0o100_644,
        0,
        0,
        1,
        0,
        0,
        0,
        0,
        0,
        0,
        "na\u{ef}ve".as_bytes(),
        b"",
    );
    let entries = iter_files(&bin);
    assert_eq!(entries.len(), 1);
    assert_eq!(entries[0].name(), "na\u{ef}ve");
}

#[test]
fn huge_filesize_field_declines() {
    // A file-size field far beyond the buffer must decline, never read out
    // of bounds, and never panic.
    let mut newc = newc_entry("070701", 1, 0o100_644, 0, 0, 1, 0, 0, 0, 0, 0, 0, b"x", b"y");
    let filesize_at = 6 + 8 * 6;
    newc[filesize_at..filesize_at + 8].copy_from_slice(b"ffffffff");
    assert_eq!(iter_files(&newc).len(), 0);

    let mut odc = odc_entry(1, 2, 0o100_644, 3, 4, 1, 0, 5, "x", b"y");
    let odc_filesize_at = 65;
    odc[odc_filesize_at..odc_filesize_at + 11].copy_from_slice(b"77777777777");
    assert_eq!(iter_files(&odc).len(), 0);
}

#[test]
fn cursor_reads_and_skips() {
    let data = [1u8, 2, 3, 4, 5, 6, 7];
    let mut ba = cpio_reader::cursor::ByteArray::new(&data);
    assert_eq!(ba.proceed_byte(), Some(1));
    assert_eq!(ba.proceed_bytes(2), Some(&data[1..3]));
    ba.skip_to_next_multiple_of_four();
    assert_eq!(ba.remaining_len(), 3);
    assert_eq!(ba.proceed_bytes(4), None);
    ba.skip_bytes(100);
    assert_eq!(ba.into_inner(), b"");

    let text = b"0701239f";
    let mut ba = cpio_reader::cursor::ByteArray::new(text);
    assert_eq!(ba.proceed_str_into_octal_u32(6), Some(0o070123));
    let mut ba = cpio_reader::cursor::ByteArray::new(text);
    assert_eq!(ba.proceed_str_into_hex(), Some(0x0701_239f));
    let mut ba = cpio_reader::cursor::ByteArray::new(text);
    assert_eq!(ba.proceed_str(8), Some("0701239f"));
    let mut ba = cpio_reader::cursor::ByteArray::new(text);
    assert_eq!(
        ba.proceed_u16(cpio_reader::cursor::Endianness::Big),
        Some(0x3037)
    );
    let mut ba = cpio_reader::cursor::ByteArray::new(text);
    assert_eq!(
        ba.proceed_u16(cpio_reader::cursor::Endianness::Little),
        Some(0x3730)
    );
}

#[test]
fn mode_flag_operations() {
    let m = cpio_reader::mode::Mode::from_bits(0o120_777).unwrap();
    assert_eq!(m.bits(), 0o120_777);
    assert!(m.contains(SYMBOLIK_LINK));
    assert!(m.contains(cpio_reader::mode::USER_READABLE));
    assert!(!m.contains(DIRECTORY));

    // Every bit pattern is accepted.
    assert!(cpio_reader::mode::Mode::from_bits(0xffff_ffff).is_some());
}

#[test]
fn iter_pulls_lazily() {
    let mut bin = Vec::new();
    bin.extend(newc_entry(
        "070701",
        1,
        0o100_644,
        0,
        0,
        1,
        0,
        0,
        0,
        0,
        0,
        0,
        b"first",
        b"data",
    ));
    bin.extend(newc_trailer("070701"));

    let mut it = Iter::new(&bin);
    let first = it.next();
    assert!(first.is_some());
    assert_eq!(first.unwrap().name(), "first");
    assert!(it.next().is_none());
    assert!(it.next().is_none());
}

#[test]
fn mtime_split_across_two_words() {
    let mut bin = Vec::new();
    bin.extend(obin_entry(
        true,
        0,
        1,
        0o100_644,
        0,
        0,
        1,
        0,
        0xdead_beef,
        "t",
        b"",
    ));
    bin.extend(obin_trailer(true));
    let entries = iter_files(&bin);
    assert_eq!(entries.len(), 1);
    assert_eq!(entries[0].mtime(), 0xdead_beef);
}

#[test]
fn odd_content_padding_between_records() {
    let mut bin = Vec::new();
    // An odd-sized content must be followed by one pad byte before the next
    // record, and an even-sized name by one pad byte after its terminator.
    bin.extend(obin_entry(true, 0, 1, 0o100_644, 0, 0, 1, 0, 0, "ab", b"xyz"));
    bin.extend(obin_entry(true, 0, 2, 0o100_644, 0, 0, 1, 0, 0, "cde", b"1234"));
    bin.extend(obin_trailer(true));
    let entries = iter_files(&bin);
    assert_eq!(entries.len(), 2);
    assert_eq!(entries[0].name(), "ab");
    assert_eq!(entries[0].file(), b"xyz");
    assert_eq!(entries[1].name(), "cde");
    assert_eq!(entries[1].file(), b"1234");
}
