//! The byte-level model of the three on-disk cpio record layouts.
//!
//! Everything here is specification: for each format a function says, for an
//! arbitrary byte sequence, whether a record of that format starts at its
//! head, and if so which logical entry it denotes and which bytes follow the
//! record.  The decoders in [`crate::entry`] are verified against these
//! functions, and [`spec_archive`] chains them into the meaning of a whole
//! buffer.

use vstd::prelude::*;

use crate::cursor::all_hex;
use crate::cursor::all_octal;
use crate::cursor::hex_value;
use crate::cursor::octal_value;
use crate::cursor::Endianness;
use vstd::math::min;
use vstd::utf8::valid_utf8;

verus! {

/// The logical content of one decoded record: the numeric metadata, the raw
/// bytes of the name (without its null terminator), and the raw content
/// bytes.
pub ghost struct SpecEntry {
    /// Combined device number; present exactly in the two legacy formats.
    pub dev: Option<u32>,
    /// Device major number; present exactly in the new formats.
    pub devmajor: Option<u32>,
    /// Device minor number; present exactly in the new formats.
    pub devminor: Option<u32>,
    /// Inode number.
    pub ino: u32,
    /// Raw mode bits.
    pub mode: u32,
    /// Owner user id.
    pub uid: u32,
    /// Owner group id.
    pub gid: u32,
    /// Number of links.
    pub nlink: u32,
    /// Combined special-file device number; present exactly in the two
    /// legacy formats.
    pub rdev: Option<u32>,
    /// Special-file device major number; present exactly in the new formats.
    pub rdevmajor: Option<u32>,
    /// Special-file device minor number; present exactly in the new formats.
    pub rdevminor: Option<u32>,
    /// Modification time.
    pub mtime: u64,
    /// The bytes of the file name.
    pub name: Seq<u8>,
    /// The raw content bytes.
    pub file: Seq<u8>,
}

/// The next position at or after `p` that is a multiple of four.
pub open spec fn align4(p: int) -> int {
    p + ((4 - p % 4) % 4)
}

/// The 16-bit word stored at `pos` in byte order `e`.
pub open spec fn u16_field(b: Seq<u8>, pos: int, e: Endianness) -> u16 {
    e.spec_u16_of(b[pos], b[pos + 1])
}

/// The byte order announced by a legacy binary magic at the head of `b`:
/// the octal word `0o070707` read big-endian (`0x71 0xc7`) or little-endian
/// (`0xc7 0x71`).  `None` when neither matches.
pub open spec fn old_binary_endianness(b: Seq<u8>) -> Option<Endianness> {
    if b.len() < 2 {
        None
    } else if b[0] == 0x71 && b[1] == 0xc7 {
        Some(Endianness::Big)
    } else if b[0] == 0xc7 && b[1] == 0x71 {
        Some(Endianness::Little)
    } else {
        None
    }
}

/// The record, and the bytes after it, when a legacy binary record starts at
/// the head of `b`.
///
/// The layout: the 2-byte magic; eleven 16-bit words (`dev`, `ino`, `mode`,
/// `uid`, `gid`, `nlink`, `rdev`, the two `mtime` halves, `namesize`, the
/// two file-size halves), all in the byte order the magic announced; the
/// name of `namesize - 1` bytes followed by its null terminator and one pad
/// byte when `namesize` is odd; the content, followed by one pad byte when
/// its size is odd.
pub open spec fn spec_old_binary(b: Seq<u8>) -> Option<(SpecEntry, Seq<u8>)> {
    match old_binary_endianness(b) {
        None => None,
        Some(e) => {
            if b.len() < 26 {
                None
            } else {
                let namesize = u16_field(b, 20, e) as int;
                let filesize = u16_field(b, 22, e) * 0x10000 + u16_field(b, 24, e);
                if namesize == 0 {
                    None
                } else if 25 + namesize > b.len() {
                    None
                } else {
                    let name = b.subrange(26, 25 + namesize);
                    if !valid_utf8(name) {
                        None
                    } else {
                        let fstart = min(26 + namesize + (namesize % 2), b.len() as int);
                        if filesize > b.len() - fstart {
                            None
                        } else {
                            let file = b.subrange(fstart, fstart + filesize);
                            let endpos = min(fstart + filesize + (filesize % 2), b.len() as int);
                            Some(
                                (
                                    SpecEntry {
                                        dev: Some(u16_field(b, 2, e) as u32),
                                        devmajor: None,
                                        devminor: None,
                                        ino: u16_field(b, 4, e) as u32,
                                        mode: u16_field(b, 6, e) as u32,
                                        uid: u16_field(b, 8, e) as u32,
                                        gid: u16_field(b, 10, e) as u32,
                                        nlink: u16_field(b, 12, e) as u32,
                                        rdev: Some(u16_field(b, 14, e) as u32),
                                        rdevmajor: None,
                                        rdevminor: None,
                                        mtime: (u16_field(b, 16, e) * 0x10000 + u16_field(
                                            b,
                                            18,
                                            e,
                                        )) as u64,
                                        name,
                                        file,
                                    },
                                    b.skip(endpos),
                                ),
                            )
                        }
                    }
                }
            }
        },
    }
}

/// True when `b` starts with the portable ASCII magic, the six ASCII
/// characters `070707`.
pub open spec fn portable_magic_ok(b: Seq<u8>) -> bool {
    b.len() >= 6 && b[0] == 0x30 && b[1] == 0x37 && b[2] == 0x30 && b[3] == 0x37 && b[4] == 0x30
        && b[5] == 0x37
}

/// True when all six-character octal fields and both eleven-character octal
/// fields of a portable ASCII header are octal digit text.
pub open spec fn portable_fields_ok(b: Seq<u8>) -> bool {
    &&& b.len() >= 76
    &&& all_octal(b.subrange(6, 12))  // dev
    &&& all_octal(b.subrange(12, 18))  // ino
    &&& all_octal(b.subrange(18, 24))  // mode
    &&& all_octal(b.subrange(24, 30))  // uid
    &&& all_octal(b.subrange(30, 36))  // gid
    &&& all_octal(b.subrange(36, 42))  // nlink
    &&& all_octal(b.subrange(42, 48))  // rdev
    &&& all_octal(b.subrange(48, 59))  // mtime
    &&& all_octal(b.subrange(59, 65))  // namesize
    &&& all_octal(b.subrange(65, 76))  // filesize
}

/// The record, and the bytes after it, when a portable ASCII record starts
/// at the head of `b`.
///
/// The layout: the 6-character magic; seven 6-character octal fields; an
/// 11-character octal `mtime`; a 6-character octal `namesize`; an
/// 11-character octal file size; the name of `namesize - 1` bytes followed
/// by its null terminator; the content.  No alignment padding anywhere.
pub open spec fn spec_portable_ascii(b: Seq<u8>) -> Option<(SpecEntry, Seq<u8>)> {
    if !portable_magic_ok(b) {
        None
    } else if !portable_fields_ok(b) {
        None
    } else {
        let namesize = octal_value(b.subrange(59, 65));
        let filesize = octal_value(b.subrange(65, 76));
        if namesize == 0 {
            None
        } else if 75 + namesize > b.len() {
            None
        } else {
            let name = b.subrange(76, 75 + namesize);
            if !valid_utf8(name) {
                None
            } else {
                let fstart = min(76 + namesize, b.len() as int);
                if filesize > b.len() - fstart {
                    None
                } else {
                    let file = b.subrange(fstart, fstart + filesize);
                    Some(
                        (
                            SpecEntry {
                                dev: Some(octal_value(b.subrange(6, 12)) as u32),
                                devmajor: None,
                                devminor: None,
                                ino: octal_value(b.subrange(12, 18)) as u32,
                                mode: octal_value(b.subrange(18, 24)) as u32,
                                uid: octal_value(b.subrange(24, 30)) as u32,
                                gid: octal_value(b.subrange(30, 36)) as u32,
                                nlink: octal_value(b.subrange(36, 42)) as u32,
                                rdev: Some(octal_value(b.subrange(42, 48)) as u32),
                                rdevmajor: None,
                                rdevminor: None,
                                mtime: octal_value(b.subrange(48, 59)) as u64,
                                name,
                                file,
                            },
                            b.skip(fstart + filesize),
                        ),
                    )
                }
            }
        }
    }
}

/// True when `b` starts with a new ASCII magic: the six ASCII characters
/// `070701` (plain) or `070702` (checksummed).
pub open spec fn newc_magic_ok(b: Seq<u8>) -> bool {
    b.len() >= 6 && b[0] == 0x30 && b[1] == 0x37 && b[2] == 0x30 && b[3] == 0x37 && b[4] == 0x30
        && (b[5] == 0x31 || b[5] == 0x32)
}

/// True when the magic at the head of `b` selects the checksummed
/// sub-variant.
pub open spec fn newc_is_crc(b: Seq<u8>) -> bool {
    b.len() >= 6 && b[5] == 0x32
}

/// The bytes of the `i`-th 8-character hexadecimal header field.
pub open spec fn newc_field_bytes(b: Seq<u8>, i: int) -> Seq<u8> {
    b.subrange(6 + 8 * i, 14 + 8 * i)
}

/// The value of the `i`-th 8-character hexadecimal header field.  The
/// thirteen fields are, in order: `ino`, `mode`, `uid`, `gid`, `nlink`,
/// `mtime`, file size, `devmajor`, `devminor`, `rdevmajor`, `rdevminor`,
/// `namesize`, checksum.
pub open spec fn newc_field(b: Seq<u8>, i: int) -> u32 {
    hex_value(newc_field_bytes(b, i)) as u32
}

/// True when all thirteen hexadecimal fields of a new ASCII header are
/// hexadecimal digit text.
pub open spec fn newc_fields_ok(b: Seq<u8>) -> bool {
    &&& b.len() >= 110
    &&& forall|i: int| 0 <= i < 13 ==> all_hex(#[trigger] newc_field_bytes(b, i))
}

/// The name length field of a new ASCII header.
pub open spec fn newc_namesize(b: Seq<u8>) -> int {
    newc_field(b, 11) as int
}

/// The file size field of a new ASCII header.
pub open spec fn newc_filesize(b: Seq<u8>) -> int {
    newc_field(b, 6) as int
}

/// The position where the content of a new ASCII record starts: past the
/// name and its null terminator, rounded up to the next multiple of four,
/// clamping at the end of the buffer.
pub open spec fn newc_content_start(b: Seq<u8>) -> int {
    min(align4(min(110 + newc_namesize(b), b.len() as int)), b.len() as int)
}

/// The content-byte checksum of the checksummed sub-variant: the sum of the
/// content bytes as 32-bit values, wrapping on overflow.
pub open spec fn checksum_of(s: Seq<u8>) -> u32
    decreases s.len(),
{
    if s.len() == 0 {
        0u32
    } else {
        vstd::wrapping::u32_specs::wrapping_add(checksum_of(s.drop_last()), s.last() as u32)
    }
}

/// The record, and the bytes after it, when a new ASCII or new CRC record
/// starts at the head of `b`.
///
/// The layout: the 6-character magic; thirteen 8-character hexadecimal
/// fields; the name of `namesize - 1` bytes followed by its null terminator;
/// padding up to the next 4-byte boundary; the content; padding up to the
/// next 4-byte boundary.  Under the checksummed magic the sum of the content
/// bytes must equal the checksum field, except for a symbolic link, whose
/// checksum is not verified.
pub open spec fn spec_new_ascii(b: Seq<u8>) -> Option<(SpecEntry, Seq<u8>)> {
    if !newc_magic_ok(b) {
        None
    } else if !newc_fields_ok(b) {
        None
    } else {
        let namesize = newc_namesize(b);
        let filesize = newc_filesize(b);
        if namesize == 0 {
            None
        } else if 109 + namesize > b.len() {
            None
        } else {
            let name = b.subrange(110, 109 + namesize);
            if !valid_utf8(name) {
                None
            } else {
                let cstart = newc_content_start(b);
                if filesize > b.len() - cstart {
                    None
                } else {
                    let file = b.subrange(cstart, cstart + filesize);
                    let mode = newc_field(b, 1);
                    if newc_is_crc(b) && mode & 0o120_000 != 0o120_000 && checksum_of(file)
                        != newc_field(b, 12) {
                        None
                    } else {
                        let endpos = min(align4(cstart + filesize), b.len() as int);
                        Some(
                            (
                                SpecEntry {
                                    dev: None,
                                    devmajor: Some(newc_field(b, 7)),
                                    devminor: Some(newc_field(b, 8)),
                                    ino: newc_field(b, 0),
                                    mode,
                                    uid: newc_field(b, 2),
                                    gid: newc_field(b, 3),
                                    nlink: newc_field(b, 4),
                                    rdev: None,
                                    rdevmajor: Some(newc_field(b, 9)),
                                    rdevminor: Some(newc_field(b, 10)),
                                    mtime: newc_field(b, 5) as u64,
                                    name,
                                    file,
                                },
                                b.skip(endpos),
                            ),
                        )
                    }
                }
            }
        }
    }
}

/// The result of trying the three formats against the head of `b`, in the
/// fixed order: legacy binary, then portable ASCII, then new ASCII / CRC.
pub open spec fn spec_first_success(b: Seq<u8>) -> Option<(SpecEntry, Seq<u8>)> {
    if spec_old_binary(b) is Some {
        spec_old_binary(b)
    } else if spec_portable_ascii(b) is Some {
        spec_portable_ascii(b)
    } else {
        spec_new_ascii(b)
    }
}

/// The bytes of the end-of-archive sentinel name, `TRAILER!!!`.
pub open spec fn trailer_name() -> Seq<u8> {
    seq![0x54u8, 0x52u8, 0x41u8, 0x49u8, 0x4cu8, 0x45u8, 0x52u8, 0x21u8, 0x21u8, 0x21u8]
}

/// True when `name` is the end-of-archive sentinel name.
pub open spec fn is_trailer(name: Seq<u8>) -> bool {
    name == trailer_name()
}

/// One step of the decoding protocol: the first format that decodes the
/// head of `b` wins, and a record named `TRAILER!!!` is withheld, which
/// terminates the sequence.
pub open spec fn spec_parse_entry(b: Seq<u8>) -> Option<(SpecEntry, Seq<u8>)> {
    match spec_first_success(b) {
        Some((m, rem)) => if is_trailer(m.name) {
            None
        } else {
            Some((m, rem))
        },
        None => None,
    }
}

/// The sequence of entries that decoding `b` produces: records are decoded
/// from the front until the buffer is exhausted, a record fails to decode,
/// or the trailer sentinel is reached.
pub open spec fn spec_archive(b: Seq<u8>) -> Seq<SpecEntry>
    decreases b.len(),
{
    if b.len() == 0 {
        Seq::empty()
    } else {
        match spec_parse_entry(b) {
            Some((m, rem)) => if rem.len() < b.len() {
                seq![m] + spec_archive(rem)
            } else {
                seq![m]
            },
            None => Seq::empty(),
        }
    }
}

/// A record that decodes consumes at least its header, so the bytes after
/// it are strictly fewer than the bytes it started from.
pub proof fn lemma_parse_entry_consumes(b: Seq<u8>)
    ensures
        spec_parse_entry(b) matches Some((m, rem)) ==> b.len() > 0 && rem.len() < b.len(),
{
    if spec_old_binary(b) is Some {
        match old_binary_endianness(b) {
            Some(e) => {
                let namesize = u16_field(b, 20, e) as int;
                let filesize = u16_field(b, 22, e) * 0x10000 + u16_field(b, 24, e);
                let fstart = min(26 + namesize + (namesize % 2), b.len() as int);
                let endpos = min(fstart + filesize + (filesize % 2), b.len() as int);
                assert(namesize >= 1);
                assert(filesize >= 0);
                assert(endpos >= 26);
                assert(spec_old_binary(b) matches Some((m, rem)) && rem == b.skip(endpos));
            },
            None => {},
        }
    } else if spec_portable_ascii(b) is Some {
        let namesize = octal_value(b.subrange(59, 65));
        let filesize = octal_value(b.subrange(65, 76));
        let fstart = min(76 + namesize, b.len() as int);
        crate::cursor::lemma_octal_value_bound(b.subrange(59, 65));
        crate::cursor::lemma_octal_value_bound(b.subrange(65, 76));
        assert(namesize >= 1);
        assert(filesize >= 0);
        assert(fstart >= 76);
        assert(spec_portable_ascii(b) matches Some((m, rem)) && rem == b.skip(fstart + filesize));
        assert(fstart + filesize >= 76);
    } else if spec_new_ascii(b) is Some {
        let namesize = newc_namesize(b);
        let filesize = newc_filesize(b);
        let cstart = newc_content_start(b);
        let endpos = min(align4(cstart + filesize), b.len() as int);
        assert(namesize >= 1);
        assert(filesize >= 0);
        assert(cstart >= 110);
        assert(endpos >= 110);
        assert(spec_new_ascii(b) matches Some((m, rem)) && rem == b.skip(endpos));
    }
}

/// Unfolds one step of [`spec_archive`].
pub proof fn lemma_archive_unfold(b: Seq<u8>)
    ensures
        spec_parse_entry(b) is None ==> spec_archive(b) == Seq::<SpecEntry>::empty(),
        b.len() == 0 ==> spec_archive(b) == Seq::<SpecEntry>::empty(),
        spec_parse_entry(b) matches Some((m, rem)) ==> {
            &&& spec_archive(b).len() == 1 + spec_archive(rem).len()
            &&& spec_archive(b)[0] == m
            &&& spec_archive(b).skip(1) == spec_archive(rem)
            &&& rem.len() < b.len()
        },
{
    lemma_parse_entry_consumes(b);
    if b.len() > 0 {
        match spec_parse_entry(b) {
            Some((m, rem)) => {
                assert(spec_archive(b) == seq![m] + spec_archive(rem));
                assert(spec_archive(b).skip(1) =~= spec_archive(rem));
            },
            None => {},
        }
    }
}

} // verus!
