//! The decoded view of one archive record, and the three format decoders.
//!
//! Each decoder receives the full remaining buffer and either decodes one
//! record of its format — returning the entry together with the bytes that
//! follow the record — or declines.  Every decoder is verified against the
//! corresponding specification function in [`crate::format`].

use vstd::prelude::*;
use vstd::slice::slice_index_get;
use vstd::utf8::decode_utf8;
use vstd::utf8::encode_utf8;
use vstd::utf8::valid_utf8;

use crate::cursor::ByteArray;
use crate::cursor::Endianness;
use crate::format::checksum_of;
use crate::format::is_trailer;
use crate::format::spec_first_success;
use crate::format::spec_new_ascii;
use crate::format::spec_old_binary;
use crate::format::spec_parse_entry;
use crate::format::spec_portable_ascii;
use crate::format::trailer_name;
use crate::format::SpecEntry;
use crate::mode::Mode;
use crate::mode::SYMBOLIK_LINK;

verus! {

/// An entry of a cpio archive: numeric metadata plus the name and raw
/// content, borrowed from the archive buffer.
#[derive(Copy, Clone, Debug, PartialEq, Eq, PartialOrd, Ord, Hash)]
pub struct Entry<'a> {
    dev: Option<u32>,
    devmajor: Option<u32>,
    devminor: Option<u32>,
    ino: u32,
    mode: Mode,
    uid: u32,
    gid: u32,
    nlink: u32,
    rdev: Option<u32>,
    rdevmajor: Option<u32>,
    rdevminor: Option<u32>,
    mtime: u64,
    name: &'a str,
    file: &'a [u8],
}

/// True when the decoded entry `e` carries exactly the values that the
/// model entry `m` prescribes: equal metadata, a name that decodes the
/// model's name bytes, and the same content bytes.
pub open spec fn entry_matches(e: Entry, m: SpecEntry) -> bool {
    &&& e.spec_dev() == m.dev
    &&& e.spec_devmajor() == m.devmajor
    &&& e.spec_devminor() == m.devminor
    &&& e.spec_ino() == m.ino
    &&& e.spec_mode().spec_bits() == m.mode
    &&& e.spec_uid() == m.uid
    &&& e.spec_gid() == m.gid
    &&& e.spec_nlink() == m.nlink
    &&& e.spec_rdev() == m.rdev
    &&& e.spec_rdevmajor() == m.rdevmajor
    &&& e.spec_rdevminor() == m.rdevminor
    &&& e.spec_mtime() == m.mtime
    &&& valid_utf8(m.name)
    &&& e.spec_name() == decode_utf8(m.name)
    &&& e.spec_file() == m.file
}

/// True when the string `name` spells the end-of-archive sentinel.
fn is_trailer_name(name: &str) -> (r: bool)
    ensures
        r == is_trailer(encode_utf8(name@)),
{
    let bs = name.as_bytes();
    if bs.len() != 10 {
        proof {
            assert(encode_utf8(name@) != trailer_name());
        }
        return false;
    }
    let r = *slice_index_get(bs, 0) == 0x54 && *slice_index_get(bs, 1) == 0x52 && *slice_index_get(
        bs,
        2,
    ) == 0x41 && *slice_index_get(bs, 3) == 0x49 && *slice_index_get(bs, 4) == 0x4c
        && *slice_index_get(bs, 5) == 0x45 && *slice_index_get(bs, 6) == 0x52 && *slice_index_get(
        bs,
        7,
    ) == 0x21 && *slice_index_get(bs, 8) == 0x21 && *slice_index_get(bs, 9) == 0x21;
    proof {
        if r {
            assert(encode_utf8(name@) =~= trailer_name());
        } else {
            assert(encode_utf8(name@) != trailer_name());
        }
    }
    r
}

/// Sums the content bytes as 32-bit values, wrapping on overflow.
fn content_checksum(file: &[u8]) -> (r: u32)
    ensures
        r == checksum_of(file@),
{
    let n = file.len();
    let mut acc: u32 = 0;
    let mut i: usize = 0;
    while i < n
        invariant
            0 <= i <= n,
            n == file@.len(),
            acc == checksum_of(file@.take(i as int)),
        decreases n - i,
    {
        let b = *slice_index_get(file, i);
        proof {
            assert(file@.take(i + 1).drop_last() =~= file@.take(i as int));
        }
        acc = acc.wrapping_add(b as u32);
        i = i + 1;
    }
    proof {
        assert(file@.take(n as int) =~= file@);
    }
    acc
}

impl<'a> Entry<'a> {
    /// The combined device number field.
    pub closed spec fn spec_dev(self) -> Option<u32> {
        self.dev
    }

    /// The device major number field.
    pub closed spec fn spec_devmajor(self) -> Option<u32> {
        self.devmajor
    }

    /// The device minor number field.
    pub closed spec fn spec_devminor(self) -> Option<u32> {
        self.devminor
    }

    /// The inode number field.
    pub closed spec fn spec_ino(self) -> u32 {
        self.ino
    }

    /// The mode word.
    pub closed spec fn spec_mode(self) -> Mode {
        self.mode
    }

    /// The owner user id field.
    pub closed spec fn spec_uid(self) -> u32 {
        self.uid
    }

    /// The owner group id field.
    pub closed spec fn spec_gid(self) -> u32 {
        self.gid
    }

    /// The link count field.
    pub closed spec fn spec_nlink(self) -> u32 {
        self.nlink
    }

    /// The combined special-file device number field.
    pub closed spec fn spec_rdev(self) -> Option<u32> {
        self.rdev
    }

    /// The special-file device major number field.
    pub closed spec fn spec_rdevmajor(self) -> Option<u32> {
        self.rdevmajor
    }

    /// The special-file device minor number field.
    pub closed spec fn spec_rdevminor(self) -> Option<u32> {
        self.rdevminor
    }

    /// The modification time field.
    pub closed spec fn spec_mtime(self) -> u64 {
        self.mtime
    }

    /// The characters of the file name.
    pub closed spec fn spec_name(self) -> Seq<char> {
        self.name@
    }

    /// The raw content bytes.
    pub closed spec fn spec_file(self) -> Seq<u8> {
        self.file@
    }

    /// Returns the device number of the device which contained the file.
    ///
    /// This method returns `None` if the entry format is either New ASCII
    /// Format or New CRC Format.  For these formats, use
    /// [`Entry::devmajor`] and [`Entry::devminor`].
    pub fn dev(&self) -> (r: Option<u32>)
        ensures
            r == self.spec_dev(),
    {
        self.dev
    }

    /// Returns the major number of the device which contained the file.
    ///
    /// This method returns `None` if the entry format is either Old Binary
    /// Format or Portable ASCII Format.  For these formats, use
    /// [`Entry::dev`].
    pub fn devmajor(&self) -> (r: Option<u32>)
        ensures
            r == self.spec_devmajor(),
    {
        self.devmajor
    }

    /// Returns the minor number of the device which contained the file.
    ///
    /// This method returns `None` if the entry format is either Old Binary
    /// Format or Portable ASCII Format.  For these formats, use
    /// [`Entry::dev`].
    pub fn devminor(&self) -> (r: Option<u32>)
        ensures
            r == self.spec_devminor(),
    {
        self.devminor
    }

    /// Returns the inode number of the file.
    pub fn ino(&self) -> (r: u32)
        ensures
            r == self.spec_ino(),
    {
        self.ino
    }

    /// Returns the [`Mode`] value of the file, which contains the file's
    /// permission information and file type.
    pub fn mode(&self) -> (r: Mode)
        ensures
            r == self.spec_mode(),
    {
        self.mode
    }

    /// Returns the user id of the owner of the file.
    pub fn uid(&self) -> (r: u32)
        ensures
            r == self.spec_uid(),
    {
        self.uid
    }

    /// Returns the group id of the owner of the file.
    pub fn gid(&self) -> (r: u32)
        ensures
            r == self.spec_gid(),
    {
        self.gid
    }

    /// Returns the number of links to this file.
    pub fn nlink(&self) -> (r: u32)
        ensures
            r == self.spec_nlink(),
    {
        self.nlink
    }

    /// Returns the associated device number if the entry is a block or
    /// character special device.  For the other types of entries, the
    /// caller should not use this method.
    ///
    /// This method returns `None` if the entry format is either New ASCII
    /// Format or New CRC Format.  For these formats, use
    /// [`Entry::rdevmajor`] and [`Entry::rdevminor`].
    pub fn rdev(&self) -> (r: Option<u32>)
        ensures
            r == self.spec_rdev(),
    {
        self.rdev
    }

    /// Returns the associated device major number if the entry is a block
    /// or character special device.  For the other types of entries, the
    /// caller should not use this method.
    ///
    /// This method returns `None` if the entry format is either Old Binary
    /// Format or Portable ASCII Format.  For these formats, use
    /// [`Entry::rdev`].
    pub fn rdevmajor(&self) -> (r: Option<u32>)
        ensures
            r == self.spec_rdevmajor(),
    {
        self.rdevmajor
    }

    /// Returns the associated device minor number if the entry is a block
    /// or character special device.  For the other types of entries, the
    /// caller should not use this method.
    ///
    /// This method returns `None` if the entry format is either Old Binary
    /// Format or Portable ASCII Format.  For these formats, use
    /// [`Entry::rdev`].
    pub fn rdevminor(&self) -> (r: Option<u32>)
        ensures
            r == self.spec_rdevminor(),
    {
        self.rdevminor
    }

    /// Returns the modification time of this file.
    pub fn mtime(&self) -> (r: u64)
        ensures
            r == self.spec_mtime(),
    {
        self.mtime
    }

    /// Returns the filename.
    pub fn name(&self) -> (r: &'a str)
        ensures
            r@ == self.spec_name(),
    {
        self.name
    }

    /// Returns the content of this file.
    ///
    /// This method returns the path to the original file if the file is a
    /// symbolic link.  For the New ASCII Format and New CRC Format, this
    /// method returns an empty slice if the file is a hard link and is not
    /// the last entry of the multiple duplicate files.
    pub fn file(&self) -> (r: &'a [u8])
        ensures
            r@ == self.spec_file(),
    {
        self.file
    }

    /// Decodes one legacy binary record from the head of `binary`.
    pub fn interpret_as_old_binary(binary: &'a [u8]) -> (r: Option<(Self, &'a [u8])>)
        ensures
            match spec_old_binary(binary@) {
                Some((m, rem)) => r matches Some((e, rest)) && entry_matches(e, m) && rest@ == rem,
                None => r is None,
            },
    {
        let mut byte_array = ByteArray::new(binary);

        let b0 = match byte_array.proceed_byte() {
            Some(x) => x,
            None => {
                return None;
            },
        };
        let b1 = match byte_array.proceed_byte() {
            Some(x) => x,
            None => {
                return None;
            },
        };

        let magic: u16 = 0o070_707;
        let endianness = if Endianness::Big.u8_array_to_u16([b0, b1]) == magic {
            Endianness::Big
        } else if Endianness::Little.u8_array_to_u16([b0, b1]) == magic {
            Endianness::Little
        } else {
            return None;
        };

        let dev = byte_array.proceed_u16(endianness)?;
        let ino = byte_array.proceed_u16(endianness)?;
        let mode_bits = byte_array.proceed_u16(endianness)?;
        let u_id = byte_array.proceed_u16(endianness)?;
        let g_id = byte_array.proceed_u16(endianness)?;
        let nlink = byte_array.proceed_u16(endianness)?;
        let r_dev = byte_array.proceed_u16(endianness)?;
        let mtime_most: u64 = byte_array.proceed_u16(endianness)? as u64;
        let mtime_least: u64 = byte_array.proceed_u16(endianness)? as u64;
        let namesize = byte_array.proceed_u16(endianness)?;
        let filesize_most: u32 = byte_array.proceed_u16(endianness)? as u32;
        let filesize_least: u32 = byte_array.proceed_u16(endianness)? as u32;

        let filesize = filesize_most * 0x10000 + filesize_least;

        if namesize == 0 {
            return None;
        }
        let name = match byte_array.proceed_str((namesize - 1) as usize) {
            Some(s) => s,
            None => {
                return None;
            },
        };

        // Past the terminating null character, plus one pad byte when the
        // name field is odd-sized.
        byte_array.skip_bytes((namesize % 2 + 1) as usize);

        let file = match byte_array.proceed_bytes(filesize as usize) {
            Some(f) => f,
            None => {
                return None;
            },
        };

        let mode = match Mode::from_bits(mode_bits as u32) {
            Some(m) => m,
            None => {
                return None;
            },
        };

        let old_binary = Self {
            dev: Some(dev as u32),
            devmajor: None,
            devminor: None,
            ino: ino as u32,
            mode,
            uid: u_id as u32,
            gid: g_id as u32,
            nlink: nlink as u32,
            rdev: Some(r_dev as u32),
            rdevmajor: None,
            rdevminor: None,
            mtime: mtime_most * 0x10000 + mtime_least,
            name,
            file,
        };

        // One trailing pad byte when the content size is odd.
        byte_array.skip_bytes((filesize % 2) as usize);

        Some((old_binary, byte_array.into_inner()))
    }

    /// Decodes one portable ASCII record from the head of `binary`.
    pub fn interpret_as_portable_ascii(binary: &'a [u8]) -> (r: Option<(Self, &'a [u8])>)
        ensures
            match spec_portable_ascii(binary@) {
                Some((m, rem)) => r matches Some((e, rest)) && entry_matches(e, m) && rest@ == rem,
                None => r is None,
            },
    {
        let mut byte_array = ByteArray::new(binary);

        let magic = match byte_array.proceed_bytes(6) {
            Some(m) => m,
            None => {
                return None;
            },
        };
        let magic_ok = *slice_index_get(magic, 0) == 0x30 && *slice_index_get(magic, 1) == 0x37
            && *slice_index_get(magic, 2) == 0x30 && *slice_index_get(magic, 3) == 0x37
            && *slice_index_get(magic, 4) == 0x30 && *slice_index_get(magic, 5) == 0x37;
        if !magic_ok {
            return None;
        }

        let dev = byte_array.proceed_str_into_octal_u32(6)?;
        let ino = byte_array.proceed_str_into_octal_u32(6)?;
        let mode_bits = byte_array.proceed_str_into_octal_u32(6)?;
        let u_id = byte_array.proceed_str_into_octal_u32(6)?;
        let g_id = byte_array.proceed_str_into_octal_u32(6)?;
        let nlink = byte_array.proceed_str_into_octal_u32(6)?;
        let r_dev = byte_array.proceed_str_into_octal_u32(6)?;
        let mtime = byte_array.proceed_str_into_octal_u64(11)?;
        let namesize = byte_array.proceed_str_into_octal_u32(6)?;
        let filesize = byte_array.proceed_str_into_octal_u64(11)?;

        if namesize == 0 {
            return None;
        }
        let name = match byte_array.proceed_str((namesize - 1) as usize) {
            Some(s) => s,
            None => {
                return None;
            },
        };

        // Past the terminating null character.
        byte_array.skip_bytes(1);

        if filesize > (byte_array.remaining_len() as u64) {
            return None;
        }
        let file = match byte_array.proceed_bytes(filesize as usize) {
            Some(f) => f,
            None => {
                return None;
            },
        };

        let mode = match Mode::from_bits(mode_bits) {
            Some(m) => m,
            None => {
                return None;
            },
        };

        let portable_ascii = Self {
            dev: Some(dev),
            devmajor: None,
            devminor: None,
            ino,
            mode,
            uid: u_id,
            gid: g_id,
            nlink,
            rdev: Some(r_dev),
            rdevmajor: None,
            rdevminor: None,
            mtime,
            name,
            file,
        };

        Some((portable_ascii, byte_array.into_inner()))
    }

    /// Decodes one new ASCII or new CRC record from the head of `binary`.
    pub fn interpret_as_new_ascii_or_crc(binary: &'a [u8]) -> (r: Option<(Self, &'a [u8])>)
        ensures
            match spec_new_ascii(binary@) {
                Some((m, rem)) => r matches Some((e, rest)) && entry_matches(e, m) && rest@ == rem,
                None => r is None,
            },
    {
        let mut byte_array = ByteArray::new(binary);

        let magic = match byte_array.proceed_bytes(6) {
            Some(m) => m,
            None => {
                return None;
            },
        };
        let magic_prefix_ok = *slice_index_get(magic, 0) == 0x30 && *slice_index_get(magic, 1)
            == 0x37 && *slice_index_get(magic, 2) == 0x30 && *slice_index_get(magic, 3) == 0x37
            && *slice_index_get(magic, 4) == 0x30;
        let is_crc = magic_prefix_ok && *slice_index_get(magic, 5) == 0x32;
        let is_plain = magic_prefix_ok && *slice_index_get(magic, 5) == 0x31;
        if !is_crc && !is_plain {
            return None;
        }

        let ino = byte_array.proceed_str_into_hex()?;
        let mode_bits = byte_array.proceed_str_into_hex()?;
        let u_id = byte_array.proceed_str_into_hex()?;
        let g_id = byte_array.proceed_str_into_hex()?;
        let nlink = byte_array.proceed_str_into_hex()?;
        let mtime: u64 = byte_array.proceed_str_into_hex()? as u64;
        let filesize = byte_array.proceed_str_into_hex()?;
        let devmajor = byte_array.proceed_str_into_hex()?;
        let devminor = byte_array.proceed_str_into_hex()?;
        let r_devmajor = byte_array.proceed_str_into_hex()?;
        let r_devminor = byte_array.proceed_str_into_hex()?;
        let namesize = byte_array.proceed_str_into_hex()?;
        let check = match byte_array.proceed_str_into_hex() {
            Some(v) => v,
            None => {
                proof {
                    assert(crate::format::newc_field_bytes(binary@, 12) == binary@.subrange(
                        102,
                        110,
                    ));
                }
                return None;
            },
        };

        proof {
            assert forall|i: int| 0 <= i < 13 implies crate::cursor::all_hex(
                #[trigger] crate::format::newc_field_bytes(binary@, i),
            ) by {
                assert(crate::format::newc_field_bytes(binary@, i) == binary@.subrange(
                    6 + 8 * i,
                    14 + 8 * i,
                ));
            }
        }

        if namesize == 0 {
            return None;
        }
        let name = match byte_array.proceed_str((namesize - 1) as usize) {
            Some(s) => s,
            None => {
                return None;
            },
        };

        // Past the terminating null character.
        byte_array.skip_bytes(1);

        // Content starts at the next 4-byte boundary of the record.
        byte_array.skip_to_next_multiple_of_four();

        let file = match byte_array.proceed_bytes(filesize as usize) {
            Some(f) => f,
            None => {
                return None;
            },
        };

        let mode = match Mode::from_bits(mode_bits) {
            Some(m) => m,
            None => {
                return None;
            },
        };

        let checksum = content_checksum(file);

        // The checksummed sub-variant verifies the content sum, but not for
        // symbolic links, whose checksum field reference tooling ignores.
        if is_crc && !mode.contains(SYMBOLIK_LINK) && checksum != check {
            return None;
        }

        let new_ascii = Self {
            ino,
            mode,
            uid: u_id,
            gid: g_id,
            nlink,
            mtime,
            dev: None,
            devmajor: Some(devmajor),
            devminor: Some(devminor),
            rdev: None,
            rdevmajor: Some(r_devmajor),
            rdevminor: Some(r_devminor),
            name,
            file,
        };

        // The record ends at the next 4-byte boundary.
        byte_array.skip_to_next_multiple_of_four();

        Some((new_ascii, byte_array.into_inner()))
    }

    /// Tries the three formats against the head of `binary` in fixed order
    /// and keeps the first success, unless the decoded record is the
    /// end-of-archive sentinel.
    pub fn new(binary: &'a [u8]) -> (r: Option<(Self, &'a [u8])>)
        ensures
            match spec_parse_entry(binary@) {
                Some((m, rem)) => r matches Some((e, rest)) && entry_matches(e, m) && rest@ == rem,
                None => r is None,
            },
    {
        let attempt = match Self::interpret_as_old_binary(binary) {
            Some(p) => Some(p),
            None => match Self::interpret_as_portable_ascii(binary) {
                Some(p) => Some(p),
                None => Self::interpret_as_new_ascii_or_crc(binary),
            },
        };
        match attempt {
            Some((entry, rest)) => {
                proof {
                    match spec_first_success(binary@) {
                        Some((m, rem)) => {
                            vstd::utf8::decode_utf8_encode_utf8(m.name);
                        },
                        None => {},
                    }
                }
                if is_trailer_name(entry.name) {
                    None
                } else {
                    Some((entry, rest))
                }
            },
            None => None,
        }
    }
}

} // verus!
