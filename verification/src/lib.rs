//! A decoder for cpio archives.
//!
//! A cpio archive is a byte buffer holding a concatenation of file-entry
//! records: a header, a file name, and the raw file content, with
//! format-specific padding in between.  Three incompatible on-disk header
//! encodings exist (legacy binary, portable ASCII octal, and new ASCII / CRC
//! hex); the decoder detects the format of each record from its magic bytes
//! and parses it bit-exactly, without copying the underlying bytes and
//! without performing any I/O.

use vstd::prelude::*;

pub mod cursor;
pub mod entry;
pub mod format;
pub mod laws;
pub mod mode;

pub use entry::Entry;
pub use mode::Mode;

use format::spec_archive;
use format::spec_parse_entry;

verus! {

/// A lazy pull over the bytes of an archive that remain to be decoded.
///
/// Each pull attempts to decode one entry from the head of the remaining
/// bytes; on success the remainder shrinks past the decoded record.  Once a
/// pull fails, every later pull fails as well, because the remaining bytes
/// are left unchanged.
pub struct Iter<'a> {
    remaining: &'a [u8],
}

impl<'a> Iter<'a> {
    /// The bytes that remain to be decoded.
    pub closed spec fn spec_remaining(self) -> Seq<u8> {
        self.remaining@
    }

    /// Starts a fresh pass over an archive.
    pub fn new(binary: &'a [u8]) -> (r: Self)
        ensures
            r.spec_remaining() == binary@,
    {
        Self { remaining: binary }
    }

    /// Decodes the next entry, or reports that the sequence has ended:
    /// either cleanly (empty remainder or trailer record) or because no
    /// format can decode the head of the remaining bytes.
    pub fn next(&mut self) -> (r: Option<Entry<'a>>)
        ensures
            match r {
                Some(e) => {
                    &&& old(self).spec_remaining().len() > 0
                    &&& spec_parse_entry(old(self).spec_remaining()) matches Some((m, rem))
                        && entry::entry_matches(e, m)
                        && final (self).spec_remaining() == rem
                },
                None => {
                    &&& old(self).spec_remaining().len() == 0 || spec_parse_entry(
                        old(self).spec_remaining(),
                    ) is None
                    &&& *final(self) == *old(self)
                },
            },
    {
        if self.remaining.len() == 0 {
            None
        } else {
            match Entry::new(self.remaining) {
                Some((e, rest)) => {
                    self.remaining = rest;
                    Some(e)
                },
                None => None,
            }
        }
    }
}

/// Decodes every entry of the given cpio archive, in byte order.
///
/// Decoding stops at the first record that no format can decode, or at a
/// record named `TRAILER!!!` (the end-of-archive sentinel, which is not
/// returned).  No distinction between the two is reported.
pub fn iter_files<'a>(cpio_binary: &'a [u8]) -> (r: Vec<Entry<'a>>)
    ensures
        r@.len() == spec_archive(cpio_binary@).len(),
        forall|i: int|
            0 <= i < r@.len() ==> entry::entry_matches(r@[i], spec_archive(cpio_binary@)[i]),
{
    let mut it = Iter::new(cpio_binary);
    let mut out: Vec<Entry<'a>> = Vec::new();
    loop
        invariant_except_break
            out@.len() + spec_archive(it.spec_remaining()).len() == spec_archive(
                cpio_binary@,
            ).len(),
            spec_archive(cpio_binary@).skip(out@.len() as int) == spec_archive(
                it.spec_remaining(),
            ),
            forall|i: int|
                0 <= i < out@.len() ==> entry::entry_matches(
                    out@[i],
                    spec_archive(cpio_binary@)[i],
                ),
        ensures
            out@.len() == spec_archive(cpio_binary@).len(),
            forall|i: int|
                0 <= i < out@.len() ==> entry::entry_matches(
                    out@[i],
                    spec_archive(cpio_binary@)[i],
                ),
        decreases it.spec_remaining().len(),
    {
        let ghost rem_pre = it.spec_remaining();
        let ghost n_pre = out@.len() as int;
        match it.next() {
            Some(e) => {
                proof {
                    format::lemma_parse_entry_consumes(rem_pre);
                    format::lemma_archive_unfold(rem_pre);
                    assert(spec_archive(cpio_binary@)[n_pre] == spec_archive(rem_pre)[0]);
                }
                out.push(e);
                proof {
                    assert(spec_archive(cpio_binary@).skip(n_pre + 1) =~= spec_archive(
                        rem_pre,
                    ).skip(1));
                }
            },
            None => {
                proof {
                    if rem_pre.len() > 0 {
                        format::lemma_archive_unfold(rem_pre);
                    }
                    assert(spec_archive(it.spec_remaining()).len() == 0);
                    assert(spec_archive(cpio_binary@).skip(out@.len() as int) =~= Seq::<
                        format::SpecEntry,
                    >::empty());
                }
                break ;
            },
        }
    }
    out
}

} // verus!
