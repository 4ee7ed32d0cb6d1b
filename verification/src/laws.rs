//! Proved properties of the decoding protocol as a whole.
//!
//! Each proof function here states a guarantee that relates several parts
//! of the decoder; the guarantees of the individual functions are stated on
//! the functions themselves.

use vstd::prelude::*;

use crate::format::is_trailer;
use crate::format::newc_magic_ok;
use crate::format::old_binary_endianness;
use crate::format::portable_magic_ok;
use crate::format::spec_archive;
use crate::format::spec_first_success;
use crate::format::spec_new_ascii;
use crate::format::spec_old_binary;
use crate::format::spec_parse_entry;
use crate::format::spec_portable_ascii;
use crate::format::SpecEntry;
use vstd::math::min;

verus! {

/// True when `part` occurs as a contiguous sub-range of `whole`.
pub open spec fn within(part: Seq<u8>, whole: Seq<u8>) -> bool {
    exists|lo: int|
        0 <= lo && lo + part.len() <= whole.len() && part == #[trigger] whole.subrange(
            lo,
            lo + part.len() as int,
        )
}

/// A sub-range of a suffix of `whole` is a sub-range of `whole`.
proof fn lemma_within_skip(part: Seq<u8>, whole: Seq<u8>, k: int)
    requires
        0 <= k <= whole.len(),
        within(part, whole.skip(k)),
    ensures
        within(part, whole),
{
    let lo = choose|lo: int|
        0 <= lo && lo + part.len() <= whole.skip(k).len() && part == #[trigger] whole.skip(
            k,
        ).subrange(lo, lo + part.len() as int);
    assert(whole.subrange(k + lo, k + lo + part.len() as int) =~= whole.skip(k).subrange(
        lo,
        lo + part.len() as int,
    ));
    assert(part == whole.subrange(k + lo, k + lo + part.len() as int));
}

/// One decoded record only reads bytes that lie inside the buffer: its name
/// and its content occur as sub-ranges of the buffer, and the remainder is
/// a suffix of the buffer.
proof fn lemma_parse_entry_in_bounds(b: Seq<u8>)
    ensures
        spec_parse_entry(b) matches Some((m, rem)) ==> within(m.name, b) && within(m.file, b)
            && exists|k: int| 0 <= k <= b.len() && rem == #[trigger] b.skip(k),
{
    if spec_old_binary(b) is Some {
        match old_binary_endianness(b) {
            Some(e) => {
                let namesize = crate::format::u16_field(b, 20, e) as int;
                let filesize = crate::format::u16_field(b, 22, e) * 0x10000
                    + crate::format::u16_field(b, 24, e);
                let fstart = min(26 + namesize + (namesize % 2), b.len() as int);
                let endpos = min(fstart + filesize + (filesize % 2), b.len() as int);
                match spec_old_binary(b) {
                    Some((m, rem)) => {
                        assert(m.name == b.subrange(26, 26 + m.name.len() as int));
                        assert(m.file == b.subrange(fstart, fstart + m.file.len() as int));
                        assert(rem == b.skip(endpos));
                    },
                    None => {},
                }
            },
            None => {},
        }
    } else if spec_portable_ascii(b) is Some {
        let namesize = crate::cursor::octal_value(b.subrange(59, 65));
        let filesize = crate::cursor::octal_value(b.subrange(65, 76));
        crate::cursor::lemma_octal_value_bound(b.subrange(59, 65));
        crate::cursor::lemma_octal_value_bound(b.subrange(65, 76));
        let fstart = min(76 + namesize, b.len() as int);
        match spec_portable_ascii(b) {
            Some((m, rem)) => {
                assert(m.name == b.subrange(76, 76 + m.name.len() as int));
                assert(m.file == b.subrange(fstart, fstart + m.file.len() as int));
                assert(rem == b.skip(fstart + filesize));
            },
            None => {},
        }
    } else if spec_new_ascii(b) is Some {
        let namesize = crate::format::newc_namesize(b);
        let filesize = crate::format::newc_filesize(b);
        let cstart = crate::format::newc_content_start(b);
        let endpos = min(crate::format::align4(cstart + filesize), b.len() as int);
        match spec_new_ascii(b) {
            Some((m, rem)) => {
                assert(m.name == b.subrange(110, 110 + m.name.len() as int));
                assert(m.file == b.subrange(cstart, cstart + m.file.len() as int));
                assert(rem == b.skip(endpos));
            },
            None => {},
        }
    }
}

/// Decoding never reads out of bounds: whatever prefix of an archive a
/// buffer holds — in particular an arbitrarily truncated one — every entry
/// produced from it takes its name and its content entirely from inside
/// the buffer.
pub proof fn lemma_archive_entries_in_bounds(b: Seq<u8>)
    ensures
        forall|i: int|
            0 <= i < spec_archive(b).len() ==> within((#[trigger] spec_archive(b)[i]).name, b)
                && within(spec_archive(b)[i].file, b),
    decreases b.len(),
{
    crate::format::lemma_archive_unfold(b);
    lemma_parse_entry_in_bounds(b);
    if b.len() > 0 {
        match spec_parse_entry(b) {
            Some((m, rem)) => {
                lemma_archive_entries_in_bounds(rem);
                let k = choose|k: int| 0 <= k <= b.len() && rem == #[trigger] b.skip(k);
                assert forall|i: int|
                    0 <= i < spec_archive(b).len() implies within(
                    (#[trigger] spec_archive(b)[i]).name,
                    b,
                ) && within(spec_archive(b)[i].file, b) by {
                    if i == 0 {
                        assert(spec_archive(b)[0] == m);
                    } else {
                        assert(spec_archive(b)[i] == spec_archive(b).skip(1)[i - 1]);
                        assert(spec_archive(b)[i] == spec_archive(rem)[i - 1]);
                        lemma_within_skip(spec_archive(rem)[i - 1].name, b, k);
                        lemma_within_skip(spec_archive(rem)[i - 1].file, b, k);
                    }
                }
            },
            None => {},
        }
    }
}

/// Each format is recognised purely by its magic bytes, and the three
/// magics are pairwise incompatible: a buffer that carries one format's
/// magic can never decode as either other format.
pub proof fn lemma_format_detection(b: Seq<u8>)
    ensures
        spec_old_binary(b) is Some ==> old_binary_endianness(b) is Some,
        spec_portable_ascii(b) is Some ==> portable_magic_ok(b),
        spec_new_ascii(b) is Some ==> newc_magic_ok(b),
        old_binary_endianness(b) is Some ==> spec_portable_ascii(b) is None && spec_new_ascii(
            b,
        ) is None,
        portable_magic_ok(b) ==> spec_old_binary(b) is None && spec_new_ascii(b) is None,
        newc_magic_ok(b) ==> spec_old_binary(b) is None && spec_portable_ascii(b) is None,
{
}

/// The two device representations are mutually exclusive in every decoded
/// entry: the combined `dev`/`rdev` numbers are present exactly when the
/// split major/minor pairs are absent, and which of the two is present is
/// fixed by the format that decoded the entry (combined for the two legacy
/// formats, split for the new formats).
pub proof fn lemma_device_fields_exclusive(b: Seq<u8>)
    ensures
        forall|i: int|
            0 <= i < spec_archive(b).len() ==> {
                let m = #[trigger] spec_archive(b)[i];
                &&& (m.dev is Some <==> m.devmajor is None)
                &&& (m.dev is Some <==> m.devminor is None)
                &&& (m.rdev is Some <==> m.rdevmajor is None)
                &&& (m.rdev is Some <==> m.rdevminor is None)
                &&& (m.dev is Some <==> m.rdev is Some)
                &&& (old_binary_endianness(b) is Some || portable_magic_ok(b)) && i == 0
                    ==> m.dev is Some
                &&& newc_magic_ok(b) && i == 0 ==> m.devmajor is Some
            },
    decreases b.len(),
{
    crate::format::lemma_archive_unfold(b);
    lemma_format_detection(b);
    if b.len() > 0 {
        match spec_parse_entry(b) {
            Some((m, rem)) => {
                lemma_device_fields_exclusive(rem);
                assert forall|i: int| 0 < i < spec_archive(b).len() implies spec_archive(b)[i]
                    == spec_archive(rem)[i - 1] by {
                    assert(spec_archive(b)[i] == spec_archive(b).skip(1)[i - 1]);
                }
            },
            None => {},
        }
    }
}

/// The plain integer sum of a sequence of bytes.
pub open spec fn byte_sum(s: Seq<u8>) -> int
    decreases s.len(),
{
    if s.len() == 0 {
        0
    } else {
        byte_sum(s.drop_last()) + s.last()
    }
}

/// The wrapping content checksum is the byte sum reduced modulo `2^32`.
proof fn lemma_checksum_is_sum_mod(s: Seq<u8>)
    ensures
        crate::format::checksum_of(s) == byte_sum(s) % 0x1_0000_0000,
        byte_sum(s) >= 0,
    decreases s.len(),
{
    let m: int = 0x1_0000_0000;
    if s.len() > 0 {
        lemma_checksum_is_sum_mod(s.drop_last());
        let a = byte_sum(s.drop_last());
        let c = s.last() as int;
        vstd::arithmetic::div_mod::lemma_fundamental_div_mod(a, m);
        let q = a / m;
        let r = a % m;
        if r + c < m {
            vstd::arithmetic::div_mod::lemma_mod_multiples_vanish(q, r + c, m);
            vstd::arithmetic::div_mod::lemma_small_mod((r + c) as nat, m as nat);
        } else {
            vstd::arithmetic::div_mod::lemma_mod_multiples_vanish(q + 1, r + c - m, m);
            vstd::arithmetic::div_mod::lemma_small_mod((r + c - m) as nat, m as nat);
        }
    }
}

/// Two byte sequences that differ in exactly one position have byte sums
/// that differ by exactly the difference of the two bytes there.
proof fn lemma_byte_sum_one_flip(s1: Seq<u8>, s2: Seq<u8>, k: int)
    requires
        s1.len() == s2.len(),
        0 <= k < s1.len(),
        forall|i: int| 0 <= i < s1.len() && i != k ==> s1[i] == s2[i],
    ensures
        byte_sum(s1) - byte_sum(s2) == s1[k] - s2[k],
    decreases s1.len(),
{
    if k == s1.len() - 1 {
        assert(s1.drop_last() =~= s2.drop_last());
    } else {
        assert(forall|i: int|
            0 <= i < s1.drop_last().len() && i != k ==> s1.drop_last()[i] == #[trigger] s2.drop_last()[i]);
        lemma_byte_sum_one_flip(s1.drop_last(), s2.drop_last(), k);
    }
}

/// Flipping exactly one byte always changes the wrapping content checksum:
/// the sums differ by less than one byte's range, which the modulus cannot
/// absorb.
pub proof fn lemma_checksum_flip(s1: Seq<u8>, s2: Seq<u8>, k: int)
    requires
        s1.len() == s2.len(),
        0 <= k < s1.len(),
        forall|i: int| 0 <= i < s1.len() && i != k ==> s1[i] == s2[i],
        s1[k] != s2[k],
    ensures
        crate::format::checksum_of(s1) != crate::format::checksum_of(s2),
{
    let m: int = 0x1_0000_0000;
    lemma_checksum_is_sum_mod(s1);
    lemma_checksum_is_sum_mod(s2);
    lemma_byte_sum_one_flip(s1, s2, k);
    let a1 = byte_sum(s1);
    let a2 = byte_sum(s2);
    if a1 % m == a2 % m {
        vstd::arithmetic::div_mod::lemma_fundamental_div_mod(a1, m);
        vstd::arithmetic::div_mod::lemma_fundamental_div_mod(a2, m);
        let q1 = a1 / m;
        let q2 = a2 / m;
        assert(a1 - a2 == m * (q1 - q2));
        assert(-256 < a1 - a2 < 256 && a1 - a2 != 0);
        assert(m * (q1 - q2) == 0 || m * (q1 - q2) >= m || m * (q1 - q2) <= -m)
            by (nonlinear_arith);
        assert(false);
    }
}

/// Flipping any single content byte of a record in the checksummed new
/// format makes that record's decode fail — unless the record is a
/// symbolic link (whose checksum is not verified) or the magic is the
/// plain sub-variant, in which cases the record still decodes.
pub proof fn lemma_crc_content_flip(b1: Seq<u8>, b2: Seq<u8>, k: int)
    requires
        spec_new_ascii(b1) is Some,
        b2.len() == b1.len(),
        forall|i: int| 0 <= i < b1.len() && i != k ==> b1[i] == b2[i],
        crate::format::newc_content_start(b1) <= k < crate::format::newc_content_start(b1)
            + crate::format::newc_filesize(b1),
        b1[k] != b2[k],
    ensures
        crate::format::newc_is_crc(b1) && crate::format::newc_field(b1, 1) & 0o120_000
            != 0o120_000 ==> spec_new_ascii(b2) is None,
        !(crate::format::newc_is_crc(b1) && crate::format::newc_field(b1, 1) & 0o120_000
            != 0o120_000) ==> (spec_new_ascii(b2) matches Some((m2, rem2)) && (spec_new_ascii(
            b1,
        ) matches Some((m1, rem1)) && m1.name == m2.name && m1.mode == m2.mode && m1.ino
            == m2.ino && m1.file.len() == m2.file.len() && rem1.len() == rem2.len())),
{
    let len = b1.len() as int;
    let ns = crate::format::newc_namesize(b1);
    let fs = crate::format::newc_filesize(b1);
    let cs = crate::format::newc_content_start(b1);
    assert(ns >= 1);
    assert(109 + ns <= len);
    assert(fs <= len - cs);
    assert(110 + ns <= len) by {
        if 110 + ns > len {
            assert(cs == len);
        }
    };
    assert(cs >= 110 + ns);
    assert(k >= 110 + ns);

    assert forall|i: int| 0 <= i < 13 implies crate::format::newc_field_bytes(b2, i)
        == #[trigger] crate::format::newc_field_bytes(b1, i) by {
        assert(crate::format::newc_field_bytes(b2, i) =~= crate::format::newc_field_bytes(b1, i));
    }
    assert forall|i: int| 0 <= i < 13 implies crate::cursor::all_hex(
        #[trigger] crate::format::newc_field_bytes(b2, i),
    ) by {
        assert(crate::format::newc_field_bytes(b2, i) =~= crate::format::newc_field_bytes(b1, i));
        assert(crate::cursor::all_hex(crate::format::newc_field_bytes(b1, i)));
    }
    assert(crate::format::newc_magic_ok(b2) && crate::format::newc_is_crc(b2)
        == crate::format::newc_is_crc(b1));
    assert(crate::format::newc_fields_ok(b2));
    assert(crate::format::newc_namesize(b2) == ns);
    assert(crate::format::newc_filesize(b2) == fs);
    assert(b2.subrange(110, 109 + ns) =~= b1.subrange(110, 109 + ns));
    assert(crate::format::newc_content_start(b2) == cs);

    let file1 = b1.subrange(cs, cs + fs);
    let file2 = b2.subrange(cs, cs + fs);
    assert(file1[k - cs] == b1[k] && file2[k - cs] == b2[k]);
    assert(forall|i: int| 0 <= i < fs && i != k - cs ==> file1[i] == #[trigger] file2[i]);
    lemma_checksum_flip(file1, file2, k - cs);
}

/// An entry named `TRAILER!!!` is never yielded, and a record that decodes
/// to that name terminates the sequence even when further bytes follow it.
pub proof fn lemma_trailer_never_yielded(b: Seq<u8>)
    ensures
        forall|i: int|
            0 <= i < spec_archive(b).len() ==> !is_trailer(
                (#[trigger] spec_archive(b)[i]).name,
            ),
        spec_first_success(b) matches Some((m, rem)) && is_trailer(m.name) ==> spec_archive(b)
            == Seq::<SpecEntry>::empty(),
    decreases b.len(),
{
    crate::format::lemma_archive_unfold(b);
    if b.len() > 0 {
        match spec_parse_entry(b) {
            Some((m, rem)) => {
                lemma_trailer_never_yielded(rem);
                assert forall|i: int| 0 < i < spec_archive(b).len() implies spec_archive(b)[i]
                    == spec_archive(rem)[i - 1] by {
                    assert(spec_archive(b)[i] == spec_archive(b).skip(1)[i - 1]);
                }
            },
            None => {},
        }
    }
}

} // verus!
