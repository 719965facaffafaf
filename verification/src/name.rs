//! Names of directory entries: the 8.3 short name of a record, and the long
//! name that the records before it may carry.
//!
//! A long name is stored in records whose attribute byte is `0x0F`, placed
//! before the record of the entry that they name. Each holds thirteen UTF-16
//! code units, a sequence number in the low five bits of its first byte, and
//! a checksum of the entry's short name; the record with the highest number
//! comes first and has bit `0x40` of its first byte set.
//!
//! The long name is used only if the records are consistent: `k` records
//! numbered `k` down to 1, the first one flagged, every checksum equal to
//! that of the short name, and the code units up to the first zero a valid
//! and non-empty UTF-16 string. In every other case the entry is named by its
//! short name.

use vstd::prelude::*;
use crate::util::{le_u16, spec_le_u16};

verus! {

/// `String::push` appends one character: afterwards the string holds the
/// characters that it held before, followed by `ch`. Taken from the
/// documentation of the standard library, not proved.
pub assume_specification[ String::push ](s: &mut String, ch: char)
    ensures
        final(s)@ == old(s)@.push(ch),
;

/// `char::from_u32` gives the character of scalar value `i`, for the values
/// that are Unicode scalar values (all up to `0x10FFFF` but the surrogates
/// `0xD800` to `0xDFFF`), and `None` for any other. Taken from the
/// documentation of the standard library, not proved.
pub assume_specification[ char::from_u32 ](i: u32) -> (r: Option<char>)
    ensures
        r == (if i <= 0xD7FF || 0xE000 <= i <= 0x10FFFF {
            Some(i as char)
        } else {
            None::<char>
        }),
;

/// Length of `field` without the spaces at its end.
pub open spec fn trimmed_len(field: Seq<u8>) -> nat
    decreases field.len(),
{
    if field.len() == 0 {
        0
    } else if field.last() == 0x20 {
        trimmed_len(field.drop_last())
    } else {
        field.len()
    }
}

/// The characters that the bytes stand for, each byte taken as the code point
/// of the same value.
pub open spec fn chars_of_bytes(bytes: Seq<u8>) -> Seq<char> {
    Seq::new(bytes.len(), |i: int| bytes[i] as char)
}

/// The 8.3 name of a directory record: the eight bytes of the base and the
/// three of the extension, each without the spaces at its end, joined by a
/// dot where the extension is not empty. Letters keep their case.
pub open spec fn spec_short_name(record: Seq<u8>) -> Seq<char> {
    let base = record.subrange(0, 8);
    let extension = record.subrange(8, 11);
    let stem = chars_of_bytes(base.take(trimmed_len(base) as int));
    if trimmed_len(extension) == 0 {
        stem
    } else {
        stem + seq!['.'] + chars_of_bytes(extension.take(trimmed_len(extension) as int))
    }
}

/// Length of `field[from..to]` without the spaces at its end.
fn trim(field: &[u8], from: usize, to: usize) -> (len: usize)
    requires
        from <= to <= field.len(),
    ensures
        len == trimmed_len(field@.subrange(from as int, to as int)),
        len <= to - from,
{
    let mut end = to;
    while end > from && field[end - 1] == 0x20
        invariant
            from <= end <= to <= field.len(),
            trimmed_len(field@.subrange(from as int, to as int)) == trimmed_len(
                field@.subrange(from as int, end as int),
            ),
        decreases end,
    {
        assert(field@.subrange(from as int, end as int).drop_last() =~= field@.subrange(
            from as int,
            end - 1,
        ));
        end -= 1;
    }
    end - from
}

/// Appends to `name` the characters of `field[from..from + len]`.
fn push_bytes(name: &mut String, field: &[u8], from: usize, len: usize)
    requires
        from + len <= field.len(),
    ensures
        final(name)@ == old(name)@ + chars_of_bytes(field@.subrange(from as int, from + len)),
{
    let mut i: usize = 0;
    while i < len
        invariant
            i <= len,
            from + len <= field.len(),
            name@ == old(name)@ + chars_of_bytes(field@.subrange(from as int, from + i)),
        decreases len - i,
    {
        name.push(field[from + i] as char);
        assert(chars_of_bytes(field@.subrange(from as int, from + i)).push(
            field@[from + i] as char,
        ) =~= chars_of_bytes(field@.subrange(from as int, from + i + 1)));
        i += 1;
    }
}

/// The 8.3 name of the directory record at the start of `record`.
pub fn short_name(record: &[u8]) -> (name: String)
    requires
        record.len() >= 11,
    ensures
        name@ == spec_short_name(record@),
{
    let base_len = trim(record, 0, 8);
    let extension_len = trim(record, 8, 11);
    let mut name = String::new();
    push_bytes(&mut name, record, 0, base_len);
    assert(record@.subrange(0, base_len as int) =~= record@.subrange(0, 8).take(base_len as int));
    if extension_len > 0 {
        name.push('.');
        push_bytes(&mut name, record, 8, extension_len);
        assert(record@.subrange(8, 8 + extension_len) =~= record@.subrange(8, 11).take(
            extension_len as int,
        ));
    }
    name
}

/// The checksum of the first `n` bytes of a short name: for each byte in
/// turn, the sum so far is rotated right by one bit and the byte is added,
/// modulo 256.
pub open spec fn spec_checksum(short: Seq<u8>, n: nat) -> u8
    decreases n,
{
    if n == 0 {
        0
    } else {
        let sum = spec_checksum(short, (n - 1) as nat) as int;
        (((sum % 2) * 128 + sum / 2 + short[n - 1] as int) % 256) as u8
    }
}

/// The checksum that long-name records hold of the short name in the first
/// eleven bytes of `record`.
pub fn checksum(record: &[u8]) -> (sum: u8)
    requires
        record.len() >= 11,
    ensures
        sum == spec_checksum(record@, 11),
{
    let mut sum: u8 = 0;
    let mut i: usize = 0;
    while i < 11
        invariant
            i <= 11,
            record.len() >= 11,
            sum == spec_checksum(record@, i as nat),
        decreases 11 - i,
    {
        let next: u16 = (sum as u16 % 2) * 128 + sum as u16 / 2 + record[i] as u16;
        sum = (next % 256) as u8;
        i += 1;
    }
    sum
}

/// Byte offset, within a long-name record, of its code unit `t` (0 to 12):
/// five units from byte 1, six from byte 14, two from byte 28.
pub open spec fn unit_offset(t: int) -> int {
    if t < 5 {
        1 + 2 * t
    } else if t < 11 {
        14 + 2 * (t - 5)
    } else {
        28 + 2 * (t - 11)
    }
}

/// The thirteen code units of the long-name record `record`.
pub open spec fn units_of(record: Seq<u8>) -> Seq<u16> {
    Seq::new(13, |t: int| spec_le_u16(record, unit_offset(t)))
}

/// Record `j` of a run of 32-byte records.
pub open spec fn record_at(records: Seq<u8>, j: int) -> Seq<u8> {
    records.subrange(32 * j, 32 * j + 32)
}

/// The code units of the first `k` records of `records`, those of the last
/// record first: the order in which the units spell the name, as the records
/// are stored from the highest sequence number down.
pub open spec fn spec_units(records: Seq<u8>, k: nat) -> Seq<u16>
    decreases k,
{
    if k == 0 {
        Seq::empty()
    } else {
        units_of(record_at(records, k - 1)) + spec_units(records, (k - 1) as nat)
    }
}

/// The units of `units` before its first zero.
pub open spec fn until_nul(units: Seq<u16>) -> Seq<u16>
    decreases units.len(),
{
    if units.len() == 0 || units[0] == 0 {
        Seq::empty()
    } else {
        seq![units[0]] + until_nul(units.skip(1))
    }
}

/// The characters that `units` encode in UTF-16, or `None` if a surrogate
/// stands without its partner.
pub open spec fn spec_decode_utf16(units: Seq<u16>) -> Option<Seq<char>>
    decreases units.len(),
{
    if units.len() == 0 {
        Some(Seq::empty())
    } else if units[0] < 0xD800 || units[0] > 0xDFFF {
        match spec_decode_utf16(units.skip(1)) {
            Some(rest) => Some(seq![units[0] as char] + rest),
            None => None,
        }
    } else if units[0] <= 0xDBFF && units.len() >= 2 && 0xDC00 <= units[1] <= 0xDFFF {
        let scalar = 0x1_0000 + (units[0] - 0xD800) * 0x400 + (units[1] - 0xDC00);
        match spec_decode_utf16(units.skip(2)) {
            Some(rest) => Some(seq![scalar as char] + rest),
            None => None,
        }
    } else {
        None
    }
}

/// Whether the `k` long-name records in `records` are numbered `k` down to 1,
/// only the first is flagged as the last part of the name, and each holds
/// `sum` as its checksum.
pub open spec fn records_consistent(records: Seq<u8>, k: nat, sum: u8) -> bool {
    forall|j: int|
        0 <= j < k ==> {
            let record = #[trigger] record_at(records, j);
            &&& record[0] as int % 32 == k - j
            &&& ((record[0] as int / 64) % 2 == 1) == (j == 0)
            &&& record[13] == sum
        }
}

/// The long name that the `k` records of `records` give to the entry whose
/// short-name record is `short`, or `None` where they give none.
pub open spec fn spec_long_name(records: Seq<u8>, k: nat, short: Seq<u8>) -> Option<Seq<char>> {
    if k == 0 || !records_consistent(records, k, spec_checksum(short, 11)) {
        None
    } else {
        match spec_decode_utf16(until_nul(spec_units(records, k))) {
            Some(name) => if name.len() == 0 {
                None
            } else {
                Some(name)
            },
            None => None,
        }
    }
}

/// The name of the entry whose record is `short` and which `k` long-name
/// records precede: the long name where they give one, the short name
/// otherwise.
pub open spec fn spec_name(records: Seq<u8>, k: nat, short: Seq<u8>) -> Seq<char> {
    match spec_long_name(records, k, short) {
        Some(name) => name,
        None => spec_short_name(short),
    }
}

/// Decodes `units` as UTF-16.
pub fn decode_utf16(units: &Vec<u16>) -> (r: Option<String>)
    ensures
        match r {
            Some(name) => spec_decode_utf16(units@) == Some(name@),
            None => spec_decode_utf16(units@) is None,
        },
{
    let mut name = String::new();
    let mut i: usize = 0;
    proof {
        assert(units@.skip(0) =~= units@);
        let all = spec_decode_utf16(units@);
        if all is Some {
            assert(name@ + all->Some_0 =~= all->Some_0);
        }
    }
    while i < units.len()
        invariant
            i <= units.len(),
            spec_decode_utf16(units@) == match spec_decode_utf16(units@.skip(i as int)) {
                Some(rest) => Some(name@ + rest),
                None => None,
            },
        decreases units.len() - i,
    {
        let rest: Ghost<Seq<u16>> = Ghost(units@.skip(i as int));
        let unit = units[i];
        assert(rest@[0] == unit);
        if unit < 0xD800 || unit > 0xDFFF {
            let c = char::from_u32(unit as u32);
            assert(rest@.skip(1) =~= units@.skip(i + 1));
            match c {
                Some(c) => {
                    proof {
                        let tail = spec_decode_utf16(units@.skip(i + 1));
                        if tail is Some {
                            assert(name@ + (seq![c] + tail->Some_0) =~= name@.push(c)
                                + tail->Some_0);
                        }
                    }
                    name.push(c);
                },
                None => {
                    return None;
                },
            }
            i += 1;
        } else if unit <= 0xDBFF && i + 1 < units.len() && 0xDC00 <= units[i + 1] && units[i + 1]
            <= 0xDFFF {
            let low = units[i + 1];
            assert(rest@[1] == low);
            let scalar: u32 = 0x1_0000 + (unit as u32 - 0xD800) * 0x400 + (low as u32 - 0xDC00);
            let c = char::from_u32(scalar);
            assert(rest@.skip(2) =~= units@.skip(i + 2));
            match c {
                Some(c) => {
                    proof {
                        let tail = spec_decode_utf16(units@.skip(i + 2));
                        if tail is Some {
                            assert(name@ + (seq![c] + tail->Some_0) =~= name@.push(c)
                                + tail->Some_0);
                        }
                    }
                    name.push(c);
                },
                None => {
                    return None;
                },
            }
            i += 2;
        } else {
            if i + 1 < units.len() {
                assert(rest@[1] == units[i + 1]);
            }
            return None;
        }
    }
    assert(units@.skip(i as int) =~= Seq::<u16>::empty());
    assert(name@ + Seq::<char>::empty() =~= name@);
    Some(name)
}

/// Whether the `k` long-name records in `records` are consistent with each
/// other and with the checksum `sum` of the short name.
pub fn check_records(records: &[u8], k: usize, sum: u8) -> (r: bool)
    requires
        32 * k <= records.len(),
    ensures
        r == records_consistent(records@, k as nat, sum),
{
    let mut j: usize = 0;
    while j < k
        invariant
            j <= k,
            32 * k <= records.len(),
            forall|t: int|
                0 <= t < j ==> {
                    let record = #[trigger] record_at(records@, t);
                    &&& record[0] as int % 32 == k - t
                    &&& ((record[0] as int / 64) % 2 == 1) == (t == 0)
                    &&& record[13] == sum
                },
        decreases k - j,
    {
        let first = records[32 * j];
        let held = records[32 * j + 13];
        assert(record_at(records@, j as int)[0] == first);
        assert(record_at(records@, j as int)[13] == held);
        let number_ok = (first % 32) as usize == k - j;
        let flag_ok = ((first / 64) % 2 == 1) == (j == 0);
        if !number_ok || !flag_ok || held != sum {
            return false;
        }
        j += 1;
    }
    true
}

/// The code units of the `k` long-name records in `records`, in the order in
/// which they spell the name.
pub fn collect_units(records: &[u8], k: usize) -> (units: Vec<u16>)
    requires
        32 * k <= records.len(),
    ensures
        units@ == spec_units(records@, k as nat),
{
    let mut units: Vec<u16> = Vec::new();
    let mut left: usize = k;
    while left > 0
        invariant
            left <= k,
            32 * k <= records.len(),
            spec_units(records@, k as nat) == units@ + spec_units(records@, left as nat),
        decreases left,
    {
        let base: usize = 32 * (left - 1);
        let ghost before = units@;
        let ghost record = record_at(records@, left - 1);
        let mut t: usize = 0;
        while t < 13
            invariant
                t <= 13,
                1 <= left <= k,
                base == 32 * (left - 1),
                32 * k <= records.len(),
                record == record_at(records@, left - 1),
                units@ == before + units_of(record).take(t as int),
            decreases 13 - t,
        {
            let offset: usize = if t < 5 {
                1 + 2 * t
            } else if t < 11 {
                14 + 2 * (t - 5)
            } else {
                28 + 2 * (t - 11)
            };
            let unit = le_u16(records, base + offset);
            assert(unit == spec_le_u16(record, offset as int)) by {
                assert(record[offset as int] == records@[base + offset]);
                assert(record[offset + 1] == records@[base + offset + 1]);
            }
            units.push(unit);
            assert(units_of(record).take(t + 1) =~= units_of(record).take(t as int).push(unit));
            assert(before + units_of(record).take(t + 1) =~= (before + units_of(record).take(
                t as int,
            )).push(unit));
            t += 1;
        }
        assert(units_of(record).take(13) =~= units_of(record));
        assert(before + units_of(record) + spec_units(records@, (left - 1) as nat) =~= before + (
        units_of(record) + spec_units(records@, (left - 1) as nat)));
        left -= 1;
    }
    assert(units@ + Seq::<u16>::empty() =~= units@);
    units
}

/// The units of `units` before its first zero.
pub fn cut_at_nul(units: &Vec<u16>) -> (cut: Vec<u16>)
    ensures
        cut@ == until_nul(units@),
{
    let mut cut: Vec<u16> = Vec::new();
    let mut i: usize = 0;
    proof {
        assert(units@.skip(0) =~= units@);
        assert(cut@ + until_nul(units@) =~= until_nul(units@));
    }
    while i < units.len() && units[i] != 0
        invariant
            i <= units.len(),
            until_nul(units@) == cut@ + until_nul(units@.skip(i as int)),
        decreases units.len() - i,
    {
        let ghost rest = units@.skip(i as int);
        assert(rest[0] == units[i as int]);
        assert(rest.skip(1) =~= units@.skip(i + 1));
        assert(cut@ + (seq![units[i as int]] + until_nul(units@.skip(i + 1))) =~= cut@.push(
            units[i as int],
        ) + until_nul(units@.skip(i + 1)));
        cut.push(units[i]);
        i += 1;
    }
    proof {
        let rest = units@.skip(i as int);
        if i < units.len() {
            assert(rest[0] == units[i as int]);
        }
        assert(until_nul(rest) =~= Seq::<u16>::empty());
        assert(cut@ + Seq::<u16>::empty() =~= cut@);
    }
    cut
}

/// The long name that the `k` records at the start of `records` give to the
/// entry whose record starts `short`, or `None` where they give none.
pub fn long_name(records: &[u8], k: usize, short: &[u8]) -> (r: Option<String>)
    requires
        32 * k <= records.len(),
        short.len() >= 11,
    ensures
        match r {
            Some(name) => spec_long_name(records@, k as nat, short@) == Some(name@),
            None => spec_long_name(records@, k as nat, short@) is None,
        },
{
    if k == 0 {
        return None;
    }
    let sum = checksum(short);
    if !check_records(records, k, sum) {
        return None;
    }
    let units = collect_units(records, k);
    let cut = cut_at_nul(&units);
    match decode_utf16(&cut) {
        Some(name) => {
            if name.as_str().unicode_len() == 0 {
                None
            } else {
                Some(name)
            }
        },
        None => None,
    }
}

/// The name of the entry whose record starts `short` and which the `k`
/// long-name records at the start of `records` precede.
pub fn entry_name(records: &[u8], k: usize, short: &[u8]) -> (name: String)
    requires
        32 * k <= records.len(),
        short.len() >= 11,
    ensures
        name@ == spec_name(records@, k as nat, short@),
{
    match long_name(records, k, short) {
        Some(name) => name,
        None => short_name(short),
    }
}

} // verus!
