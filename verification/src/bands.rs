//! Band-mask codec for the vendor `AT+SPLBAND` command.
//!
//! Band selections are exchanged with the modem as 16-bit masks, in four
//! regimes named by a base band number: LTE FDD (base 1, B1..B16, linear),
//! LTE TDD (base 33, B33..B48, linear), NR FDD (base 100, vendor table)
//! and NR TDD (base 41, vendor table).  Bands outside a regime's table are
//! silently dropped.

use vstd::prelude::*;
use crate::text::{dec_digits, spec_lines, spec_trim, spec_split, spec_parse_u64, starts_with,
    chars_of, string_of, trim_chars, split_chars, lines_of, parse_u16_chars, push_dec_u64,
    starts_with_chars, lemma_nested_view};

verus! {

pub const LTE_FDD_BASE: u8 = 1;

pub const LTE_TDD_BASE: u8 = 33;

pub const NR_FDD_BASE: u8 = 100;

pub const NR_TDD_BASE: u8 = 41;

/// Mask bit index of a band under a regime; 16 when the regime does not
/// carry the band.
pub open spec fn band_idx(band: u8, base: u8) -> u16 {
    if base == 1 {
        if 1 <= band && band <= 16 {
            (band - 1) as u16
        } else {
            16
        }
    } else if base == 33 {
        if 33 <= band && band <= 48 {
            (band - 33) as u16
        } else {
            16
        }
    } else if base == 100 {
        if band == 1 {
            0
        } else if band == 2 {
            1
        } else if band == 3 {
            2
        } else if band == 5 {
            4
        } else if band == 7 {
            6
        } else if band == 8 {
            7
        } else if band == 28 {
            9
        } else {
            16
        }
    } else if base == 41 {
        if band == 34 {
            0
        } else if band == 38 {
            1
        } else if band == 39 {
            2
        } else if band == 40 {
            3
        } else if band == 41 {
            4
        } else if band == 77 {
            7
        } else if band == 78 {
            8
        } else if band == 79 {
            9
        } else {
            16
        }
    } else {
        16
    }
}

/// True when the regime named by `base` carries `band`.
pub open spec fn supported_band(band: u8, base: u8) -> bool {
    band_idx(band, base) < 16
}

/// The single mask bit of a band, or 0 for an unsupported band.
pub open spec fn band_bit(band: u8, base: u8) -> u16 {
    if supported_band(band, base) {
        1u16 << band_idx(band, base)
    } else {
        0
    }
}

/// The band whose mask bit has index `k`, or 0 when the regime leaves
/// that bit unassigned.
pub open spec fn band_of_idx(k: u16, base: u8) -> u8 {
    if base == 1 {
        if k < 16 {
            (k + 1) as u8
        } else {
            0
        }
    } else if base == 33 {
        if k < 16 {
            (k + 33) as u8
        } else {
            0
        }
    } else if base == 100 {
        if k == 0 {
            1
        } else if k == 1 {
            2
        } else if k == 2 {
            3
        } else if k == 4 {
            5
        } else if k == 6 {
            7
        } else if k == 7 {
            8
        } else if k == 9 {
            28
        } else {
            0
        }
    } else if base == 41 {
        if k == 0 {
            34
        } else if k == 1 {
            38
        } else if k == 2 {
            39
        } else if k == 3 {
            40
        } else if k == 4 {
            41
        } else if k == 7 {
            77
        } else if k == 8 {
            78
        } else if k == 9 {
            79
        } else {
            0
        }
    } else {
        0
    }
}

/// Mask of a band list: the union of the bands' bits, unsupported bands
/// contributing nothing.
pub open spec fn mask_of_bands(bands: Seq<u8>, base: u8) -> u16
    decreases bands.len(),
{
    if bands.len() == 0 {
        0u16
    } else {
        mask_of_bands(bands.drop_last(), base) | band_bit(bands[bands.len() - 1], base)
    }
}

/// The band list decoded from the low `i` bits of a mask, ascending.
pub open spec fn bands_of_mask_upto(mask: u16, base: u8, i: int) -> Seq<u8>
    decreases i,
{
    if i <= 0 {
        Seq::empty()
    } else {
        bands_of_mask_upto(mask, base, i - 1) + (if band_of_idx((i - 1) as u16, base) != 0
            && mask & (1u16 << ((i - 1) as u16)) != 0 {
            seq![band_of_idx((i - 1) as u16, base)]
        } else {
            Seq::<u8>::empty()
        })
    }
}

/// The full band list decoded from a mask.
pub open spec fn bands_of_mask(mask: u16, base: u8) -> Seq<u8> {
    bands_of_mask_upto(mask, base, 16)
}

/// Mask bit of one band, as executable code.
fn band_bit_exec(band: u8, base: u8) -> (r: u16)
    ensures
        r == band_bit(band, base),
{
    let idx = band_idx_exec(band, base);
    if idx < 16 {
        1u16 << idx
    } else {
        0
    }
}

fn band_idx_exec(band: u8, base: u8) -> (r: u16)
    ensures
        r == band_idx(band, base),
{
    if base == 1 {
        if 1 <= band && band <= 16 {
            (band - 1) as u16
        } else {
            16
        }
    } else if base == 33 {
        if 33 <= band && band <= 48 {
            (band - 33) as u16
        } else {
            16
        }
    } else if base == 100 {
        if band == 1 {
            0
        } else if band == 2 {
            1
        } else if band == 3 {
            2
        } else if band == 5 {
            4
        } else if band == 7 {
            6
        } else if band == 8 {
            7
        } else if band == 28 {
            9
        } else {
            16
        }
    } else if base == 41 {
        if band == 34 {
            0
        } else if band == 38 {
            1
        } else if band == 39 {
            2
        } else if band == 40 {
            3
        } else if band == 41 {
            4
        } else if band == 77 {
            7
        } else if band == 78 {
            8
        } else if band == 79 {
            9
        } else {
            16
        }
    } else {
        16
    }
}

fn band_of_idx_exec(k: u16, base: u8) -> (r: u8)
    ensures
        r == band_of_idx(k, base),
{
    if base == 1 {
        if k < 16 {
            (k + 1) as u8
        } else {
            0
        }
    } else if base == 33 {
        if k < 16 {
            (k + 33) as u8
        } else {
            0
        }
    } else if base == 100 {
        if k == 0 {
            1
        } else if k == 1 {
            2
        } else if k == 2 {
            3
        } else if k == 4 {
            5
        } else if k == 6 {
            7
        } else if k == 7 {
            8
        } else if k == 9 {
            28
        } else {
            0
        }
    } else if base == 41 {
        if k == 0 {
            34
        } else if k == 1 {
            38
        } else if k == 2 {
            39
        } else if k == 3 {
            40
        } else if k == 4 {
            41
        } else if k == 7 {
            77
        } else if k == 8 {
            78
        } else if k == 9 {
            79
        } else {
            0
        }
    } else {
        0
    }
}

/// Encode a band list to a 16-bit mask.  Each supported band sets its
/// regime's bit; other bands are dropped; an unknown base yields 0.
pub fn bands_to_bitmask(bands: &[u8], base: u8) -> (mask: u16)
    ensures
        mask == mask_of_bands(bands@, base),
{
    let mut mask: u16 = 0;
    let mut i: usize = 0;
    while i < bands.len()
        invariant
            0 <= i <= bands@.len(),
            mask == mask_of_bands(bands@.take(i as int), base),
        decreases bands@.len() - i,
    {
        let b = bands[i];
        proof {
            assert(bands@.take(i + 1).drop_last() =~= bands@.take(i as int));
            assert(bands@.take(i + 1)[i as int] == bands@[i as int]);
        }
        mask = mask | band_bit_exec(b, base);
        i = i + 1;
    }
    proof {
        assert(bands@.take(bands@.len() as int) =~= bands@);
    }
    mask
}

/// Decode a 16-bit mask to the ascending list of bands whose bits it
/// sets; unassigned bits are ignored; an unknown base yields the empty
/// list.
pub fn bitmask_to_bands(mask: u16, base: u8) -> (bands: Vec<u8>)
    ensures
        bands@ == bands_of_mask(mask, base),
{
    let mut bands: Vec<u8> = Vec::new();
    let mut k: u16 = 0;
    assert(bands@ =~= bands_of_mask_upto(mask, base, 0));
    while k < 16
        invariant
            0 <= k <= 16,
            bands@ == bands_of_mask_upto(mask, base, k as int),
        decreases 16 - k,
    {
        let band = band_of_idx_exec(k, base);
        if band != 0 && mask & (1u16 << k) != 0 {
            bands.push(band);
            assert(bands@ =~= bands_of_mask_upto(mask, base, k + 1));
        } else {
            assert(bands@ =~= bands_of_mask_upto(mask, base, k + 1));
        }
        k = k + 1;
    }
    bands
}

/// Distinct bit positions have disjoint single-bit masks.
proof fn lemma_single_bits(k1: u16, k2: u16)
    requires
        k1 < 16,
        k2 < 16,
    ensures
        ((1u16 << k1) & (1u16 << k2) != 0) <==> k1 == k2,
        (1u16 << k1) != 0,
{
    assert((((1u16 << k1) & (1u16 << k2) != 0) <==> k1 == k2) && (1u16 << k1) != 0)
        by (bit_vector)
        requires
            k1 < 16,
            k2 < 16,
    ;
}

/// A bit survives an OR exactly when one side carries it.
proof fn lemma_or_bit(m1: u16, m2: u16, k: u16)
    ensures
        ((m1 | m2) & (1u16 << k) != 0) <==> (m1 & (1u16 << k) != 0) || (m2 & (1u16 << k) != 0),
{
    assert(((m1 | m2) & (1u16 << k) != 0) <==> (m1 & (1u16 << k) != 0) || (m2 & (1u16 << k)
        != 0)) by (bit_vector);
}

proof fn lemma_zero_bit(k: u16)
    ensures
        0u16 & (1u16 << k) == 0,
{
    assert(0u16 & (1u16 << k) == 0) by (bit_vector);
}

/// The mask of a band list carries bit `k` exactly when some listed band
/// maps to `k`.
proof fn lemma_mask_of_bands_bit(bands: Seq<u8>, base: u8, k: u16)
    requires
        k < 16,
    ensures
        (mask_of_bands(bands, base) & (1u16 << k) != 0) <==> exists|i: int|
            0 <= i < bands.len() && band_idx(#[trigger] bands[i], base) == k,
    decreases bands.len(),
{
    if bands.len() == 0 {
        lemma_zero_bit(k);
    } else {
        let head = mask_of_bands(bands.drop_last(), base);
        let last = bands[bands.len() - 1];
        lemma_mask_of_bands_bit(bands.drop_last(), base, k);
        lemma_or_bit(head, band_bit(last, base), k);
        if supported_band(last, base) {
            lemma_single_bits(band_idx(last, base), k);
        } else {
            lemma_zero_bit(k);
        }
        assert forall|i: int| 0 <= i < bands.len() - 1 implies bands.drop_last()[i] == bands[i]
        by {}
        if (mask_of_bands(bands, base) & (1u16 << k) != 0) {
            if head & (1u16 << k) != 0 {
                let i = choose|i: int|
                    0 <= i < bands.drop_last().len() && band_idx(
                        #[trigger] bands.drop_last()[i],
                        base,
                    ) == k;
                assert(band_idx(bands[i], base) == k);
            } else {
                assert(band_idx(bands[bands.len() - 1], base) == k);
            }
        }
        if exists|i: int| 0 <= i < bands.len() && band_idx(#[trigger] bands[i], base) == k {
            let i = choose|i: int| 0 <= i < bands.len() && band_idx(#[trigger] bands[i], base)
                == k;
            if i < bands.len() - 1 {
                assert(band_idx(bands.drop_last()[i], base) == k);
            }
        }
    }
}

/// Every band decoded from the low `i` bits: it is the image of a set,
/// assigned bit below `i`; the list is strictly ascending.
proof fn lemma_bands_of_mask_upto(mask: u16, base: u8, i: int)
    requires
        0 <= i <= 16,
    ensures
        forall|b: u8| (#[trigger] bands_of_mask_upto(mask, base, i).contains(b)) <==> (
        supported_band(b, base) && band_idx(b, base) < i && mask & (1u16 << band_idx(b, base))
            != 0),
        forall|p: int, q: int|
            0 <= p < q < bands_of_mask_upto(mask, base, i).len()
                ==> #[trigger] bands_of_mask_upto(mask, base, i)[p]
                < #[trigger] bands_of_mask_upto(mask, base, i)[q],
        forall|p: int|
            0 <= p < bands_of_mask_upto(mask, base, i).len() ==> band_idx(
                #[trigger] bands_of_mask_upto(mask, base, i)[p],
                base,
            ) < i,
    decreases i,
{
    if i > 0 {
        lemma_bands_of_mask_upto(mask, base, i - 1);
        let prev = bands_of_mask_upto(mask, base, i - 1);
        let cur = bands_of_mask_upto(mask, base, i);
        let kb = band_of_idx((i - 1) as u16, base);
        // the inverse tables agree: an assigned bit decodes to a band that
        // maps back to the same bit, and band numbers grow with the index
        assert(kb != 0 ==> band_idx(kb, base) == i - 1);
        assert forall|b: u8| #[trigger] cur.contains(b) implies (supported_band(b, base)
            && band_idx(b, base) < i && mask & (1u16 << band_idx(b, base)) != 0) by {
            let p = choose|p: int| 0 <= p < cur.len() && cur[p] == b;
            if p < prev.len() {
                assert(prev.contains(b));
            } else {
                assert(b == kb);
            }
        }
        assert forall|b: u8| (supported_band(b, base) && band_idx(b, base) < i && mask & (1u16
            << band_idx(b, base)) != 0) implies #[trigger] cur.contains(b) by {
            if band_idx(b, base) < i - 1 {
                assert(prev.contains(b));
                let p = choose|p: int| 0 <= p < prev.len() && prev[p] == b;
                assert(cur[p] == b);
            } else {
                // band_idx(b) == i - 1: b is exactly the band of this bit
                assert(band_of_idx((i - 1) as u16, base) == b);
                assert(cur[cur.len() - 1] == b);
            }
        }
        assert forall|p: int, q: int| 0 <= p < q < cur.len() implies cur[p] < cur[q] by {
            if q < prev.len() {
            } else if cur.len() > prev.len() && q == cur.len() - 1 {
                assert(cur[p] == prev[p]);
                assert(band_idx(prev[p], base) < i - 1);
                assert(cur[q] == kb);
                // a band with a smaller bit index is a smaller band number
                lemma_band_idx_monotonic(prev[p], kb, base);
            }
        }
    }
}

/// Within one regime, band numbers and bit indices grow together.
proof fn lemma_band_idx_monotonic(b1: u8, b2: u8, base: u8)
    requires
        supported_band(b1, base),
        supported_band(b2, base),
        band_idx(b1, base) < band_idx(b2, base),
    ensures
        b1 < b2,
{
}

/// Law: decoding the mask encoded from any list of supported bands gives
/// exactly the listed bands — each exactly once, in ascending order —
/// whatever the order and multiplicity of the input.
pub proof fn lemma_band_mask_round_trip(bands: Seq<u8>, base: u8)
    requires
        forall|i: int| 0 <= i < bands.len() ==> supported_band(#[trigger] bands[i], base),
    ensures
        forall|b: u8| #[trigger] bands_of_mask(mask_of_bands(bands, base), base).contains(b)
            <==> bands.contains(b),
        forall|p: int, q: int|
            0 <= p < q < bands_of_mask(mask_of_bands(bands, base), base).len()
                ==> #[trigger] bands_of_mask(mask_of_bands(bands, base), base)[p]
                < #[trigger] bands_of_mask(mask_of_bands(bands, base), base)[q],
{
    let mask = mask_of_bands(bands, base);
    lemma_bands_of_mask_upto(mask, base, 16);
    assert forall|b: u8| #[trigger] bands_of_mask(mask, base).contains(b) implies bands.contains(
        b,
    ) by {
        lemma_mask_of_bands_bit(bands, base, band_idx(b, base));
        let i = choose|i: int| 0 <= i < bands.len() && band_idx(#[trigger] bands[i], base)
            == band_idx(b, base);
        lemma_band_idx_injective(bands[i], b, base);
    }
    assert forall|b: u8| bands.contains(b) implies #[trigger] bands_of_mask(mask, base).contains(
        b,
    ) by {
        let i = choose|i: int| 0 <= i < bands.len() && bands[i] == b;
        lemma_mask_of_bands_bit(bands, base, band_idx(b, base));
    }
}

/// Within one regime, distinct supported bands have distinct bit indices.
proof fn lemma_band_idx_injective(b1: u8, b2: u8, base: u8)
    requires
        supported_band(b1, base),
        supported_band(b2, base),
        band_idx(b1, base) == band_idx(b2, base),
    ensures
        b1 == b2,
{
}

/// The comma-separated fields of a `+SPLBAND:` report line, or `None`
/// when the trimmed line does not start with that marker.
pub open spec fn splband_line_fields(line: Seq<char>) -> Option<Seq<Seq<char>>> {
    let t = spec_trim(line);
    if starts_with(t, "+SPLBAND:"@) {
        Some(spec_split(spec_trim(t.skip("+SPLBAND:"@.len() as int)), ','))
    } else {
        None
    }
}

/// A report field read as `u16`, with 0 for a missing or malformed field.
pub open spec fn field_u16(parts: Seq<Seq<char>>, i: int) -> u16 {
    if 0 <= i < parts.len() {
        match spec_parse_u64(spec_trim(parts[i]), 0x1_0000) {
            Some(v) => v as u16,
            None => 0,
        }
    } else {
        0
    }
}

/// Scan of an LTE `AT+SPLBAND=0` reply: the first marker line with at
/// least five fields gives `(fdd, tdd)` from fields 3 and 1.
pub open spec fn scan_splband_lte(lines: Seq<Seq<char>>) -> (u16, u16)
    decreases lines.len(),
{
    if lines.len() == 0 {
        (0u16, 0u16)
    } else {
        let f = splband_line_fields(lines[0]);
        if f is Some && f->0.len() >= 5 {
            (field_u16(f->0, 3), field_u16(f->0, 1))
        } else {
            scan_splband_lte(lines.drop_first())
        }
    }
}

/// Scan of an NR `AT+SPLBAND=3` reply: the first marker line with at
/// least four fields gives `(fdd, tdd)` from fields 0 and 2.
pub open spec fn scan_splband_nr(lines: Seq<Seq<char>>) -> (u16, u16)
    decreases lines.len(),
{
    if lines.len() == 0 {
        (0u16, 0u16)
    } else {
        let f = splband_line_fields(lines[0]);
        if f is Some && f->0.len() >= 4 {
            (field_u16(f->0, 0), field_u16(f->0, 2))
        } else {
            scan_splband_nr(lines.drop_first())
        }
    }
}

/// Read the fields of one reply line, if it carries the marker.
fn line_fields(line: &Vec<char>) -> (r: Option<Vec<Vec<char>>>)
    ensures
        r is Some <==> splband_line_fields(line@) is Some,
        r is Some ==> {
            let fields = splband_line_fields(line@)->0;
            r->0@.len() == fields.len() && (forall|j: int|
                0 <= j < fields.len() ==> #[trigger] r->0@[j]@ == fields[j])
        },
{
    let t = trim_chars(line);
    let marker = chars_of("+SPLBAND:");
    if !starts_with_chars(&t, &marker) {
        return None;
    }
    let mut rest: Vec<char> = Vec::new();
    let mut i: usize = marker.len();
    while i < t.len()
        invariant
            marker@.len() <= i <= t@.len(),
            rest@ == t@.subrange(marker@.len() as int, i as int),
        decreases t@.len() - i,
    {
        rest.push(t[i]);
        assert(rest@ =~= t@.subrange(marker@.len() as int, i + 1));
        i = i + 1;
    }
    assert(rest@ =~= t@.skip(marker@.len() as int));
    let trimmed = trim_chars(&rest);
    let parts = split_chars(&trimmed, ',');
    proof {
        lemma_nested_view(&parts);
    }
    Some(parts)
}

/// Field `i` of a fields vector, parsed as `u16` with default 0.
fn parts_field_u16(parts: &Vec<Vec<char>>, i: usize, ghost_fields: Ghost<Seq<Seq<char>>>) -> (r:
    u16)
    requires
        parts@.len() == ghost_fields@.len(),
        forall|j: int| 0 <= j < parts@.len() ==> #[trigger] parts@[j]@ == ghost_fields@[j],
    ensures
        r == field_u16(ghost_fields@, i as int),
{
    if i >= parts.len() {
        return 0;
    }
    let t = trim_chars(&parts[i]);
    match parse_u16_chars(&t) {
        Some(v) => v,
        None => 0,
    }
}

/// Parse an LTE `AT+SPLBAND=0` reply into `(fdd_mask, tdd_mask)`.
/// The marker line has the shape `+SPLBAND: 0,<TDD>,0,<FDD>,0`.
pub fn parse_splband_lte_response(response: &str) -> (r: (u16, u16))
    ensures
        r == scan_splband_lte(spec_lines(response@)),
{
    let cs = chars_of(response);
    let lines = lines_of(&cs);
    let ghost all = spec_lines(response@);
    proof {
        assert(all.skip(0) =~= all);
    }
    let mut i: usize = 0;
    while i < lines.len()
        invariant
            all == spec_lines(response@),
            0 <= i <= lines@.len(),
            lines@.len() == all.len(),
            forall|j: int| 0 <= j < lines@.len() ==> #[trigger] lines@[j]@ == all[j],
            scan_splband_lte(all) == scan_splband_lte(all.skip(i as int)),
        decreases lines@.len() - i,
    {
        proof {
            assert(all.skip(i as int).drop_first() =~= all.skip(i + 1));
            assert(all.skip(i as int)[0] == all[i as int]);
        }
        match line_fields(&lines[i]) {
            Some(parts) => {
                let ghost fields = splband_line_fields(all[i as int])->0;
                if parts.len() >= 5 {
                    let fdd = parts_field_u16(&parts, 3, Ghost(fields));
                    let tdd = parts_field_u16(&parts, 1, Ghost(fields));
                    proof {
                        assert(splband_line_fields(all.skip(i as int)[0]) is Some);
                        assert(scan_splband_lte(all.skip(i as int)) == (
                            field_u16(fields, 3),
                            field_u16(fields, 1),
                        ));
                    }
                    return (fdd, tdd);
                }
            },
            None => {},
        }
        i = i + 1;
    }
    proof {
        assert(all.skip(all.len() as int) =~= Seq::<Seq<char>>::empty());
    }
    (0, 0)
}

/// Parse an NR `AT+SPLBAND=3` reply into `(fdd_mask, tdd_mask)`.
/// The marker line has the shape `+SPLBAND: <NR-FDD>,0,<NR-TDD>,0`.
pub fn parse_splband_nr_response(response: &str) -> (r: (u16, u16))
    ensures
        r == scan_splband_nr(spec_lines(response@)),
{
    let cs = chars_of(response);
    let lines = lines_of(&cs);
    let ghost all = spec_lines(response@);
    proof {
        assert(all.skip(0) =~= all);
    }
    let mut i: usize = 0;
    while i < lines.len()
        invariant
            all == spec_lines(response@),
            0 <= i <= lines@.len(),
            lines@.len() == all.len(),
            forall|j: int| 0 <= j < lines@.len() ==> #[trigger] lines@[j]@ == all[j],
            scan_splband_nr(all) == scan_splband_nr(all.skip(i as int)),
        decreases lines@.len() - i,
    {
        proof {
            assert(all.skip(i as int).drop_first() =~= all.skip(i + 1));
            assert(all.skip(i as int)[0] == all[i as int]);
        }
        match line_fields(&lines[i]) {
            Some(parts) => {
                let ghost fields = splband_line_fields(all[i as int])->0;
                if parts.len() >= 4 {
                    let fdd = parts_field_u16(&parts, 0, Ghost(fields));
                    let tdd = parts_field_u16(&parts, 2, Ghost(fields));
                    proof {
                        assert(splband_line_fields(all.skip(i as int)[0]) is Some);
                        assert(scan_splband_nr(all.skip(i as int)) == (
                            field_u16(fields, 0),
                            field_u16(fields, 2),
                        ));
                    }
                    return (fdd, tdd);
                }
            },
            None => {},
        }
        i = i + 1;
    }
    proof {
        assert(all.skip(all.len() as int) =~= Seq::<Seq<char>>::empty());
    }
    (0, 0)
}

/// The LTE band-lock command for a pair of masks:
/// `AT+SPLBAND=1,0,<TDD>,0,<FDD>,0`.
pub open spec fn spec_splband_lte_command(fdd_mask: u16, tdd_mask: u16) -> Seq<char> {
    "AT+SPLBAND=1,0,"@ + dec_digits(tdd_mask as nat) + ",0,"@ + dec_digits(fdd_mask as nat)
        + ",0"@
}

/// The NR band-lock command for a pair of masks:
/// `AT+SPLBAND=2,<FDD>,0,<TDD>,0`.
pub open spec fn spec_splband_nr_command(fdd_mask: u16, tdd_mask: u16) -> Seq<char> {
    "AT+SPLBAND=2,"@ + dec_digits(fdd_mask as nat) + ",0,"@ + dec_digits(tdd_mask as nat)
        + ",0"@
}

/// Build the LTE band-lock set command.
pub fn build_splband_lte_command(fdd_mask: u16, tdd_mask: u16) -> (r: String)
    ensures
        r@ == spec_splband_lte_command(fdd_mask, tdd_mask),
{
    let mut v = chars_of("AT+SPLBAND=1,0,");
    push_dec_u64(&mut v, tdd_mask as u64);
    let mid = chars_of(",0,");
    let mut i: usize = 0;
    while i < mid.len()
        invariant
            0 <= i <= mid@.len(),
            v@ == "AT+SPLBAND=1,0,"@ + dec_digits(tdd_mask as nat) + mid@.take(i as int),
        decreases mid@.len() - i,
    {
        v.push(mid[i]);
        assert(v@ =~= "AT+SPLBAND=1,0,"@ + dec_digits(tdd_mask as nat) + mid@.take(i + 1));
        i = i + 1;
    }
    proof {
        assert(mid@.take(mid@.len() as int) =~= mid@);
    }
    push_dec_u64(&mut v, fdd_mask as u64);
    let tail = chars_of(",0");
    let mut j: usize = 0;
    while j < tail.len()
        invariant
            0 <= j <= tail@.len(),
            v@ == "AT+SPLBAND=1,0,"@ + dec_digits(tdd_mask as nat) + ",0,"@ + dec_digits(
                fdd_mask as nat,
            ) + tail@.take(j as int),
        decreases tail@.len() - j,
    {
        v.push(tail[j]);
        assert(v@ =~= "AT+SPLBAND=1,0,"@ + dec_digits(tdd_mask as nat) + ",0,"@ + dec_digits(
            fdd_mask as nat,
        ) + tail@.take(j + 1));
        j = j + 1;
    }
    proof {
        assert(tail@.take(tail@.len() as int) =~= tail@);
        assert(v@ =~= spec_splband_lte_command(fdd_mask, tdd_mask));
    }
    string_of(&v)
}

/// Build the band-lock command pair for a selection: the LTE command
/// first, then the NR command, as they are sent to the modem in order.
pub fn band_lock_commands(lte_fdd: &[u8], lte_tdd: &[u8], nr_fdd: &[u8], nr_tdd: &[u8]) -> (r:
    (String, String))
    ensures
        r.0@ == spec_splband_lte_command(
            mask_of_bands(lte_fdd@, 1),
            mask_of_bands(lte_tdd@, 33),
        ),
        r.1@ == spec_splband_nr_command(mask_of_bands(nr_fdd@, 100), mask_of_bands(nr_tdd@, 41)),
{
    let lte_fdd_mask = bands_to_bitmask(lte_fdd, 1);
    let lte_tdd_mask = bands_to_bitmask(lte_tdd, 33);
    let nr_fdd_mask = bands_to_bitmask(nr_fdd, 100);
    let nr_tdd_mask = bands_to_bitmask(nr_tdd, 41);
    (
        build_splband_lte_command(lte_fdd_mask, lte_tdd_mask),
        build_splband_nr_command(nr_fdd_mask, nr_tdd_mask),
    )
}

/// Build the NR band-lock set command.
pub fn build_splband_nr_command(fdd_mask: u16, tdd_mask: u16) -> (r: String)
    ensures
        r@ == spec_splband_nr_command(fdd_mask, tdd_mask),
{
    let mut v = chars_of("AT+SPLBAND=2,");
    push_dec_u64(&mut v, fdd_mask as u64);
    let mid = chars_of(",0,");
    let mut i: usize = 0;
    while i < mid.len()
        invariant
            0 <= i <= mid@.len(),
            v@ == "AT+SPLBAND=2,"@ + dec_digits(fdd_mask as nat) + mid@.take(i as int),
        decreases mid@.len() - i,
    {
        v.push(mid[i]);
        assert(v@ =~= "AT+SPLBAND=2,"@ + dec_digits(fdd_mask as nat) + mid@.take(i + 1));
        i = i + 1;
    }
    proof {
        assert(mid@.take(mid@.len() as int) =~= mid@);
    }
    push_dec_u64(&mut v, tdd_mask as u64);
    let tail = chars_of(",0");
    let mut j: usize = 0;
    while j < tail.len()
        invariant
            0 <= j <= tail@.len(),
            v@ == "AT+SPLBAND=2,"@ + dec_digits(fdd_mask as nat) + ",0,"@ + dec_digits(
                tdd_mask as nat,
            ) + tail@.take(j as int),
        decreases tail@.len() - j,
    {
        v.push(tail[j]);
        assert(v@ =~= "AT+SPLBAND=2,"@ + dec_digits(fdd_mask as nat) + ",0,"@ + dec_digits(
            tdd_mask as nat,
        ) + tail@.take(j + 1));
        j = j + 1;
    }
    proof {
        assert(tail@.take(tail@.len() as int) =~= tail@);
        assert(v@ =~= spec_splband_nr_command(fdd_mask, tdd_mask));
    }
    string_of(&v)
}

} // verus!
