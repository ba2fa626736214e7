//! Serving- and neighbor-cell readings from `AT+SPENGMD` replies.
//!
//! The raw reply is first parsed to rows of fields (see `atresp`); this
//! module then picks the serving-cell figures and the neighbor list out
//! of those rows, deriving the band from the channel number when the
//! reply leaves it empty.

use vstd::prelude::*;
use crate::text::{spec_parse_u64, str_eq, lemma_string_vec_view, parse_u32_chars, chars_of,
    string_of};

verus! {

/// One cell reading.  Signal figures are kept as the raw vendor strings
/// (value times one hundred); unit conversion is the caller's concern.
pub struct CellInfo {
    pub is_serving: bool,
    pub tech: String,
    pub band: String,
    pub arfcn: String,
    pub pci: String,
    pub rsrp: String,
    pub rsrq: String,
    pub sinr: String,
}

/// The mathematical image of a `CellInfo`.
pub ghost struct CellInfoV {
    pub is_serving: bool,
    pub tech: Seq<char>,
    pub band: Seq<char>,
    pub arfcn: Seq<char>,
    pub pci: Seq<char>,
    pub rsrp: Seq<char>,
    pub rsrq: Seq<char>,
    pub sinr: Seq<char>,
}

impl View for CellInfo {
    type V = CellInfoV;

    open spec fn view(&self) -> CellInfoV {
        CellInfoV {
            is_serving: self.is_serving,
            tech: self.tech@,
            band: self.band@,
            arfcn: self.arfcn@,
            pci: self.pci@,
            rsrp: self.rsrp@,
            rsrq: self.rsrq@,
            sinr: self.sinr@,
        }
    }
}

/// The pair of engineering-mode query commands for one radio technology.
pub struct CellCommandConfig {
    pub primary: &'static str,
    pub neighbor: &'static str,
}

/// The serving-cell and neighbor query commands: NR uses
/// `AT+SPENGMD=0,14,1` / `0,14,2`, LTE uses `AT+SPENGMD=0,6,0` / `0,6,6`.
pub fn get_cell_command_config(tech: &str) -> (r: Option<CellCommandConfig>)
    ensures
        tech@ == "nr"@ ==> r is Some && r->0.primary@ == "AT+SPENGMD=0,14,1"@
            && r->0.neighbor@ == "AT+SPENGMD=0,14,2"@,
        tech@ == "lte"@ ==> r is Some && r->0.primary@ == "AT+SPENGMD=0,6,0"@
            && r->0.neighbor@ == "AT+SPENGMD=0,6,6"@,
        tech@ != "nr"@ && tech@ != "lte"@ ==> r is None,
{
    proof {
        reveal_strlit("nr");
        reveal_strlit("lte");
        assert("nr"@.len() == 2);
        assert("lte"@.len() == 3);
        assert("nr"@ != "lte"@);
    }
    if str_eq(tech, "nr") {
        Some(CellCommandConfig { primary: "AT+SPENGMD=0,14,1", neighbor: "AT+SPENGMD=0,14,2" })
    } else if str_eq(tech, "lte") {
        Some(CellCommandConfig { primary: "AT+SPENGMD=0,6,0", neighbor: "AT+SPENGMD=0,6,6" })
    } else {
        None
    }
}

/// NR band name derived from an ARFCN, per the supported band plan;
/// empty when the channel lies in none of the known ranges.
pub open spec fn spec_arfcn_to_nr_band(arfcn: u32) -> Seq<char> {
    if 422000 <= arfcn && arfcn <= 434000 {
        "n1"@
    } else if 361000 <= arfcn && arfcn <= 376000 {
        "n3"@
    } else if 185000 <= arfcn && arfcn <= 192000 {
        "n8"@
    } else if 151600 <= arfcn && arfcn <= 160600 {
        "n28"@
    } else if 499200 <= arfcn && arfcn <= 537999 {
        "n41"@
    } else if 620000 <= arfcn && arfcn <= 680000 {
        "n78"@
    } else if 693334 <= arfcn && arfcn <= 733333 {
        "n79"@
    } else {
        Seq::empty()
    }
}

pub fn arfcn_to_nr_band(arfcn: u32) -> (r: String)
    ensures
        r@ == spec_arfcn_to_nr_band(arfcn),
{
    if 422000 <= arfcn && arfcn <= 434000 {
        String::from_str("n1")
    } else if 361000 <= arfcn && arfcn <= 376000 {
        String::from_str("n3")
    } else if 185000 <= arfcn && arfcn <= 192000 {
        String::from_str("n8")
    } else if 151600 <= arfcn && arfcn <= 160600 {
        String::from_str("n28")
    } else if 499200 <= arfcn && arfcn <= 537999 {
        String::from_str("n41")
    } else if 620000 <= arfcn && arfcn <= 680000 {
        String::from_str("n78")
    } else if 693334 <= arfcn && arfcn <= 733333 {
        String::from_str("n79")
    } else {
        String::new()
    }
}

/// LTE band name derived from an EARFCN; empty when unknown.
pub open spec fn spec_earfcn_to_lte_band(earfcn: u32) -> Seq<char> {
    if earfcn <= 599 {
        "B1"@
    } else if 1200 <= earfcn && earfcn <= 1949 {
        "B3"@
    } else if 2400 <= earfcn && earfcn <= 2649 {
        "B5"@
    } else if 2750 <= earfcn && earfcn <= 3449 {
        "B7"@
    } else if 3450 <= earfcn && earfcn <= 3799 {
        "B8"@
    } else if 6150 <= earfcn && earfcn <= 6449 {
        "B20"@
    } else if 9210 <= earfcn && earfcn <= 9659 {
        "B28"@
    } else if 37750 <= earfcn && earfcn <= 38249 {
        "B38"@
    } else if 38250 <= earfcn && earfcn <= 38649 {
        "B39"@
    } else if 38650 <= earfcn && earfcn <= 39649 {
        "B40"@
    } else if 39650 <= earfcn && earfcn <= 41589 {
        "B41"@
    } else {
        Seq::empty()
    }
}

pub fn earfcn_to_lte_band(earfcn: u32) -> (r: String)
    ensures
        r@ == spec_earfcn_to_lte_band(earfcn),
{
    if earfcn <= 599 {
        String::from_str("B1")
    } else if 1200 <= earfcn && earfcn <= 1949 {
        String::from_str("B3")
    } else if 2400 <= earfcn && earfcn <= 2649 {
        String::from_str("B5")
    } else if 2750 <= earfcn && earfcn <= 3449 {
        String::from_str("B7")
    } else if 3450 <= earfcn && earfcn <= 3799 {
        String::from_str("B8")
    } else if 6150 <= earfcn && earfcn <= 6449 {
        String::from_str("B20")
    } else if 9210 <= earfcn && earfcn <= 9659 {
        String::from_str("B28")
    } else if 37750 <= earfcn && earfcn <= 38249 {
        String::from_str("B38")
    } else if 38250 <= earfcn && earfcn <= 38649 {
        String::from_str("B39")
    } else if 38650 <= earfcn && earfcn <= 39649 {
        String::from_str("B40")
    } else if 39650 <= earfcn && earfcn <= 41589 {
        String::from_str("B41")
    } else {
        String::new()
    }
}

/// Field `i` of row `r`, or the default when either is missing.
pub open spec fn cell_field(rows: Seq<Seq<Seq<char>>>, r: int, i: int, dflt: Seq<char>)
    -> Seq<char> {
    if 0 <= r < rows.len() && 0 <= i < rows[r].len() {
        rows[r][i]
    } else {
        dflt
    }
}

/// A row joined back with commas, as the serving-cell report shows
/// multi-field values.
pub open spec fn spec_join(parts: Seq<Seq<char>>, sep: char) -> Seq<char>
    decreases parts.len(),
{
    if parts.len() == 0 {
        Seq::empty()
    } else if parts.len() == 1 {
        parts[0]
    } else {
        spec_join(parts.drop_last(), sep) + seq![sep] + parts[parts.len() - 1]
    }
}

/// A band string given its one-letter prefix: prefixed when non-empty and
/// not the literal `0`.
pub open spec fn prefixed_band(prefix: char, raw: Seq<char>) -> Seq<char> {
    if raw.len() > 0 && raw != seq!['0'] {
        seq![prefix] + raw
    } else {
        raw
    }
}

/// The serving-cell reading of a parsed reply.  NR rows carry SINR at
/// row 15, LTE at row 33; shorter replies leave every field empty.
pub open spec fn spec_primary_cell(tech: Seq<char>, rows: Seq<Seq<Seq<char>>>) -> CellInfoV {
    let empty = CellInfoV {
        is_serving: true,
        tech: Seq::empty(),
        band: Seq::empty(),
        arfcn: Seq::empty(),
        pci: Seq::empty(),
        rsrp: Seq::empty(),
        rsrq: Seq::empty(),
        sinr: Seq::empty(),
    };
    if tech == "nr"@ && rows.len() >= 16 {
        CellInfoV {
            is_serving: true,
            tech: tech,
            band: prefixed_band('n', spec_join(rows[0], ',')),
            arfcn: spec_join(rows[1], ','),
            pci: cell_field(rows, 2, 0, Seq::empty()),
            rsrp: cell_field(rows, 3, 0, Seq::empty()),
            rsrq: cell_field(rows, 4, 0, Seq::empty()),
            sinr: cell_field(rows, 15, 0, Seq::empty()),
        }
    } else if tech == "lte"@ && rows.len() >= 34 {
        CellInfoV {
            is_serving: true,
            tech: tech,
            band: prefixed_band('B', spec_join(rows[0], ',')),
            arfcn: spec_join(rows[1], ','),
            pci: spec_join(rows[2], ','),
            rsrp: cell_field(rows, 3, 0, Seq::empty()),
            rsrq: cell_field(rows, 4, 0, Seq::empty()),
            sinr: cell_field(rows, 33, 0, Seq::empty()),
        }
    } else {
        empty
    }
}

/// Join the fields of one row with a separator.
fn join_row(row: &Vec<String>, sep: char) -> (r: String)
    ensures
        r@ == spec_join(row.deep_view(), sep),
{
    proof {
        lemma_string_vec_view(row);
    }
    let ghost fields = row.deep_view();
    let mut v: Vec<char> = Vec::new();
    let mut i: usize = 0;
    assert(v@ =~= spec_join(fields.take(0), sep));
    while i < row.len()
        invariant
            0 <= i <= row@.len(),
            row@.len() == fields.len(),
            forall|j: int| 0 <= j < row@.len() ==> #[trigger] row@[j]@ == fields[j],
            v@ == spec_join(fields.take(i as int), sep),
        decreases row@.len() - i,
    {
        if i > 0 {
            v.push(sep);
        }
        let part = chars_of(row[i].as_str());
        let mut j: usize = 0;
        let ghost mid = v@;
        while j < part.len()
            invariant
                0 <= j <= part@.len(),
                v@ == mid + part@.take(j as int),
            decreases part@.len() - j,
        {
            v.push(part[j]);
            assert(v@ =~= mid + part@.take(j + 1));
            j = j + 1;
        }
        proof {
            assert(part@.take(part@.len() as int) =~= part@);
            assert(fields.take(i + 1).drop_last() =~= fields.take(i as int));
            assert(fields.take(i + 1)[i as int] == fields[i as int]);
            if i == 0 {
                assert(v@ =~= spec_join(fields.take(1), sep));
            } else {
                assert(v@ =~= spec_join(fields.take(i as int), sep) + seq![sep]
                    + fields[i as int]);
                assert(v@ =~= spec_join(fields.take(i + 1), sep));
            }
        }
        i = i + 1;
    }
    proof {
        assert(fields.take(fields.len() as int) =~= fields);
    }
    string_of(&v)
}

/// Field `i` of a row as an owned string, with a default for a missing
/// field.
fn row_get(row: &Vec<String>, i: usize, dflt: &str) -> (r: String)
    ensures
        i < row@.len() ==> r@ == row.deep_view()[i as int],
        i >= row@.len() ==> r@ == dflt@,
{
    proof {
        lemma_string_vec_view(row);
    }
    if i < row.len() {
        row[i].clone()
    } else {
        String::from_str(dflt)
    }
}

/// Parse the serving-cell reading out of reply rows.
pub fn parse_primary_cell(tech: &str, parsed_data: &Vec<Vec<String>>) -> (r: CellInfo)
    ensures
        r@ == spec_primary_cell(tech@, parsed_data.deep_view()),
{
    let ghost rows = parsed_data.deep_view();
    proof {
        lemma_rows_view(parsed_data);
    }
    proof {
        reveal_strlit("nr");
        reveal_strlit("lte");
        reveal_strlit("");
        assert("nr"@.len() == 2);
        assert("lte"@.len() == 3);
        assert("nr"@ != "lte"@);
        assert(""@ =~= Seq::<char>::empty());
    }
    let is_nr = str_eq(tech, "nr");
    let is_lte = str_eq(tech, "lte");
    if is_nr && parsed_data.len() >= 16 {
        let band_raw = join_row(&parsed_data[0], ',');
        let band = prefix_band('n', &band_raw);
        CellInfo {
            is_serving: true,
            tech: String::from_str(tech),
            band,
            arfcn: join_row(&parsed_data[1], ','),
            pci: row_get(&parsed_data[2], 0, ""),
            rsrp: row_get(&parsed_data[3], 0, ""),
            rsrq: row_get(&parsed_data[4], 0, ""),
            sinr: row_get(&parsed_data[15], 0, ""),
        }
    } else if is_lte && parsed_data.len() >= 34 {
        let band_raw = join_row(&parsed_data[0], ',');
        let band = prefix_band('B', &band_raw);
        CellInfo {
            is_serving: true,
            tech: String::from_str(tech),
            band,
            arfcn: join_row(&parsed_data[1], ','),
            pci: join_row(&parsed_data[2], ','),
            rsrp: row_get(&parsed_data[3], 0, ""),
            rsrq: row_get(&parsed_data[4], 0, ""),
            sinr: row_get(&parsed_data[33], 0, ""),
        }
    } else {
        CellInfo {
            is_serving: true,
            tech: String::new(),
            band: String::new(),
            arfcn: String::new(),
            pci: String::new(),
            rsrp: String::new(),
            rsrq: String::new(),
            sinr: String::new(),
        }
    }
}

/// Add the band-letter prefix when the raw band is neither empty nor `0`.
fn prefix_band(prefix: char, raw: &String) -> (r: String)
    ensures
        r@ == prefixed_band(prefix, raw@),
{
    let cs = chars_of(raw.as_str());
    let is_zero = cs.len() == 1 && cs[0] == '0';
    proof {
        if cs.len() == 1 && cs[0] == '0' {
            assert(cs@ =~= seq!['0']);
        }
        if cs@ == seq!['0'] {
            assert(cs@.len() == 1 && cs@[0] == '0');
        }
    }
    if cs.len() > 0 && !is_zero {
        let mut v: Vec<char> = Vec::new();
        v.push(prefix);
        let mut i: usize = 0;
        while i < cs.len()
            invariant
                0 <= i <= cs@.len(),
                v@ == seq![prefix] + cs@.take(i as int),
            decreases cs@.len() - i,
        {
            v.push(cs[i]);
            assert(v@ =~= seq![prefix] + cs@.take(i + 1));
            i = i + 1;
        }
        proof {
            assert(cs@.take(cs@.len() as int) =~= cs@);
        }
        string_of(&v)
    } else {
        raw.clone()
    }
}

/// The NR neighbor list, read column-wise: cell `i` takes field `i` of
/// each of the first six rows.  The walk ends at the first `(0, 0)`
/// channel/identity pair; a missing band is derived from the channel.
pub open spec fn nr_neighbors(tech: Seq<char>, rows: Seq<Seq<Seq<char>>>, i: int, count: int)
    -> Seq<CellInfoV>
    decreases count - i,
{
    if i < 0 || i >= count || rows.len() < 6 {
        Seq::empty()
    } else {
        let arfcn = cell_field(rows, 1, i, seq!['0']);
        let pci = cell_field(rows, 2, i, seq!['0']);
        if arfcn == seq!['0'] && pci == seq!['0'] {
            Seq::empty()
        } else {
            let raw = cell_field(rows, 0, i, Seq::empty());
            let band = if raw.len() == 0 || raw == seq!['0'] {
                match spec_parse_u64(arfcn, 0x1_0000_0000) {
                    Some(v) => spec_arfcn_to_nr_band(v as u32),
                    None => Seq::empty(),
                }
            } else {
                raw
            };
            seq![
                CellInfoV {
                    is_serving: false,
                    tech: tech,
                    band: band,
                    arfcn: arfcn,
                    pci: pci,
                    rsrp: cell_field(rows, 3, i, Seq::empty()),
                    rsrq: cell_field(rows, 4, i, Seq::empty()),
                    sinr: cell_field(rows, 5, i, Seq::empty()),
                },
            ] + nr_neighbors(tech, rows, i + 1, count)
        }
    }
}

/// The LTE neighbor list, read row-wise: short rows are skipped, the walk
/// ends at the first `(0, 0)` pair, SINR is reported as `-`, and a
/// missing band (field 12) is derived from the channel.
pub open spec fn lte_neighbors(tech: Seq<char>, rows: Seq<Seq<Seq<char>>>, i: int)
    -> Seq<CellInfoV>
    decreases rows.len() - i,
{
    if i < 0 || i >= rows.len() {
        Seq::empty()
    } else {
        let row = rows[i];
        if row.len() < 4 {
            lte_neighbors(tech, rows, i + 1)
        } else if row[0] == seq!['0'] && row[1] == seq!['0'] {
            Seq::empty()
        } else {
            let raw = if row.len() > 12 {
                row[12]
            } else {
                Seq::<char>::empty()
            };
            let band = if raw.len() == 0 || raw == seq!['0'] {
                match spec_parse_u64(row[0], 0x1_0000_0000) {
                    Some(v) => spec_earfcn_to_lte_band(v as u32),
                    None => Seq::empty(),
                }
            } else {
                raw
            };
            seq![
                CellInfoV {
                    is_serving: false,
                    tech: tech,
                    band: band,
                    arfcn: row[0],
                    pci: row[1],
                    rsrp: row[2],
                    rsrq: row[3],
                    sinr: seq!['-'],
                },
            ] + lte_neighbors(tech, rows, i + 1)
        }
    }
}

/// The neighbor list of a parsed reply, per radio technology.
pub open spec fn spec_neighbor_cells(tech: Seq<char>, rows: Seq<Seq<Seq<char>>>)
    -> Seq<CellInfoV> {
    if tech == "nr"@ {
        if rows.len() == 0 {
            Seq::empty()
        } else {
            nr_neighbors(tech, rows, 0, rows[0].len() as int)
        }
    } else if tech == "lte"@ {
        lte_neighbors(tech, rows, 0)
    } else {
        Seq::empty()
    }
}

/// Parse the neighbor-cell list out of reply rows.
pub fn parse_neighbor_cells(tech: &str, parsed_data: &Vec<Vec<String>>) -> (r: Vec<CellInfo>)
    ensures
        r@.len() == spec_neighbor_cells(tech@, parsed_data.deep_view()).len(),
        forall|i: int|
            0 <= i < r@.len() ==> #[trigger] r@[i]@ == spec_neighbor_cells(
                tech@,
                parsed_data.deep_view(),
            )[i],
{
    let ghost rows = parsed_data.deep_view();
    let ghost total = spec_neighbor_cells(tech@, rows);
    proof {
        lemma_rows_view(parsed_data);
        reveal_strlit("nr");
        reveal_strlit("lte");
        reveal_strlit("0");
        reveal_strlit("-");
        reveal_strlit("");
        assert("nr"@.len() == 2);
        assert("lte"@.len() == 3);
        assert("nr"@ != "lte"@);
        assert("0"@ =~= seq!['0']);
        assert("-"@ =~= seq!['-']);
        assert(""@ =~= Seq::<char>::empty());
    }
    let mut out: Vec<CellInfo> = Vec::new();
    let ghost mut accv: Seq<CellInfoV> = Seq::empty();
    if str_eq(tech, "nr") {
        if parsed_data.len() == 0 {
            return out;
        }
        let count = parsed_data[0].len();
        proof {
            lemma_string_vec_view(&parsed_data[0]);
        }
        if parsed_data.len() < 6 {
            return out;
        }
        let mut i: usize = 0;
        assert(total =~= accv + nr_neighbors(tech@, rows, 0, count as int));
        while i < count
            invariant
                0 <= i <= count,
                tech@ == "nr"@,
                "0"@ =~= seq!['0'],
                ""@ =~= Seq::<char>::empty(),
                rows == parsed_data.deep_view(),
                rows.len() == parsed_data@.len(),
                rows.len() >= 6,
                count == rows[0].len(),
                forall|j: int|
                    0 <= j < parsed_data@.len() ==> #[trigger] rows[j]
                        == parsed_data@[j].deep_view(),
                forall|j: int|
                    0 <= j < parsed_data@.len() ==> #[trigger] rows[j].len()
                        == parsed_data@[j]@.len(),
                total == spec_neighbor_cells(tech@, rows),
                total == accv + nr_neighbors(tech@, rows, i as int, count as int),
                out@.len() == accv.len(),
                forall|j: int| 0 <= j < out@.len() ==> #[trigger] out@[j]@ == accv[j],
            decreases count - i,
        {
            let arfcn = row_get(&parsed_data[1], i, "0");
            let pci = row_get(&parsed_data[2], i, "0");
            proof {
                assert(arfcn@ == cell_field(rows, 1, i as int, seq!['0']));
                assert(pci@ == cell_field(rows, 2, i as int, seq!['0']));
            }
            if str_eq(arfcn.as_str(), "0") && str_eq(pci.as_str(), "0") {
                proof {
                    assert(nr_neighbors(tech@, rows, i as int, count as int)
                        =~= Seq::<CellInfoV>::empty());
                    assert(total =~= accv);
                }
                return out;
            }
            let raw = row_get(&parsed_data[0], i, "");
            let band: String = if raw.as_str().is_empty() || str_eq(raw.as_str(), "0") {
                let ac = chars_of(arfcn.as_str());
                match crate::text::parse_u32_chars(&ac) {
                    Some(v) => arfcn_to_nr_band(v),
                    None => String::new(),
                }
            } else {
                raw
            };
            let cell = CellInfo {
                is_serving: false,
                tech: String::from_str(tech),
                band,
                arfcn,
                pci,
                rsrp: row_get(&parsed_data[3], i, ""),
                rsrq: row_get(&parsed_data[4], i, ""),
                sinr: row_get(&parsed_data[5], i, ""),
            };
            proof {
                let rest = nr_neighbors(tech@, rows, i as int, count as int);
                assert(rest == seq![cell@] + nr_neighbors(tech@, rows, i + 1, count as int));
                accv = accv.push(cell@);
                assert(accv + nr_neighbors(tech@, rows, i + 1, count as int) =~= total);
            }
            out.push(cell);
            i = i + 1;
        }
        proof {
            assert(nr_neighbors(tech@, rows, count as int, count as int)
                =~= Seq::<CellInfoV>::empty());
            assert(total =~= accv);
        }
        out
    } else if str_eq(tech, "lte") {
        let mut i: usize = 0;
        assert(total =~= accv + lte_neighbors(tech@, rows, 0));
        while i < parsed_data.len()
            invariant
                0 <= i <= parsed_data@.len(),
                tech@ == "lte"@,
                "0"@ =~= seq!['0'],
                "-"@ =~= seq!['-'],
                ""@ =~= Seq::<char>::empty(),
                rows == parsed_data.deep_view(),
                rows.len() == parsed_data@.len(),
                forall|j: int|
                    0 <= j < parsed_data@.len() ==> #[trigger] rows[j]
                        == parsed_data@[j].deep_view(),
                forall|j: int|
                    0 <= j < parsed_data@.len() ==> #[trigger] rows[j].len()
                        == parsed_data@[j]@.len(),
                total == spec_neighbor_cells(tech@, rows),
                total == accv + lte_neighbors(tech@, rows, i as int),
                out@.len() == accv.len(),
                forall|j: int| 0 <= j < out@.len() ==> #[trigger] out@[j]@ == accv[j],
            decreases parsed_data@.len() - i,
        {
            let row = &parsed_data[i];
            proof {
                lemma_string_vec_view(row);
            }
            if row.len() < 4 {
                i = i + 1;
                continue;
            }
            let a0 = row[0].clone();
            let a1 = row[1].clone();
            if str_eq(a0.as_str(), "0") && str_eq(a1.as_str(), "0") {
                proof {
                    assert(lte_neighbors(tech@, rows, i as int) =~= Seq::<CellInfoV>::empty());
                    assert(total =~= accv);
                }
                return out;
            }
            let raw = row_get(row, 12, "");
            let band: String = if raw.as_str().is_empty() || str_eq(raw.as_str(), "0") {
                let ac = chars_of(a0.as_str());
                match crate::text::parse_u32_chars(&ac) {
                    Some(v) => earfcn_to_lte_band(v),
                    None => String::new(),
                }
            } else {
                raw
            };
            let cell = CellInfo {
                is_serving: false,
                tech: String::from_str(tech),
                band,
                arfcn: a0,
                pci: a1,
                rsrp: row[2].clone(),
                rsrq: row[3].clone(),
                sinr: String::from_str("-"),
            };
            proof {
                let rest = lte_neighbors(tech@, rows, i as int);
                assert(rest == seq![cell@] + lte_neighbors(tech@, rows, i + 1));
                accv = accv.push(cell@);
                assert(accv + lte_neighbors(tech@, rows, i + 1) =~= total);
            }
            out.push(cell);
            i = i + 1;
        }
        proof {
            assert(lte_neighbors(tech@, rows, parsed_data@.len() as int)
                =~= Seq::<CellInfoV>::empty());
            assert(total =~= accv);
        }
        out
    } else {
        out
    }
}

/// The deep view of parsed reply rows, element by element.
pub proof fn lemma_rows_view(v: &Vec<Vec<String>>)
    ensures
        v.deep_view().len() == v@.len(),
        forall|j: int| 0 <= j < v@.len() ==> #[trigger] v.deep_view()[j] == v@[j].deep_view(),
        forall|j: int|
            0 <= j < v@.len() ==> #[trigger] v.deep_view()[j].len() == v@[j]@.len(),
{
    assert forall|j: int| 0 <= j < v@.len() implies #[trigger] v.deep_view()[j]
        == v@[j].deep_view() && v.deep_view()[j].len() == v@[j]@.len() by {
        lemma_string_vec_view(&v@[j]);
    }
}

} // verus!
