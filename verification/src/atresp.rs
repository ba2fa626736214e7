//! Parser for raw vendor AT replies.
//!
//! `AT+SPENGMD` engineering replies arrive as one long string in which a
//! bare `-` separates rows and commas separate fields.  A `-` directly
//! after a comma is a minus sign, and a doubled `--` stands for a literal
//! `-` at the start of a row.  The reply is first trimmed, stripped of
//! trailing `OK` markers, and cleared of CR/LF characters.

use vstd::prelude::*;
use crate::text::{spec_trim, spec_split, chars_of, string_of, trim_chars, split_chars,
    lemma_nested_view};

verus! {

/// The input with every trailing `OK` marker removed.
pub open spec fn strip_ok_suffixes(s: Seq<char>) -> Seq<char>
    decreases s.len(),
{
    if s.len() >= 2 && s[s.len() - 2] == 'O' && s[s.len() - 1] == 'K' {
        strip_ok_suffixes(s.take(s.len() - 2))
    } else {
        s
    }
}

/// The input with every carriage return and line feed removed.
pub open spec fn remove_crlf(s: Seq<char>) -> Seq<char>
    decreases s.len(),
{
    if s.len() == 0 {
        Seq::empty()
    } else {
        remove_crlf(s.drop_last()) + (if s[s.len() - 1] == '\r' || s[s.len() - 1] == '\n' {
            Seq::<char>::empty()
        } else {
            seq![s[s.len() - 1]]
        })
    }
}

/// The cleaned reply: trimmed, `OK` markers stripped, CR/LF removed.
pub open spec fn at_cleaned(input: Seq<char>) -> Seq<char> {
    remove_crlf(strip_ok_suffixes(spec_trim(input)))
}

/// One step of the row scanner, folded to the end of the input.
///
/// State: position `i`, the previous character, the row collected so far
/// and the finished rows.  A bare `-` closes the current row (trimmed);
/// after `,` it is a sign; a second `-` right after a row break opens the
/// new row with a literal `-`.  The final row is kept untrimmed.
pub open spec fn at_rows(s: Seq<char>, i: int, prev: Option<char>, cur: Seq<char>,
    acc: Seq<Seq<char>>) -> Seq<Seq<char>>
    decreases s.len() - i,
{
    if i < 0 || i >= s.len() {
        if cur.len() > 0 {
            acc + seq![cur]
        } else {
            acc
        }
    } else {
        let c = s[i];
        if c == '-' {
            if prev == Some(',') {
                at_rows(s, i + 1, Some(c), cur.push('-'), acc)
            } else {
                let acc2 = if cur.len() > 0 {
                    acc + seq![spec_trim(cur)]
                } else {
                    acc
                };
                if i + 1 < s.len() && s[i + 1] == '-' {
                    at_rows(s, i + 2, Some('-'), seq!['-'], acc2)
                } else {
                    at_rows(s, i + 1, Some('-'), Seq::empty(), acc2)
                }
            }
        } else {
            at_rows(s, i + 1, Some(c), cur.push(c), acc)
        }
    }
}

/// The two-dimensional reading of a raw reply: rows from the scanner,
/// each split at its commas.
pub open spec fn spec_parse_at_2d(input: Seq<char>) -> Seq<Seq<Seq<char>>> {
    at_rows(at_cleaned(input), 0, None, Seq::empty(), Seq::empty()).map_values(
        |row: Seq<char>| spec_split(row, ','),
    )
}

/// Parse a raw AT reply into rows of comma-separated fields.
pub fn parse_at_response_to_2d_vec(input: &str) -> (r: Vec<Vec<String>>)
    ensures
        r@.len() == spec_parse_at_2d(input@).len(),
        forall|i: int|
            0 <= i < r@.len() ==> #[trigger] r@[i]@.len() == spec_parse_at_2d(input@)[i].len(),
        forall|i: int, j: int|
            0 <= i < r@.len() && 0 <= j < r@[i]@.len() ==> #[trigger] r@[i]@[j]@
                == spec_parse_at_2d(input@)[i][j],
{
    let raw = chars_of(input);
    let trimmed = trim_chars(&raw);
    // strip every trailing "OK"
    let mut cleaned = trimmed;
    while cleaned.len() >= 2 && cleaned[cleaned.len() - 2] == 'O'
        && cleaned[cleaned.len() - 1] == 'K'
        invariant
            strip_ok_suffixes(cleaned@) == strip_ok_suffixes(spec_trim(input@)),
        decreases cleaned@.len(),
    {
        let ghost before = cleaned@;
        let _ = cleaned.pop();
        let _ = cleaned.pop();
        assert(cleaned@ =~= before.take(before.len() - 2));
    }
    // drop carriage returns and line feeds
    let mut flat: Vec<char> = Vec::new();
    let mut i: usize = 0;
    assert(flat@ =~= remove_crlf(cleaned@.take(0)));
    while i < cleaned.len()
        invariant
            0 <= i <= cleaned@.len(),
            flat@ == remove_crlf(cleaned@.take(i as int)),
        decreases cleaned@.len() - i,
    {
        let c = cleaned[i];
        proof {
            assert(cleaned@.take(i + 1).drop_last() =~= cleaned@.take(i as int));
            assert(cleaned@.take(i + 1)[i as int] == cleaned@[i as int]);
        }
        if c != '\r' && c != '\n' {
            flat.push(c);
        }
        assert(flat@ =~= remove_crlf(cleaned@.take(i + 1)));
        i = i + 1;
    }
    proof {
        assert(cleaned@.take(cleaned@.len() as int) =~= cleaned@);
        assert(flat@ == at_cleaned(input@));
    }
    // scan rows
    let ghost fin = at_rows(flat@, 0, None, Seq::empty(), Seq::empty());
    let mut rows: Vec<Vec<char>> = Vec::new();
    let mut cur: Vec<char> = Vec::new();
    let mut prev: Option<char> = None;
    let ghost mut accv: Seq<Seq<char>> = Seq::empty();
    let mut k: usize = 0;
    assert(cur@ =~= Seq::<char>::empty());
    while k < flat.len()
        invariant
            0 <= k <= flat@.len(),
            fin == at_rows(flat@, 0, None, Seq::empty(), Seq::empty()),
            fin == at_rows(flat@, k as int, prev, cur@, accv),
            rows@.len() == accv.len(),
            forall|j: int| 0 <= j < rows@.len() ==> #[trigger] rows@[j]@ == accv[j],
        decreases flat@.len() - k,
    {
        let ghost k0 = k as int;
        let ghost prev0 = prev;
        let ghost cur0 = cur@;
        let ghost acc0 = accv;
        let c = flat[k];
        if c == '-' {
            let prev_is_comma = match prev {
                Some(p) => p == ',',
                None => false,
            };
            if prev_is_comma {
                cur.push('-');
                prev = Some(c);
                k = k + 1;
                assert(at_rows(flat@, k0, prev0, cur0, acc0) == at_rows(flat@, k as int, prev,
                    cur@, accv));
            } else {
                let ghost acc2 = if cur0.len() > 0 {
                    acc0 + seq![spec_trim(cur0)]
                } else {
                    acc0
                };
                if cur.len() > 0 {
                    let t = trim_chars(&cur);
                    rows.push(t);
                    proof {
                        accv = accv + seq![spec_trim(cur@)];
                    }
                    cur = Vec::new();
                }
                assert(accv == acc2);
                assert(cur@ =~= Seq::<char>::empty());
                if k + 1 < flat.len() && flat[k + 1] == '-' {
                    cur.push('-');
                    assert(cur@ =~= seq!['-']);
                    prev = Some('-');
                    k = k + 2;
                    assert(at_rows(flat@, k0, prev0, cur0, acc0) == at_rows(flat@, k as int,
                        prev, cur@, accv));
                } else {
                    prev = Some('-');
                    k = k + 1;
                    assert(at_rows(flat@, k0, prev0, cur0, acc0) == at_rows(flat@, k as int,
                        prev, cur@, accv));
                }
            }
        } else {
            cur.push(c);
            prev = Some(c);
            k = k + 1;
            assert(at_rows(flat@, k0, prev0, cur0, acc0) == at_rows(flat@, k as int, prev, cur@,
                accv));
        }
    }
    if cur.len() > 0 {
        rows.push(cur);
        proof {
            accv = accv + seq![fin[fin.len() - 1]];
        }
    }
    assert(rows@.len() == fin.len());
    assert(forall|j: int| 0 <= j < rows@.len() ==> #[trigger] rows@[j]@ == fin[j]);
    // split each row at commas and move to strings
    let mut out: Vec<Vec<String>> = Vec::new();
    let mut ri: usize = 0;
    let ghost target = spec_parse_at_2d(input@);
    proof {
        assert(target.len() == fin.len());
    }
    while ri < rows.len()
        invariant
            0 <= ri <= rows@.len(),
            rows@.len() == fin.len(),
            forall|j: int| 0 <= j < rows@.len() ==> #[trigger] rows@[j]@ == fin[j],
            target == spec_parse_at_2d(input@),
            target.len() == fin.len(),
            forall|j: int| 0 <= j < fin.len() ==> #[trigger] target[j] == spec_split(fin[j], ','),
            out@.len() == ri,
            forall|j: int| 0 <= j < ri ==> #[trigger] out@[j]@.len() == target[j].len(),
            forall|j: int, l: int|
                0 <= j < ri && 0 <= l < out@[j]@.len() ==> #[trigger] out@[j]@[l]@
                    == target[j][l],
        decreases rows@.len() - ri,
    {
        let fields = split_chars(&rows[ri], ',');
        proof {
            lemma_nested_view(&fields);
        }
        let mut srow: Vec<String> = Vec::new();
        let mut fi: usize = 0;
        while fi < fields.len()
            invariant
                0 <= fi <= fields@.len(),
                srow@.len() == fi,
                forall|l: int| 0 <= l < fi ==> #[trigger] srow@[l]@ == fields@[l]@,
            decreases fields@.len() - fi,
        {
            let s = string_of(&fields[fi]);
            srow.push(s);
            fi = fi + 1;
        }
        proof {
            assert(fields.deep_view() == spec_split(rows@[ri as int]@, ','));
            assert forall|l: int| 0 <= l < srow@.len() implies #[trigger] srow@[l]@
                == target[ri as int][l] by {
                assert(srow@[l]@ == fields@[l]@);
                assert(fields@[l]@ == fields.deep_view()[l]);
            }
        }
        out.push(srow);
        ri = ri + 1;
    }
    out
}

} // verus!
