//! System telemetry formatting: the uptime display string and the CPU
//! model lookup.

use vstd::prelude::*;
use crate::cells::spec_join;
use crate::text::{dec_digits, str_eq, string_of, append_str, push_dec_u64};

verus! {

/// The displayed uptime components: days, hours and minutes when
/// non-zero, and the seconds whenever shown alone or non-zero.
pub open spec fn spec_uptime_parts(seconds: nat) -> Seq<Seq<char>> {
    let days = seconds / 86400;
    let hours = (seconds % 86400) / 3600;
    let minutes = (seconds % 3600) / 60;
    let secs = seconds % 60;
    let base = (if days > 0 {
        seq![dec_digits(days) + "\u{5929}"@]
    } else {
        Seq::<Seq<char>>::empty()
    }) + (if hours > 0 {
        seq![dec_digits(hours) + "\u{5c0f}\u{65f6}"@]
    } else {
        Seq::<Seq<char>>::empty()
    }) + (if minutes > 0 {
        seq![dec_digits(minutes) + "\u{5206}\u{949f}"@]
    } else {
        Seq::<Seq<char>>::empty()
    });
    if base.len() == 0 || secs > 0 {
        base + seq![dec_digits(secs) + "\u{79d2}"@]
    } else {
        base
    }
}

/// The uptime display string: the components joined with spaces.
pub open spec fn spec_format_uptime(seconds: nat) -> Seq<char> {
    spec_join(spec_uptime_parts(seconds), ' ')
}

/// Format a second count for display.
pub fn format_uptime(seconds: u64) -> (r: String)
    ensures
        r@ == spec_format_uptime(seconds as nat),
{
    let days = seconds / 86400;
    let hours = (seconds % 86400) / 3600;
    let minutes = (seconds % 3600) / 60;
    let secs = seconds % 60;
    let ghost target = spec_uptime_parts(seconds as nat);
    let mut parts: Vec<Vec<char>> = Vec::new();
    if days > 0 {
        let mut p: Vec<char> = Vec::new();
        push_dec_u64(&mut p, days);
        append_str(&mut p, "\u{5929}");
        parts.push(p);
    }
    if hours > 0 {
        let mut p: Vec<char> = Vec::new();
        push_dec_u64(&mut p, hours);
        append_str(&mut p, "\u{5c0f}\u{65f6}");
        parts.push(p);
    }
    if minutes > 0 {
        let mut p: Vec<char> = Vec::new();
        push_dec_u64(&mut p, minutes);
        append_str(&mut p, "\u{5206}\u{949f}");
        parts.push(p);
    }
    if parts.len() == 0 || secs > 0 {
        let mut p: Vec<char> = Vec::new();
        push_dec_u64(&mut p, secs);
        append_str(&mut p, "\u{79d2}");
        parts.push(p);
    }
    proof {
        crate::text::lemma_nested_view(&parts);
        assert(parts.deep_view() =~~= target);
    }
    let mut joined: Vec<char> = Vec::new();
    let mut i: usize = 0;
    assert(joined@ =~= spec_join(target.take(0), ' '));
    while i < parts.len()
        invariant
            0 <= i <= parts@.len(),
            parts@.len() == target.len(),
            forall|j: int| 0 <= j < parts@.len() ==> #[trigger] parts@[j]@ == target[j],
            joined@ == spec_join(target.take(i as int), ' '),
        decreases parts@.len() - i,
    {
        if i > 0 {
            joined.push(' ');
        }
        let ghost mid = joined@;
        let mut k: usize = 0;
        while k < parts[i].len()
            invariant
                0 <= k <= parts@[i as int]@.len(),
                0 <= i < parts@.len(),
                joined@ == mid + parts@[i as int]@.take(k as int),
            decreases parts@[i as int]@.len() - k,
        {
            let c = parts[i][k];
            joined.push(c);
            assert(joined@ =~= mid + parts@[i as int]@.take(k + 1));
            k = k + 1;
        }
        proof {
            assert(parts@[i as int]@.take(parts@[i as int]@.len() as int) =~= parts@[
                i as int
            ]@);
            assert(target.take(i + 1).drop_last() =~= target.take(i as int));
            assert(target.take(i + 1)[i as int] == target[i as int]);
            if i == 0 {
                assert(joined@ =~= spec_join(target.take(1), ' '));
            } else {
                assert(joined@ =~= spec_join(target.take(i as int), ' ') + seq![' ']
                    + target[i as int]);
                assert(joined@ =~= spec_join(target.take(i + 1), ' '));
            }
        }
        i = i + 1;
    }
    proof {
        assert(target.take(target.len() as int) =~= target);
    }
    string_of(&joined)
}

/// The CPU model named by an implementer and part code: the known ARM
/// cores by part number, with descriptive fallbacks.
pub open spec fn spec_identify_cpu(implementer: Seq<char>, part: Seq<char>) -> Seq<char> {
    if implementer == "0x41"@ {
        if part == "0xd05"@ {
            "ARM Cortex-A55"@
        } else if part == "0xd0a"@ {
            "ARM Cortex-A75"@
        } else if part == "0xd0b"@ {
            "ARM Cortex-A76"@
        } else if part == "0xd0c"@ {
            "ARM Neoverse N1"@
        } else if part == "0xd0d"@ {
            "ARM Cortex-A77"@
        } else if part == "0xd0e"@ {
            "ARM Cortex-A76AE"@
        } else if part == "0xd40"@ {
            "ARM Neoverse V1"@
        } else if part == "0xd41"@ {
            "ARM Cortex-A78"@
        } else if part == "0xd44"@ {
            "ARM Cortex-X1"@
        } else if part == "0xd46"@ {
            "ARM Cortex-A510"@
        } else if part == "0xd47"@ {
            "ARM Cortex-A710"@
        } else if part == "0xd48"@ {
            "ARM Cortex-X2"@
        } else if part == "0xd49"@ {
            "ARM Neoverse N2"@
        } else if part == "0xd4a"@ {
            "ARM Neoverse E1"@
        } else if part == "0xd4b"@ {
            "ARM Cortex-A78AE"@
        } else if part == "0xd4c"@ {
            "ARM Cortex-X1C"@
        } else if part == "0xd4d"@ {
            "ARM Cortex-A715"@
        } else if part == "0xd4e"@ {
            "ARM Cortex-X3"@
        } else {
            "ARM CPU (part: "@ + part + ")"@
        }
    } else {
        "CPU (implementer: "@ + implementer + ", part: "@ + part + ")"@
    }
}

/// Name the CPU model from the implementer and part codes.
pub fn identify_cpu_model(implementer: &str, part: &str) -> (r: String)
    ensures
        r@ == spec_identify_cpu(implementer@, part@),
{
    if str_eq(implementer, "0x41") {
        if str_eq(part, "0xd05") {
            String::from_str("ARM Cortex-A55")
        } else if str_eq(part, "0xd0a") {
            String::from_str("ARM Cortex-A75")
        } else if str_eq(part, "0xd0b") {
            String::from_str("ARM Cortex-A76")
        } else if str_eq(part, "0xd0c") {
            String::from_str("ARM Neoverse N1")
        } else if str_eq(part, "0xd0d") {
            String::from_str("ARM Cortex-A77")
        } else if str_eq(part, "0xd0e") {
            String::from_str("ARM Cortex-A76AE")
        } else if str_eq(part, "0xd40") {
            String::from_str("ARM Neoverse V1")
        } else if str_eq(part, "0xd41") {
            String::from_str("ARM Cortex-A78")
        } else if str_eq(part, "0xd44") {
            String::from_str("ARM Cortex-X1")
        } else if str_eq(part, "0xd46") {
            String::from_str("ARM Cortex-A510")
        } else if str_eq(part, "0xd47") {
            String::from_str("ARM Cortex-A710")
        } else if str_eq(part, "0xd48") {
            String::from_str("ARM Cortex-X2")
        } else if str_eq(part, "0xd49") {
            String::from_str("ARM Neoverse N2")
        } else if str_eq(part, "0xd4a") {
            String::from_str("ARM Neoverse E1")
        } else if str_eq(part, "0xd4b") {
            String::from_str("ARM Cortex-A78AE")
        } else if str_eq(part, "0xd4c") {
            String::from_str("ARM Cortex-X1C")
        } else if str_eq(part, "0xd4d") {
            String::from_str("ARM Cortex-A715")
        } else if str_eq(part, "0xd4e") {
            String::from_str("ARM Cortex-X3")
        } else {
            let mut v: Vec<char> = Vec::new();
            append_str(&mut v, "ARM CPU (part: ");
            append_str(&mut v, part);
            append_str(&mut v, ")");
            string_of(&v)
        }
    } else {
        let mut v: Vec<char> = Vec::new();
        append_str(&mut v, "CPU (implementer: ");
        append_str(&mut v, implementer);
        append_str(&mut v, ", part: ");
        append_str(&mut v, part);
        append_str(&mut v, ")");
        string_of(&v)
    }
}

} // verus!
