use crate::fault::Fault;
use crate::plan::Summary;
use vstd::prelude::*;
use vstd::string::StringExecFns;

verus! {

/// The character for one decimal digit.
pub open spec fn dec_digit_char(d: int) -> char {
    ((48 + d) as u8) as char
}

/// The decimal numeral denoting `n`, most significant digit first.
pub open spec fn dec_string(n: nat) -> Seq<char>
    decreases n,
{
    if n < 10 {
        seq![dec_digit_char(n as int)]
    } else {
        dec_string(n / 10).push(dec_digit_char((n % 10) as int))
    }
}

/// The numeral for one digit.
fn digit_str(d: u64) -> (r: &'static str)
    requires
        d < 10,
    ensures
        r@ == seq![dec_digit_char(d as int)],
{
    proof {
        reveal_strlit("0");
        reveal_strlit("1");
        reveal_strlit("2");
        reveal_strlit("3");
        reveal_strlit("4");
        reveal_strlit("5");
        reveal_strlit("6");
        reveal_strlit("7");
        reveal_strlit("8");
        reveal_strlit("9");
    }
    let r = match d {
        0 => "0",
        1 => "1",
        2 => "2",
        3 => "3",
        4 => "4",
        5 => "5",
        6 => "6",
        7 => "7",
        8 => "8",
        _ => "9",
    };
    proof {
        assert(r@ =~= seq![dec_digit_char(d as int)]);
    }
    r
}

/// Renders `n` in decimal.
pub fn dec_str(n: u64) -> (r: String)
    ensures
        r@ == dec_string(n as nat),
    decreases n,
{
    if n < 10 {
        String::from_str(digit_str(n))
    } else {
        let mut s = dec_str(n / 10);
        s.append(digit_str(n % 10));
        proof {
            assert(s@ =~= dec_string(n as nat));
        }
        s
    }
}

/// The three diagnostic lines reported when the guest terminates.
pub open spec fn summary_lines_spec(s: Summary) -> Seq<Seq<char>> {
    seq![
        "Allocations:  "@ + dec_string(s.alloc_count as nat),
        "Leaked:       "@ + dec_string(s.leaked as nat),
        "Memory usage: "@ + dec_string(s.alloc_total_usage as nat) + " bytes"@,
    ]
}

/// Renders the termination summary, one line per counter.
pub fn summary_lines(s: &Summary) -> (r: Vec<String>)
    ensures
        r.deep_view() == summary_lines_spec(*s),
{
    let mut line1 = String::from_str("Allocations:  ");
    line1.append(dec_str(s.alloc_count).as_str());
    let mut line2 = String::from_str("Leaked:       ");
    line2.append(dec_str(s.leaked).as_str());
    let mut line3 = String::from_str("Memory usage: ");
    line3.append(dec_str(s.alloc_total_usage).as_str());
    line3.append(" bytes");
    let mut r: Vec<String> = Vec::new();
    r.push(line1);
    r.push(line2);
    r.push(line3);
    proof {
        assert(r.deep_view() =~= summary_lines_spec(*s));
    }
    r
}

/// The exact diagnostic a fault aborts the process with.
pub open spec fn fault_message_spec(f: Fault) -> Seq<char> {
    match f {
        Fault::InvalidFree { start } => "free()ing invalid offset "@ + dec_string(start as nat),
        Fault::OverFree => "free()ing unallocated memory"@,
        Fault::Corruption { offset, base } => "Corruption detected at offset "@ + dec_string(
            offset as nat,
        ) + " (base: "@ + dec_string(base as nat) + ")"@,
    }
}

/// Renders the diagnostic for a fault.
pub fn fault_message(f: &Fault) -> (r: String)
    ensures
        r@ == fault_message_spec(*f),
{
    match f {
        Fault::InvalidFree { start } => {
            let mut s = String::from_str("free()ing invalid offset ");
            s.append(dec_str(*start as u64).as_str());
            proof {
                assert(s@ =~= fault_message_spec(*f));
            }
            s
        },
        Fault::OverFree => String::from_str("free()ing unallocated memory"),
        Fault::Corruption { offset, base } => {
            let mut s = String::from_str("Corruption detected at offset ");
            s.append(dec_str(*offset as u64).as_str());
            s.append(" (base: ");
            s.append(dec_str(*base as u64).as_str());
            s.append(")");
            proof {
                assert(s@ =~= fault_message_spec(*f));
            }
            s
        },
    }
}

/// The line printed for one `debug_val` call from the guest.
pub open spec fn debug_line_spec(val: int) -> Seq<char> {
    "Debug: ["@ + dec_string(val as nat) + "]"@
}

/// Renders the `debug_val` line.
pub fn debug_line(val: u32) -> (r: String)
    ensures
        r@ == debug_line_spec(val as int),
{
    let mut s = String::from_str("Debug: [");
    s.append(dec_str(val as u64).as_str());
    s.append("]");
    proof {
        assert(s@ =~= debug_line_spec(val as int));
    }
    s
}

} // verus!
