use vstd::prelude::*;
use vstd::string::{StrSliceExecFns, StringExecFns};

verus! {

/// Process-wide snapshot consulted when an allocator is constructed: where
/// the guest heap begins and whether every `malloc` starts with a sweep.
#[derive(Clone, Copy, PartialEq, Eq, Structural, Debug)]
pub struct RuntimeConfig {
    pub heap_base: u32,
    pub canary_check_on_alloc: bool,
}

impl Default for RuntimeConfig {
    /// The snapshot of a process where no command line was applied.
    fn default() -> (r: Self)
        ensures
            r.heap_base == 0,
            !r.canary_check_on_alloc,
    {
        RuntimeConfig { heap_base: 0, canary_check_on_alloc: false }
    }
}

/// The command-line surface: which module to run, where its heap begins,
/// whether to sweep canaries on every `malloc`, and which export to invoke.
#[derive(Clone, Debug)]
pub struct Config {
    pub file: String,
    pub heap_base: u32,
    pub canary_check_on_alloc: bool,
    pub entrypoint: String,
}

/// The mathematical content of a parsed command line. `file` stays `None`
/// until the required `-f` option was seen.
pub struct SpecConfig {
    pub file: Option<Seq<char>>,
    pub heap_base: int,
    pub canary_check_on_alloc: bool,
    pub entrypoint: Seq<char>,
}

/// `c` is a decimal digit.
pub open spec fn is_dec_digit(c: char) -> bool {
    48 <= c as int <= 57
}

/// `s` is a non-empty run of decimal digits.
pub open spec fn is_dec_digits(s: Seq<char>) -> bool {
    &&& s.len() >= 1
    &&& forall|k: int| 0 <= k < s.len() ==> is_dec_digit(#[trigger] s[k])
}

/// The number a run of decimal digits denotes.
pub open spec fn dec_value(s: Seq<char>) -> int
    decreases s.len(),
{
    if s.len() == 0 {
        0
    } else {
        dec_value(s.drop_last()) * 10 + (s.last() as int - 48)
    }
}

/// The value of a digit run is never negative.
pub proof fn lemma_dec_value_nonneg(s: Seq<char>)
    requires
        forall|k: int| 0 <= k < s.len() ==> is_dec_digit(#[trigger] s[k]),
    ensures
        dec_value(s) >= 0,
    decreases s.len(),
{
    if s.len() > 0 {
        lemma_dec_value_nonneg(s.drop_last());
    }
}

/// Reading more digits can only grow the denoted value.
pub proof fn lemma_dec_value_prefix_le(s: Seq<char>, i: int)
    requires
        0 <= i <= s.len(),
        forall|k: int| 0 <= k < s.len() ==> is_dec_digit(#[trigger] s[k]),
    ensures
        dec_value(s.subrange(0, i)) <= dec_value(s),
    decreases s.len() - i,
{
    if i == s.len() {
        assert(s.subrange(0, i) =~= s);
    } else {
        lemma_dec_value_prefix_le(s, i + 1);
        let p = s.subrange(0, i + 1);
        assert(p.drop_last() =~= s.subrange(0, i));
        lemma_dec_value_nonneg(p.drop_last());
        assert(dec_value(p) == dec_value(s.subrange(0, i)) * 10 + (s[i] as int - 48));
    }
}

/// Parses a non-empty, all-digit decimal string into a 32-bit value;
/// anything else, or a value above `u32::MAX`, is rejected.
pub fn parse_u32(s: &str) -> (r: Option<u32>)
    ensures
        r matches Some(v) ==> is_dec_digits(s@) && dec_value(s@) == v,
        r is Some <==> is_dec_digits(s@) && dec_value(s@) <= u32::MAX,
{
    let n = s.unicode_len();
    if n == 0 {
        return None;
    }
    let mut acc: u32 = 0;
    let mut i: usize = 0;
    while i < n
        invariant
            0 <= i <= n,
            n == s@.len(),
            forall|k: int| 0 <= k < i ==> is_dec_digit(#[trigger] s@[k]),
            acc == dec_value(s@.subrange(0, i as int)),
        decreases n - i,
    {
        let c = s.get_char(i);
        let d32 = c as u32;
        if d32 < 48 || d32 > 57 {
            return None;
        }
        let d = d32 - 48;
        proof {
            assert(s@.subrange(0, i + 1).drop_last() =~= s@.subrange(0, i as int));
            assert(s@.subrange(0, i + 1).last() == s@[i as int]);
        }
        if acc > (u32::MAX - d) / 10 {
            proof {
                if is_dec_digits(s@) {
                    lemma_dec_value_prefix_le(s@, i + 1);
                    assert(dec_value(s@.subrange(0, i + 1)) == acc * 10 + d);
                    assert(acc * 10 + d > u32::MAX);
                }
            }
            return None;
        }
        assert(acc * 10 + d <= u32::MAX);
        acc = acc * 10 + d;
        i = i + 1;
    }
    proof {
        assert(s@.subrange(0, n as int) =~= s@);
    }
    Some(acc)
}

/// One step of command-line scanning, from position `i` with the values
/// accumulated so far. An unknown word, or an option at the end with its
/// value missing or malformed, rejects the whole command line.
pub open spec fn parse_args_from(args: Seq<Seq<char>>, i: int, acc: SpecConfig) -> Option<
    SpecConfig,
>
    decreases args.len() - i,
{
    if i < 0 || i >= args.len() {
        Some(acc)
    } else {
        let a = args[i];
        if a == "-f"@ || a == "--file"@ {
            if i + 1 < args.len() {
                parse_args_from(args, i + 2, SpecConfig { file: Some(args[i + 1]), ..acc })
            } else {
                None
            }
        } else if a == "-b"@ || a == "--heap-base"@ {
            if i + 1 < args.len() && is_dec_digits(args[i + 1]) && dec_value(args[i + 1])
                <= u32::MAX {
                parse_args_from(args, i + 2, SpecConfig { heap_base: dec_value(args[i + 1]), ..acc })
            } else {
                None
            }
        } else if a == "-c"@ || a == "--canary-check-on-alloc"@ {
            parse_args_from(args, i + 1, SpecConfig { canary_check_on_alloc: true, ..acc })
        } else if a == "-e"@ || a == "--entrypoint"@ {
            if i + 1 < args.len() {
                parse_args_from(args, i + 2, SpecConfig { entrypoint: args[i + 1], ..acc })
            } else {
                None
            }
        } else {
            None
        }
    }
}

/// The values the command line was parsed before any word was read:
/// heap base 65536, no sweep on `malloc`, entrypoint `main`, no file.
pub open spec fn initial_spec_config() -> SpecConfig {
    SpecConfig {
        file: None,
        heap_base: 65536,
        canary_check_on_alloc: false,
        entrypoint: "main"@,
    }
}

/// What a whole command line (without the program name) denotes: the
/// accumulated values, provided scanning succeeded and `-f` was given.
pub open spec fn spec_parse(args: Seq<Seq<char>>) -> Option<SpecConfig> {
    match parse_args_from(args, 0, initial_spec_config()) {
        Some(acc) => if acc.file is Some {
            Some(acc)
        } else {
            None
        },
        None => None,
    }
}

impl Config {
    /// Parses the command-line words after the program name. Rejects an
    /// unknown word, a missing or malformed option value, and a command
    /// line without `-f`.
    pub fn parse(args: &Vec<String>) -> (r: Option<Config>)
        ensures
            r is Some <==> spec_parse(args.deep_view()) is Some,
            r matches Some(c) ==> (spec_parse(args.deep_view()) matches Some(sc)
                && sc.file == Some(c.file@) && c.heap_base == sc.heap_base
                && c.canary_check_on_alloc == sc.canary_check_on_alloc
                && c.entrypoint@ == sc.entrypoint),
    {
        let flag_f = String::from_str("-f");
        let flag_file = String::from_str("--file");
        let flag_b = String::from_str("-b");
        let flag_base = String::from_str("--heap-base");
        let flag_c = String::from_str("-c");
        let flag_canary = String::from_str("--canary-check-on-alloc");
        let flag_e = String::from_str("-e");
        let flag_entry = String::from_str("--entrypoint");
        let mut file: Option<String> = None;
        let mut heap_base: u32 = 65536;
        let mut canary_check_on_alloc: bool = false;
        let mut entrypoint: String = String::from_str("main");
        let n = args.len();
        let mut i: usize = 0;
        while i < n
            invariant
                0 <= i <= n,
                n == args@.len(),
                flag_f@ == "-f"@,
                flag_file@ == "--file"@,
                flag_b@ == "-b"@,
                flag_base@ == "--heap-base"@,
                flag_c@ == "-c"@,
                flag_canary@ == "--canary-check-on-alloc"@,
                flag_e@ == "-e"@,
                flag_entry@ == "--entrypoint"@,
                parse_args_from(args.deep_view(), 0, initial_spec_config()) == parse_args_from(
                    args.deep_view(),
                    i as int,
                    SpecConfig {
                        file: match file {
                            Some(f) => Some(f@),
                            None => None,
                        },
                        heap_base: heap_base as int,
                        canary_check_on_alloc: canary_check_on_alloc,
                        entrypoint: entrypoint@,
                    },
                ),
            decreases n - i,
        {
            proof {
                assert(args.deep_view()[i as int] == args@[i as int]@);
            }
            let a = &args[i];
            if *a == flag_f || *a == flag_file {
                if i + 1 < n {
                    file = Some(args[i + 1].clone());
                    proof {
                        assert(args.deep_view()[i + 1] == args@[i + 1]@);
                    }
                    i = i + 2;
                } else {
                    return None;
                }
            } else if *a == flag_b || *a == flag_base {
                if i + 1 < n {
                    proof {
                        assert(args.deep_view()[i + 1] == args@[i + 1]@);
                    }
                    match parse_u32(args[i + 1].as_str()) {
                        Some(v) => {
                            heap_base = v;
                            i = i + 2;
                        },
                        None => {
                            return None;
                        },
                    }
                } else {
                    return None;
                }
            } else if *a == flag_c || *a == flag_canary {
                canary_check_on_alloc = true;
                i = i + 1;
            } else if *a == flag_e || *a == flag_entry {
                if i + 1 < n {
                    entrypoint = args[i + 1].clone();
                    proof {
                        assert(args.deep_view()[i + 1] == args@[i + 1]@);
                    }
                    i = i + 2;
                } else {
                    return None;
                }
            } else {
                return None;
            }
        }
        match file {
            Some(f) => Some(
                Config { file: f, heap_base, canary_check_on_alloc, entrypoint },
            ),
            None => None,
        }
    }
}

impl RuntimeConfig {
    /// The process-wide snapshot the allocator is built from: the values of
    /// the parsed command line, or the defaults when none was applied.
    pub fn current(parsed: Option<&Config>) -> (r: RuntimeConfig)
        ensures
            parsed matches Some(c) ==> r.heap_base == c.heap_base && r.canary_check_on_alloc
                == c.canary_check_on_alloc,
            parsed is None ==> r.heap_base == 0 && !r.canary_check_on_alloc,
    {
        match parsed {
            Some(c) => RuntimeConfig {
                heap_base: c.heap_base,
                canary_check_on_alloc: c.canary_check_on_alloc,
            },
            None => RuntimeConfig::default(),
        }
    }
}

} // verus!
