//! Command-line arguments of the guard's runner:
//! `--config path`, `--repeat n`, an optional `--`, then the command.

use vstd::prelude::*;
use vstd::string::*;

verus! {

/// Whether `c` is an ASCII decimal digit.
pub open spec fn is_digit(c: char) -> bool {
    '0' <= c && c <= '9'
}

/// The value of a string of decimal digits.
pub open spec fn digits_value(d: Seq<char>) -> nat
    decreases d.len(),
{
    if d.len() == 0 {
        0
    } else {
        digits_value(d.drop_last()) * 10 + (d.last() as nat - '0' as nat) as nat
    }
}

/// Whether every character of `d` is an ASCII decimal digit.
pub open spec fn all_digits(d: Seq<char>) -> bool {
    forall|i: int| 0 <= i < d.len() ==> is_digit(#[trigger] d[i])
}

/// The digits of a decimal numeral: what follows an optional leading `+`.
pub open spec fn unsigned_digits(s: Seq<char>) -> Seq<char> {
    if s.len() > 0 && s[0] == '+' {
        s.drop_first()
    } else {
        s
    }
}

/// A `u32` written in decimal: an optional `+`, then one or more ASCII
/// digits, with a value that fits; anything else reads as nothing.
pub open spec fn decimal_u32(s: Seq<char>) -> Option<u32> {
    if unsigned_digits(s).len() > 0 && all_digits(unsigned_digits(s)) && digits_value(
        unsigned_digits(s),
    ) <= u32::MAX {
        Some(digits_value(unsigned_digits(s)) as u32)
    } else {
        None
    }
}

/// A numeral's value is at least the value of any of its prefixes.
pub proof fn lemma_digits_prefix(d: Seq<char>, m: int)
    requires
        0 <= m <= d.len(),
        all_digits(d),
    ensures
        digits_value(d.take(m)) <= digits_value(d),
    decreases d.len(),
{
    if m < d.len() {
        let e = d.drop_last();
        assert(all_digits(e)) by {
            assert forall|i: int| 0 <= i < e.len() implies is_digit(#[trigger] e[i]) by {
                assert(e[i] == d[i]);
            }
        }
        lemma_digits_prefix(e, m);
        assert(e.take(m) =~= d.take(m));
        assert(is_digit(d[d.len() - 1]));
    } else {
        assert(d.take(m) =~= d);
    }
}

/// Reads a `u32` numeral as `str::parse::<u32>` does: an optional `+`, then
/// ASCII digits only, with a value that fits; `None` for anything else.
pub fn parse_u32(s: &str) -> (n: Option<u32>)
    ensures
        n == decimal_u32(s@),
{
    let len = s.unicode_len();
    let mut start: usize = 0;
    if len > 0 && s.get_char(0) == '+' {
        start = 1;
    }
    let ghost d = unsigned_digits(s@);
    assert(d =~= s@.subrange(start as int, len as int));
    if start >= len {
        return None;
    }
    let mut value: u64 = 0;
    let mut k: usize = start;
    assert(s@.subrange(start as int, k as int) =~= Seq::<char>::empty());
    while k < len
        invariant
            start <= k <= len,
            start < len,
            len == s@.len(),
            d == s@.subrange(start as int, len as int),
            d == unsigned_digits(s@),
            all_digits(s@.subrange(start as int, k as int)),
            value == digits_value(s@.subrange(start as int, k as int)),
            value <= u32::MAX,
        decreases len - k,
    {
        let c = s.get_char(k);
        let ghost prefix = s@.subrange(start as int, k + 1);
        assert(prefix.drop_last() =~= s@.subrange(start as int, k as int));
        assert(prefix.last() == c);
        assert(d.take(k + 1 - start) =~= prefix);
        if c < '0' || c > '9' {
            assert(d[k - start] == c);
            assert(!all_digits(d));
            return None;
        }
        let digit: u64 = (c as u32 - '0' as u32) as u64;
        value = value * 10 + digit;
        assert(value == digits_value(prefix));
        assert(all_digits(prefix)) by {
            assert forall|i: int| 0 <= i < prefix.len() implies is_digit(#[trigger] prefix[i]) by {
                if i < prefix.len() - 1 {
                    assert(prefix[i] == s@.subrange(start as int, k as int)[i]);
                }
            }
        }
        if value > 0xffff_ffff {
            proof {
                if all_digits(d) {
                    lemma_digits_prefix(d, k + 1 - start);
                }
            }
            return None;
        }
        k = k + 1;
    }
    assert(s@.subrange(start as int, k as int) =~= d);
    Some(value as u32)
}

/// Whether an argument starts like a flag.
pub open spec fn flag_like(s: Seq<char>) -> bool {
    s.len() >= 2 && s[0] == '-' && s[1] == '-'
}

/// What the flags from position `i` on say, given what the flags before
/// them set: the config path, the repeat count and where the command begins;
/// or the message of the first error.
pub open spec fn parse_from(
    args: Seq<Seq<char>>,
    i: int,
    config: Option<Seq<char>>,
    repeat: Option<u32>,
) -> Result<(Option<Seq<char>>, Option<u32>, int), Seq<char>>
    decreases args.len() - i,
{
    if i < 0 || i >= args.len() {
        Ok((config, repeat, i))
    } else if args[i] == "--"@ {
        Ok((config, repeat, i + 1))
    } else if args[i] == "--config"@ {
        if i + 1 < args.len() {
            parse_from(args, i + 2, Some(args[i + 1]), repeat)
        } else {
            Err("--config requires a path"@)
        }
    } else if args[i] == "--repeat"@ {
        if i + 1 < args.len() {
            match decimal_u32(args[i + 1]) {
                Some(n) => parse_from(args, i + 2, config, Some(n)),
                None => Err("invalid --repeat value: "@ + args[i + 1]),
            }
        } else {
            Err("--repeat requires a number"@)
        }
    } else if flag_like(args[i]) {
        Err("unknown flag: "@ + args[i] + " (expected --config, --repeat, or --)"@)
    } else {
        Ok((config, repeat, i))
    }
}

/// What a command line (program name first) says: the config path, the
/// repeat count and the command with its arguments; or an error message.
pub open spec fn parsed_command_line(args: Seq<Seq<char>>) -> Result<
    (Option<Seq<char>>, Option<u32>, Seq<Seq<char>>),
    Seq<char>,
> {
    match parse_from(args, 1, None, None) {
        Ok((config, repeat, start)) => Ok((config, repeat, args.subrange(start, args.len() as int))),
        Err(message) => Err(message),
    }
}

/// Where the flags stop, the command begins: at the end, right after a `--`,
/// or at the first argument that does not look like a flag.
pub proof fn lemma_parse_stops_at_command(
    args: Seq<Seq<char>>,
    i: int,
    config: Option<Seq<char>>,
    repeat: Option<u32>,
)
    requires
        0 <= i <= args.len(),
    ensures
        parse_from(args, i, config, repeat) matches Ok((c, r, start)) ==> {
            &&& i <= start <= args.len()
            &&& start == args.len() || (start >= 1 && args[start - 1] == "--"@) || !flag_like(
                args[start],
            )
        },
    decreases args.len() - i,
{
    if i < args.len() {
        if args[i] == "--"@ {
        } else if args[i] == "--config"@ {
            if i + 1 < args.len() {
                lemma_parse_stops_at_command(args, i + 2, Some(args[i + 1]), repeat);
            }
        } else if args[i] == "--repeat"@ {
            if i + 1 < args.len() {
                if let Some(n) = decimal_u32(args[i + 1]) {
                    lemma_parse_stops_at_command(args, i + 2, config, Some(n));
                }
            }
        }
    }
}

/// The command is what follows the leading flags: a suffix of the command
/// line that is empty, follows a `--`, or starts with an argument that does
/// not look like a flag.
pub proof fn lemma_command_follows_flags(args: Seq<Seq<char>>)
    requires
        args.len() >= 1,
    ensures
        parsed_command_line(args) matches Ok((c, r, rest)) ==> {
            &&& rest == args.subrange(args.len() - rest.len(), args.len() as int)
            &&& rest.len() < args.len()
            &&& rest.len() == 0 || args[args.len() - rest.len() - 1] == "--"@ || !flag_like(rest[0])
        },
{
    lemma_parse_stops_at_command(args, 1, None, None);
}

/// The strings of `v`, as what they read.
pub open spec fn texts(v: Seq<String>) -> Seq<Seq<char>> {
    v.map_values(|s: String| s@)
}

/// What an optional string reads.
pub open spec fn text_of(s: Option<String>) -> Option<Seq<char>> {
    match s {
        Some(c) => Some(c@),
        None => None,
    }
}

/// What a result of `parse_args` says.
pub open spec fn parsed_view(r: Result<(Option<String>, Option<u32>, Vec<String>), String>) -> Result<
    (Option<Seq<char>>, Option<u32>, Seq<Seq<char>>),
    Seq<char>,
> {
    match r {
        Ok((config, repeat, rest)) => Ok(
            (
                text_of(config),
                repeat,
                texts(rest@),
            ),
        ),
        Err(message) => Err(message@),
    }
}

/// Parses argv (argv[0] = program name).  Supports `--config`, `--repeat`,
/// an optional `--`, then the command and its arguments; the command may
/// follow the flags without `--`.  Unknown flags are errors.
pub fn parse_args(args: &[String]) -> (parsed: Result<(Option<String>, Option<u32>, Vec<String>), String>)
    requires
        args.len() >= 1,
    ensures
        parsed_view(parsed) == parsed_command_line(texts(args@)),
{
    let ghost all = texts(args@);
    let dashes = "--".to_owned();
    let config_flag = "--config".to_owned();
    let repeat_flag = "--repeat".to_owned();
    let mut config_path: Option<String> = None;
    let mut repeat_n: Option<u32> = None;
    let mut i: usize = 1;
    while i < args.len()
        invariant_except_break
            1 <= i <= args.len(),
            all == texts(args@),
            dashes@ == "--"@,
            config_flag@ == "--config"@,
            repeat_flag@ == "--repeat"@,
            parse_from(all, i as int, text_of(config_path), repeat_n) == parse_from(
                all,
                1,
                None,
                None,
            ),
        ensures
            1 <= i <= args.len(),
            parse_from(all, 1, None, None) == Ok::<_, Seq<char>>(
                (text_of(config_path), repeat_n, i as int),
            ),
        decreases args.len() - i,
    {
        let arg = &args[i];
        assert(all[i as int] == arg@);
        if *arg == dashes {
            i = i + 1;
            break;
        } else if *arg == config_flag {
            if i + 1 >= args.len() {
                return Err("--config requires a path".to_owned());
            }
            config_path = Some(args[i + 1].clone());
            i = i + 2;
        } else if *arg == repeat_flag {
            if i + 1 >= args.len() {
                return Err("--repeat requires a number".to_owned());
            }
            let value = &args[i + 1];
            assert(all[i + 1] == value@);
            match parse_u32(value.as_str()) {
                Some(n) => {
                    repeat_n = Some(n);
                },
                None => {
                    let message = "invalid --repeat value: ".to_owned().concat(value.as_str());
                    return Err(message);
                },
            }
            i = i + 2;
        } else if arg.as_str().unicode_len() >= 2 && arg.as_str().get_char(0) == '-'
            && arg.as_str().get_char(1) == '-' {
            let message = "unknown flag: ".to_owned().concat(arg.as_str()).concat(
                " (expected --config, --repeat, or --)",
            );
            return Err(message);
        } else {
            break;
        }
    }
    let mut rest: Vec<String> = Vec::new();
    let mut j: usize = i;
    while j < args.len()
        invariant
            i <= j <= args.len(),
            all == texts(args@),
            texts(rest@) == all.subrange(i as int, j as int),
        decreases args.len() - j,
    {
        let ghost before = rest@;
        rest.push(args[j].clone());
        assert(texts(rest@) =~= texts(before).push(all[j as int]));
        assert(all.subrange(i as int, j + 1) =~= all.subrange(i as int, j as int).push(all[j as int]));
        j = j + 1;
    }
    Ok((config_path, repeat_n, rest))
}

} // verus!
