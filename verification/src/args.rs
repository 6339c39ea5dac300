//! The command line: numbered options with defaults, and the flag for a
//! continuous run.

use vstd::prelude::*;
use vstd::string::StringExecFns;

verus! {

/// Attempts made when `-c` gives no number.
pub const DEFAULT_COUNT: i32 = 4;

/// Payload bytes when `-s` gives no number.
pub const DEFAULT_PAYLOAD_SIZE: i32 = 56;

/// Milliseconds to wait for a reply when `-w` gives no number.
pub const DEFAULT_TIMEOUT_MS: i32 = 1000;

/// The TTL when `-ttl` gives no number.
pub const DEFAULT_TTL: i32 = 128;

/// Whether `c` is one of the ten decimal digits.
pub open spec fn is_digit(c: char) -> bool {
    '0' <= c <= '9'
}

/// The number that the decimal digit `c` stands for.
pub open spec fn digit_value(c: char) -> nat
    recommends
        is_digit(c),
{
    (c as int - '0' as int) as nat
}

/// Whether `digits` holds decimal digits only.
pub open spec fn all_digits(digits: Seq<char>) -> bool {
    forall|i: int| 0 <= i < digits.len() ==> is_digit(#[trigger] digits[i])
}

/// The number that a run of decimal digits stands for.
pub open spec fn digits_value(digits: Seq<char>) -> nat
    decreases digits.len(),
{
    if digits.len() == 0 {
        0
    } else {
        digits_value(digits.drop_last()) * 10 + digit_value(digits.last())
    }
}

/// The number that `text` spells: an optional `+` or `-`, then one or more
/// decimal digits and nothing else, with a value that fits 32 bits with
/// sign. Any other text spells no number.
pub open spec fn number_of(text: Seq<char>) -> Option<i32> {
    let negative = text.len() > 0 && text[0] == '-';
    let signed = text.len() > 0 && (text[0] == '-' || text[0] == '+');
    let digits = if signed {
        text.skip(1)
    } else {
        text
    };
    let value = if negative {
        -(digits_value(digits) as int)
    } else {
        digits_value(digits) as int
    };
    if digits.len() > 0 && all_digits(digits) && i32::MIN <= value <= i32::MAX {
        Some(value as i32)
    } else {
        None
    }
}

/// The first index at or after `from` at which `args` holds `option`.
pub open spec fn position_from(args: Seq<String>, option: Seq<char>, from: int) -> Option<int>
    decreases args.len() - from,
{
    if from < 0 || from >= args.len() {
        None
    } else if args[from]@ == option {
        Some(from)
    } else {
        position_from(args, option, from + 1)
    }
}

/// What `option` is set to on the command line `args`: the number spelled
/// by the argument that follows the first occurrence of `option`, and
/// `default` where `option` does not occur, is the last argument, or is
/// followed by something that spells no number.
pub open spec fn argument_value(args: Seq<String>, option: Seq<char>, default: i32) -> i32 {
    match position_from(args, option, 0) {
        Some(at) => if at + 1 < args.len() {
            match number_of(args[at + 1]@) {
                Some(number) => number,
                None => default,
            }
        } else {
            default
        },
        None => default,
    }
}

/// The options of a run as the command line gives them.
#[derive(Clone, Copy, Debug, PartialEq, Eq, Structural)]
pub struct ProbeOptions {
    /// Attempts to make (`-c`).
    pub count: i32,
    /// Payload bytes per packet (`-s`).
    pub payload_size: i32,
    /// Milliseconds to wait for each reply (`-w`).
    pub timeout_ms: i32,
    /// TTL or hop limit of the packets (`-ttl`).
    pub ttl: i32,
    /// Whether the run goes on until it is stopped from outside (`-t`).
    pub continuous: bool,
}

/// The options that the command line `args` asks for.
pub open spec fn options_of(args: Seq<String>) -> ProbeOptions {
    ProbeOptions {
        count: argument_value(args, "-c"@, DEFAULT_COUNT),
        payload_size: argument_value(args, "-s"@, DEFAULT_PAYLOAD_SIZE),
        timeout_ms: argument_value(args, "-w"@, DEFAULT_TIMEOUT_MS),
        ttl: argument_value(args, "-ttl"@, DEFAULT_TTL),
        continuous: position_from(args, "-t"@, 0) is Some,
    }
}

/// `position_from` finds an occurrence, and the first one: nothing between
/// `from` and the position found is `option`, and where it finds none there
/// is none from `from` on.
pub proof fn lemma_position_is_first(args: Seq<String>, option: Seq<char>, from: int)
    requires
        0 <= from,
    ensures
        match position_from(args, option, from) {
            Some(at) => {
                &&& from <= at < args.len()
                &&& args[at]@ == option
                &&& forall|i: int| from <= i < at ==> (#[trigger] args[i])@ != option
            },
            None => forall|i: int| from <= i < args.len() ==> (#[trigger] args[i])@ != option,
        },
    decreases args.len() - from,
{
    if from < args.len() && args[from]@ != option {
        lemma_position_is_first(args, option, from + 1);
    }
}

/// A run of digits is worth at least as much as any run it starts with.
proof fn lemma_digits_value_grows(digits: Seq<char>, shorter: int)
    requires
        0 <= shorter <= digits.len(),
    ensures
        digits_value(digits.take(shorter)) <= digits_value(digits),
    decreases digits.len(),
{
    if shorter == digits.len() {
        assert(digits.take(shorter) =~= digits);
    } else {
        lemma_digits_value_grows(digits.drop_last(), shorter);
        assert(digits.drop_last().take(shorter) =~= digits.take(shorter));
    }
}

/// Reads the number that `text` spells, if it spells one.
#[verifier::loop_isolation(false)]
pub fn parse_number(text: &str) -> (number: Option<i32>)
    ensures
        number == number_of(text@),
{
    broadcast use vstd::string::is_ascii_spec_bytes;

    let ghost chars = text@;
    let ghost signed = chars.len() > 0 && (chars[0] == '-' || chars[0] == '+');
    let ghost digits = if signed {
        chars.skip(1)
    } else {
        chars
    };
    if !text.is_ascii() {
        proof {
            let odd = choose|i: int|
                0 <= i < chars.len() && !('\0' <= #[trigger] chars[i] && chars[i] <= '\u{7f}');
            if signed {
                assert(digits[odd - 1] == chars[odd]);
            } else {
                assert(digits[odd] == chars[odd]);
            }
        }
        return None;
    }
    let bytes = text.as_bytes();
    let n = bytes.len();
    assert(n == chars.len());
    assert(forall|i: int| 0 <= i < n ==> bytes@[i] == #[trigger] chars[i] as u8);
    if n == 0 {
        return None;
    }
    let negative = bytes[0] == 45u8;
    let start: usize = if negative || bytes[0] == 43u8 {
        1
    } else {
        0
    };
    assert(signed == (start == 1));
    assert(digits =~= chars.skip(start as int));
    if start == n {
        return None;
    }
    let mut magnitude: i64 = 0;
    let mut i: usize = start;
    proof {
        assert(digits.take(0) =~= Seq::<char>::empty());
    }
    while i < n
        invariant
            start <= i <= n,
            n == chars.len(),
            n == bytes@.len(),
            digits == chars.skip(start as int),
            forall|k: int| 0 <= k < n ==> bytes@[k] == #[trigger] chars[k] as u8,
            forall|k: int| 0 <= k < n ==> '\0' <= #[trigger] chars[k] <= '\u{7f}',
            all_digits(digits.take(i - start)),
            magnitude == digits_value(digits.take(i - start)),
            0 <= magnitude <= 0x8000_0000,
        decreases n - i,
    {
        let byte = bytes[i];
        let ghost c = chars[i as int];
        assert(digits[i - start] == c);
        if byte < 48 || byte > 57 {
            assert(!is_digit(c));
            return None;
        }
        assert(is_digit(c));
        assert(digit_value(c) == byte - 48);
        proof {
            let longer = digits.take(i - start + 1);
            assert(longer.drop_last() =~= digits.take(i - start));
            assert(longer.last() == c);
            assert forall|k: int| 0 <= k < longer.len() implies is_digit(#[trigger] longer[k]) by {
                if k < longer.len() - 1 {
                    assert(digits.take(i - start)[k] == longer[k]);
                }
            }
        }
        magnitude = magnitude * 10 + (byte - 48) as i64;
        if magnitude > 0x8000_0000 {
            proof {
                lemma_digits_value_grows(digits, i - start + 1);
            }
            return None;
        }
        i = i + 1;
    }
    assert(digits.take(i - start) =~= digits);
    if negative {
        Some((-magnitude) as i32)
    } else if magnitude > 0x7FFF_FFFF {
        None
    } else {
        Some(magnitude as i32)
    }
}

/// Finds the first argument at or after `from` that is `option`.
fn find_option(args: &[String], option: &String, from: usize) -> (found: Option<usize>)
    ensures
        match found {
            Some(at) => position_from(args@, option@, from as int) == Some(at as int),
            None => position_from(args@, option@, from as int) is None,
        },
{
    let mut i: usize = from;
    while i < args.len()
        invariant
            from <= i,
            position_from(args@, option@, from as int) == position_from(args@, option@, i as int),
        decreases args.len() - i,
    {
        if args[i] == *option {
            return Some(i);
        }
        i = i + 1;
    }
    None
}

/// Tells whether `option` is among `args`.
pub fn has_option(args: &[String], option: &str) -> (present: bool)
    ensures
        present == (position_from(args@, option@, 0) is Some),
{
    let wanted = String::from_str(option);
    find_option(args, &wanted, 0).is_some()
}

/// Reads the number that `option` is set to on the command line `args`,
/// and gives `default` where it is not set to one.
pub fn get_argument(args: &[String], option: &str, default: i32) -> (value: i32)
    ensures
        value == argument_value(args@, option@, default),
{
    let wanted = String::from_str(option);
    match find_option(args, &wanted, 0) {
        Some(at) => {
            if at < args.len() - 1 {
                match parse_number(args[at + 1].as_str()) {
                    Some(number) => number,
                    None => default,
                }
            } else {
                default
            }
        },
        None => default,
    }
}

/// Reads the options of a run from the command line `args`: `-c`, `-s`,
/// `-w` and `-ttl` each with a number behind it, and the flag `-t`.
pub fn parse_options(args: &[String]) -> (options: ProbeOptions)
    ensures
        options == options_of(args@),
{
    ProbeOptions {
        count: get_argument(args, "-c", DEFAULT_COUNT),
        payload_size: get_argument(args, "-s", DEFAULT_PAYLOAD_SIZE),
        timeout_ms: get_argument(args, "-w", DEFAULT_TIMEOUT_MS),
        ttl: get_argument(args, "-ttl", DEFAULT_TTL),
        continuous: has_option(args, "-t"),
    }
}

} // verus!
