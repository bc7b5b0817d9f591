//! Reading the values of environment variables.

use vstd::prelude::*;
use vstd::string::StringExecFns;
use vstd::utf8::is_ascii_chars;
use crate::number::{decimal_digits, law_decimal_read_back, parse_unsigned, parsed_unsigned};
use crate::outside::{ascii_lowered, lowercase, text_view, to_lowercase};
use crate::text::{has_suffix, is_space, law_suffix, trim, trimmed};

verus! {

/// A variable that holds a number which may have a fraction: unset, not a
/// number, or the bit pattern of the single-precision number.
#[derive(Clone, Copy, Debug)]
pub enum NumberVar {
    Unset,
    Invalid,
    Number(u32),
}

/// The word means yes.
pub open spec fn is_yes(word: Seq<char>) -> bool {
    word == "1"@ || word == "true"@ || word == "yes"@ || word == "on"@
}

/// The word means no.
pub open spec fn is_no(word: Seq<char>) -> bool {
    word == "0"@ || word == "false"@ || word == "no"@ || word == "off"@
}

/// Reads a word in lower case as yes or no.
pub open spec fn word_as_bool(name: Seq<char>, word: Seq<char>) -> Result<bool, Seq<char>> {
    if is_yes(word) {
        Ok(true)
    } else if is_no(word) {
        Ok(false)
    } else {
        Err(name + " must be one of true|false|1|0|yes|no|on|off, got: "@ + word)
    }
}

/// Value of a yes-or-no variable.
pub open spec fn bool_value(
    name: Seq<char>,
    value: Option<Seq<char>>,
    default: bool,
) -> Result<bool, Seq<char>> {
    match value {
        Some(text) => word_as_bool(name, lowercase(trimmed(text))),
        None => Ok(default),
    }
}

/// Value of a variable that holds an integer between zero and `max`; `None` if it
/// holds something else.
pub open spec fn unsigned_value(value: Option<Seq<char>>, max: int, default: int) -> Option<int> {
    match value {
        Some(text) => parsed_unsigned(text, max),
        None => Some(default),
    }
}

/// Value of a variable that holds a number with a fraction; `None` if it holds
/// something else.
pub open spec fn number_value(value: NumberVar, default: u32) -> Option<u32> {
    match value {
        NumberVar::Unset => Some(default),
        NumberVar::Invalid => None,
        NumberVar::Number(bits) => Some(bits),
    }
}

/// What the outcome of reading a yes-or-no variable says.
pub open spec fn bool_outcome(outcome: Result<bool, String>) -> Result<bool, Seq<char>> {
    match outcome {
        Ok(value) => Ok(value),
        Err(reason) => Err(reason@),
    }
}

/// The text is one of four words.
fn is_one_of(word: &str, a: &str, b: &str, c: &str, d: &str) -> (found: bool)
    ensures
        found == (word@ == a@ || word@ == b@ || word@ == c@ || word@ == d@),
{
    let word = word.to_owned();
    word == a.to_owned() || word == b.to_owned() || word == c.to_owned() || word == d.to_owned()
}

/// Reads a word in lower case as yes or no.
pub fn parse_bool_word(name: &str, word: &str) -> (outcome: Result<bool, String>)
    ensures
        bool_outcome(outcome) == word_as_bool(name@, word@),
{
    if is_one_of(word, "1", "true", "yes", "on") {
        Ok(true)
    } else if is_one_of(word, "0", "false", "no", "off") {
        Ok(false)
    } else {
        let mut reason = name.to_owned();
        reason.append(" must be one of true|false|1|0|yes|no|on|off, got: ");
        reason.append(word);
        Err(reason)
    }
}

/// Reads a yes-or-no variable; white space around it and the case of letters do
/// not matter.
pub fn parse_env_bool(name: &str, value: &Option<String>, default: bool) -> (outcome: Result<
    bool,
    String,
>)
    ensures
        bool_outcome(outcome) == bool_value(name@, text_view(*value), default),
        value matches Some(text) ==> is_ascii_chars(trimmed(text@)) ==> bool_outcome(outcome)
            == word_as_bool(name@, ascii_lowered(trimmed(text@))),
{
    match value {
        Some(text) => {
            let word = to_lowercase(trim(text.as_str()).as_str());
            parse_bool_word(name, word.as_str())
        },
        None => Ok(default),
    }
}

/// Reads a variable that holds an integer between zero and `max`.
fn parse_env_unsigned(name: &str, value: &Option<String>, max: u64, default: u64, rule: &str) -> (
    outcome: Result<u64, String>)
    ensures
        match outcome {
            Ok(n) => unsigned_value(text_view(*value), max as int, default as int) == Some(
                n as int,
            ),
            Err(reason) => {
                &&& unsigned_value(text_view(*value), max as int, default as int) is None
                &&& reason@ == name@ + rule@
            },
        },
{
    match value {
        Some(text) => match parse_unsigned(text.as_str(), max) {
            Some(n) => Ok(n),
            None => {
                let mut reason = name.to_owned();
                reason.append(rule);
                Err(reason)
            },
        },
        None => Ok(default),
    }
}

/// Reads a variable that holds a `usize`.
pub fn parse_env_usize(name: &str, value: &Option<String>, default: usize) -> (outcome: Result<
    usize,
    String,
>)
    ensures
        match outcome {
            Ok(n) => unsigned_value(text_view(*value), usize::MAX as int, default as int) == Some(
                n as int,
            ),
            Err(reason) => {
                &&& unsigned_value(text_view(*value), usize::MAX as int, default as int) is None
                &&& reason@ == name@ + " must be a positive integer"@
            },
        },
{
    match parse_env_unsigned(
        name,
        value,
        usize::MAX as u64,
        default as u64,
        " must be a positive integer",
    ) {
        Ok(n) => Ok(n as usize),
        Err(reason) => Err(reason),
    }
}

/// Reads a variable that holds a `u8`.
pub fn parse_env_u8(name: &str, value: &Option<String>, default: u8) -> (outcome: Result<
    u8,
    String,
>)
    ensures
        match outcome {
            Ok(n) => unsigned_value(text_view(*value), u8::MAX as int, default as int) == Some(
                n as int,
            ),
            Err(reason) => {
                &&& unsigned_value(text_view(*value), u8::MAX as int, default as int) is None
                &&& reason@ == name@ + " must be an integer between 0 and 255"@
            },
        },
{
    match parse_env_unsigned(
        name,
        value,
        u8::MAX as u64,
        default as u64,
        " must be an integer between 0 and 255",
    ) {
        Ok(n) => Ok(n as u8),
        Err(reason) => Err(reason),
    }
}

/// Reads a variable that holds a `u32`.
pub fn parse_env_u32(name: &str, value: &Option<String>, default: u32) -> (outcome: Result<
    u32,
    String,
>)
    ensures
        match outcome {
            Ok(n) => unsigned_value(text_view(*value), u32::MAX as int, default as int) == Some(
                n as int,
            ),
            Err(reason) => {
                &&& unsigned_value(text_view(*value), u32::MAX as int, default as int) is None
                &&& reason@ == name@ + " must be a positive integer"@
            },
        },
{
    match parse_env_unsigned(
        name,
        value,
        u32::MAX as u64,
        default as u64,
        " must be a positive integer",
    ) {
        Ok(n) => Ok(n as u32),
        Err(reason) => Err(reason),
    }
}

/// Reads a variable that holds a `u64`.
pub fn parse_env_u64(name: &str, value: &Option<String>, default: u64) -> (outcome: Result<
    u64,
    String,
>)
    ensures
        match outcome {
            Ok(n) => unsigned_value(text_view(*value), u64::MAX as int, default as int) == Some(
                n as int,
            ),
            Err(reason) => {
                &&& unsigned_value(text_view(*value), u64::MAX as int, default as int) is None
                &&& reason@ == name@ + " must be a positive integer"@
            },
        },
{
    parse_env_unsigned(name, value, u64::MAX, default, " must be a positive integer")
}

/// Takes over a variable that holds a number with a fraction.
pub fn parse_env_f32(name: &str, value: NumberVar, default: u32) -> (outcome: Result<u32, String>)
    ensures
        match outcome {
            Ok(bits) => number_value(value, default) == Some(bits),
            Err(reason) => {
                &&& number_value(value, default) is None
                &&& reason@ == name@ + " must be a number"@
            },
        },
{
    match value {
        NumberVar::Unset => Ok(default),
        NumberVar::Invalid => {
            let mut reason = name.to_owned();
            reason.append(" must be a number");
            Err(reason)
        },
        NumberVar::Number(bits) => Ok(bits),
    }
}

/// Four words mean yes and four mean no, and no word means both; of any other word the
/// complaint begins with the name of the variable and ends with the word.
pub proof fn law_words_for_yes_and_no(name: Seq<char>, word: Seq<char>)
    ensures
        word_as_bool(name, word) == Ok::<bool, Seq<char>>(true) <==> word == seq!['1'] || word
            == seq!['t', 'r', 'u', 'e'] || word == seq!['y', 'e', 's'] || word == seq!['o', 'n'],
        word_as_bool(name, word) == Ok::<bool, Seq<char>>(false) <==> word == seq!['0'] || word
            == seq!['f', 'a', 'l', 's', 'e'] || word == seq!['n', 'o'] || word == seq![
            'o',
            'f',
            'f',
        ],
        word_as_bool(name, word) matches Err(reason) ==> name.is_prefix_of(reason) && has_suffix(
            reason,
            word,
        ),
{
    reveal_strlit("1");
    reveal_strlit("true");
    reveal_strlit("yes");
    reveal_strlit("on");
    reveal_strlit("0");
    reveal_strlit("false");
    reveal_strlit("no");
    reveal_strlit("off");
    assert("1"@ =~= seq!['1']);
    assert("true"@ =~= seq!['t', 'r', 'u', 'e']);
    assert("yes"@ =~= seq!['y', 'e', 's']);
    assert("on"@ =~= seq!['o', 'n']);
    assert("0"@ =~= seq!['0']);
    assert("false"@ =~= seq!['f', 'a', 'l', 's', 'e']);
    assert("no"@ =~= seq!['n', 'o']);
    assert("off"@ =~= seq!['o', 'f', 'f']);
    if is_yes(word) && is_no(word) {
        assert(word[0] == 'o');
        assert(word.len() == 2 && word.len() == 3);
    }
    let front = name + " must be one of true|false|1|0|yes|no|on|off, got: "@;
    law_suffix(word, front, word);
}

/// A variable that is not set has its default; one that is set never has.
pub proof fn law_defaults(
    name: Seq<char>,
    text: Seq<char>,
    max: int,
    default_bool: bool,
    default: int,
    other: int,
    bits: u32,
    default_bits: u32,
)
    ensures
        bool_value(name, None, default_bool) == Ok::<bool, Seq<char>>(default_bool),
        bool_value(name, Some(text), true) == bool_value(name, Some(text), false),
        unsigned_value(None, max, default) == Some(default),
        unsigned_value(Some(text), max, default) == unsigned_value(Some(text), max, other),
        number_value(NumberVar::Unset, default_bits) == Some(default_bits),
        number_value(NumberVar::Number(bits), default_bits) == Some(bits),
        number_value(NumberVar::Invalid, default_bits) is None,
{
}

/// A variable that holds a number in decimal has that number as its value if it does not exceed
/// the limit, and no value otherwise.
pub proof fn law_written_number_is_the_value(n: nat, max: int, default: int)
    ensures
        n <= max ==> unsigned_value(Some(decimal_digits(n)), max, default) == Some(n as int),
        n > max ==> unsigned_value(Some(decimal_digits(n)), max, default) is None,
{
    law_decimal_read_back(n, n as int);
}

/// White space around a yes-or-no variable does not matter.
pub proof fn law_space_around_a_word(
    name: Seq<char>,
    text: Seq<char>,
    a: char,
    b: char,
    default: bool,
)
    requires
        is_space(a),
        is_space(b),
    ensures
        bool_value(name, Some(seq![a] + text), default) == bool_value(name, Some(text), default),
        bool_value(name, Some(text.push(b)), default) == bool_value(name, Some(text), default),
{
    lemma_space_in_front(text, a);
    lemma_space_behind(text, b);
}

proof fn lemma_space_in_front(text: Seq<char>, a: char)
    requires
        is_space(a),
    ensures
        trimmed(seq![a] + text) == trimmed(text),
{
    assert((seq![a] + text).skip(1) =~= text);
}

proof fn lemma_space_behind(text: Seq<char>, b: char)
    requires
        is_space(b),
    ensures
        trimmed(text.push(b)) == trimmed(text),
    decreases text.len(),
{
    if text.len() == 0 {
        assert(text.push(b).skip(1) =~= text);
    } else if is_space(text[0]) {
        assert(text.push(b).skip(1) =~= text.skip(1).push(b));
        lemma_space_behind(text.skip(1), b);
    } else {
        assert(text.push(b).drop_last() =~= text);
    }
}

} // verus!
