use vstd::prelude::*;
use crate::counter::CounterSettings;

verus! {

/// The command line: the input paths and the four field flags, each
/// absent or given a value.
#[derive(Debug)]
pub struct Cli {
    pub file: Vec<String>,
    pub count_bytes: Option<bool>,
    pub count_chars: Option<bool>,
    pub count_words: Option<bool>,
    pub count_lines: Option<bool>,
}

/// The selection that the flags ask for: exactly the flags given as true
/// when any flag is given, else lines, words and bytes.
pub open spec fn flag_selection(
    count_bytes: Option<bool>,
    count_chars: Option<bool>,
    count_words: Option<bool>,
    count_lines: Option<bool>,
) -> CounterSettings {
    if count_bytes.is_some() || count_chars.is_some() || count_words.is_some()
        || count_lines.is_some() {
        CounterSettings {
            count_bytes: count_bytes == Some(true),
            count_chars: count_chars == Some(true),
            count_words: count_words == Some(true),
            count_lines: count_lines == Some(true),
        }
    } else {
        CounterSettings::default_selection()
    }
}

fn flag_or_false(flag: Option<bool>) -> (r: bool)
    ensures
        r == (flag == Some(true)),
{
    match flag {
        Some(b) => b,
        None => false,
    }
}

pub fn parse_settings(cli: &Cli) -> (r: CounterSettings)
    ensures
        r == flag_selection(cli.count_bytes, cli.count_chars, cli.count_words, cli.count_lines),
{
    let any_specified = cli.count_bytes.is_some() || cli.count_chars.is_some()
        || cli.count_words.is_some() || cli.count_lines.is_some();
    if any_specified {
        CounterSettings::new(
            flag_or_false(cli.count_bytes),
            flag_or_false(cli.count_chars),
            flag_or_false(cli.count_words),
            flag_or_false(cli.count_lines),
        )
    } else {
        CounterSettings::new(true, false, true, true)
    }
}

} // verus!
