//! Yes-or-no questions: how an answer typed at the prompt is read. Asking happens around it.

use vstd::prelude::*;

use crate::error::{AcreError, EXIT_USAGE};
use crate::provider::remote::{trim_whitespace, trim_whitespace_exec};
use crate::text::{ascii_lower_seq, chars_of, lower_chars};

verus! {

/// The suffix that shows which answer an empty line gives.
pub fn prompt_suffix(default_yes: bool) -> (suffix: &'static str)
    ensures
        suffix@ == if default_yes { "[Y/n]"@ } else { "[y/N]"@ },
{
    if default_yes {
        "[Y/n]"
    } else {
        "[y/N]"
    }
}

/// What an answer means: an empty line the default, `y` or `yes` yes, `n` or `no` no, in any
/// ASCII case and with surrounding whitespace ignored; anything else is refused.
pub open spec fn answer_spec(answer: Seq<char>, default_yes: bool) -> Option<bool> {
    let a = ascii_lower_seq(trim_whitespace(answer));
    if a.len() == 0 {
        Some(default_yes)
    } else if a == "y"@ || a == "yes"@ {
        Some(true)
    } else if a == "n"@ || a == "no"@ {
        Some(false)
    } else {
        None
    }
}

pub fn read_answer(answer: &str, default_yes: bool) -> (r: Result<bool, AcreError>)
    ensures
        match answer_spec(answer@, default_yes) {
            Some(b) => r == Ok::<bool, AcreError>(b),
            None => r matches Err(e) && e.code == "ACRE_PROMPT_INVALID" && e.exit_code == EXIT_USAGE,
        },
{
    let a = lower_chars(&trim_whitespace_exec(&chars_of(answer)));
    if a.len() == 0 {
        return Ok(default_yes);
    }
    if crate::text::chars_equal(&a, &chars_of("y")) || crate::text::chars_equal(&a, &chars_of("yes")) {
        return Ok(true);
    }
    if crate::text::chars_equal(&a, &chars_of("n")) || crate::text::chars_equal(&a, &chars_of("no")) {
        return Ok(false);
    }
    Err(AcreError::new("ACRE_PROMPT_INVALID", "Enter yes or no.", EXIT_USAGE))
}

} // verus!
