//! How many workers to run: the command-line flag, else the environment.

use vstd::prelude::*;

verus! {

/// Name of the environment variable that gives the number of workers when
/// the flag is absent.
pub const THREADS_VAR: &'static str = "PARALLEL_THREADS";

/// What looking the variable up in the environment gave.
#[derive(Debug, PartialEq, Eq)]
pub enum EnvLookup {
    /// The variable is set to this text.
    Present(String),
    /// The variable is not set.
    NotPresent,
    /// The variable is set to something that is not Unicode.
    NotUnicode,
}

/// Mathematical model of an [`EnvLookup`].
pub enum EnvLookupView {
    Present(Seq<char>),
    NotPresent,
    NotUnicode,
}

impl View for EnvLookup {
    type V = EnvLookupView;

    open spec fn view(&self) -> EnvLookupView {
        match self {
            EnvLookup::Present(text) => EnvLookupView::Present(text@),
            EnvLookup::NotPresent => EnvLookupView::NotPresent,
            EnvLookup::NotUnicode => EnvLookupView::NotUnicode,
        }
    }
}

/// Why no number of workers could be determined.
#[derive(Clone, Copy, Debug, PartialEq, Eq, Structural)]
pub enum ConfigError {
    /// The variable is set, but not to an unsigned integer.
    Unparseable,
    /// There is no flag and the variable is not set.
    NotPresent,
    /// There is no flag and the variable is not Unicode.
    NotUnicode,
}

impl ConfigError {
    /// The line that reports this error to the user.
    pub open spec fn text(self) -> Seq<char> {
        match self {
            ConfigError::Unparseable => "Err: Could not parse PARALLEL_THREADS as unsigned integer"@,
            ConfigError::NotPresent => "Err: threads arg not provided and PARALLEL_THREADS var not set"@,
            ConfigError::NotUnicode => "Err: threads arg not provided and PARALLEL_THREADS var not unicode"@,
        }
    }

    /// The line that reports this error to the user.
    pub fn message(&self) -> (m: &'static str)
        ensures
            m@ == self.text(),
    {
        match self {
            ConfigError::Unparseable => "Err: Could not parse PARALLEL_THREADS as unsigned integer",
            ConfigError::NotPresent => "Err: threads arg not provided and PARALLEL_THREADS var not set",
            ConfigError::NotUnicode => "Err: threads arg not provided and PARALLEL_THREADS var not unicode",
        }
    }
}

/// `c` is one of the ten ASCII digits.
pub open spec fn is_digit(c: char) -> bool {
    '0' <= c && c <= '9'
}

/// Every character of `s` is an ASCII digit.
pub open spec fn all_digits(s: Seq<char>) -> bool {
    forall|i: int| 0 <= i < s.len() ==> is_digit(#[trigger] s[i])
}

/// The number that a run of ASCII digits writes in base ten.
pub open spec fn digits_value(s: Seq<char>) -> nat
    decreases s.len(),
{
    if s.len() == 0 {
        0
    } else {
        10 * digits_value(s.drop_last()) + (s.last() as u32 - '0' as u32) as nat
    }
}

/// `s` without one leading plus sign, if it has one.
pub open spec fn without_plus(s: Seq<char>) -> Seq<char> {
    if s.len() > 0 && s[0] == '+' {
        s.skip(1)
    } else {
        s
    }
}

/// The unsigned integer that `s` writes: an optional plus sign, then one or
/// more ASCII digits and nothing else, with a value that fits the machine
/// word. Any other text writes none.
pub open spec fn decimal_count(s: Seq<char>) -> Option<usize> {
    let digits = without_plus(s);
    if digits.len() > 0 && all_digits(digits) && digits_value(digits) <= usize::MAX {
        Some(digits_value(digits) as usize)
    } else {
        None
    }
}

/// Calls `str::parse::<usize>`. The standard library documents the accepted
/// texts as an optional `+` sign followed by decimal digits only; an empty
/// text, any other character (white space and `_` too) and a value that does
/// not fit `usize` are errors. The contract claims exactly that, with every
/// error mapped to `None`.
#[verifier::external_body]
fn parse_count(text: &str) -> (r: Option<usize>)
    ensures
        r == decimal_count(text@),
{
    match text.parse::<usize>() {
        Ok(n) => Some(n),
        Err(_) => None,
    }
}

/// The number of workers that flag and environment settle on.
///
/// The flag wins when it is given. Without it the variable must be set to an
/// unsigned integer.
pub open spec fn threads_setting(flag: Option<usize>, env: EnvLookupView) -> Result<
    usize,
    ConfigError,
> {
    match flag {
        Some(n) => Ok(n),
        None => match env {
            EnvLookupView::Present(text) => match decimal_count(text) {
                Some(n) => Ok(n),
                None => Err(ConfigError::Unparseable),
            },
            EnvLookupView::NotPresent => Err(ConfigError::NotPresent),
            EnvLookupView::NotUnicode => Err(ConfigError::NotUnicode),
        },
    }
}

/// Settles the number of workers from the flag and from what the lookup of
/// [`THREADS_VAR`] gave.
pub fn get_threads(flag: Option<usize>, env: &EnvLookup) -> (r: Result<usize, ConfigError>)
    ensures
        r == threads_setting(flag, env@),
{
    if let Some(n) = flag {
        return Ok(n);
    }
    match env {
        EnvLookup::Present(text) => match parse_count(text.as_str()) {
            Some(n) => Ok(n),
            None => Err(ConfigError::Unparseable),
        },
        EnvLookup::NotPresent => Err(ConfigError::NotPresent),
        EnvLookup::NotUnicode => Err(ConfigError::NotUnicode),
    }
}

} // verus!
