use vstd::prelude::*;
use rand::Rng;

verus! {

/// The smallest number that can be the secret.
pub const LOWEST: u32 = 1;

/// The largest number that can be the secret.
pub const HIGHEST: u32 = 100;

/// How a guess compares with the secret.
#[derive(Clone, Copy, Debug, PartialEq, Eq, Structural)]
pub enum Verdict {
    TooHigh,
    TooLow,
    Correct,
}

/// What `str::trim` leaves of `s`.
pub uninterp spec fn trim_of(s: Seq<char>) -> Seq<char>;

/// What `str::to_lowercase` makes of `s`.
pub uninterp spec fn lower_of(s: Seq<char>) -> Seq<char>;

pub open spec fn is_digit(c: char) -> bool {
    '0' <= c && c <= '9'
}

/// The value of a string of decimal digits.
pub open spec fn digits_value(s: Seq<char>) -> nat
    decreases s.len(),
{
    if s.len() == 0 {
        0
    } else {
        digits_value(s.drop_last()) * 10 + (s.last() as u32 - '0' as u32) as nat
    }
}

/// The digits of an unsigned number: one or more decimal digits after an
/// optional `+`.
pub open spec fn unsigned_digits(s: Seq<char>) -> Seq<char> {
    if s.len() > 0 && s[0] == '+' {
        s.drop_first()
    } else {
        s
    }
}

/// What `u32::from_str` accepts: an optional `+`, then one or more decimal
/// digits whose value fits in a `u32`.
pub open spec fn parsed_u32(s: Seq<char>) -> Option<u32> {
    let d = unsigned_digits(s);
    if d.len() > 0 && (forall|i: int| 0 <= i < d.len() ==> is_digit(#[trigger] d[i]))
        && digits_value(d) <= u32::MAX {
        Some(digits_value(d) as u32)
    } else {
        None
    }
}

/// The guess that a line of input holds, if it is a number in range.
pub open spec fn guess_of(trimmed: Seq<char>) -> Option<u32> {
    match parsed_u32(trimmed) {
        Some(n) => if LOWEST <= n && n <= HIGHEST {
            Some(n)
        } else {
            None
        },
        None => None,
    }
}

/// The meaning of an answer to a yes/no question once trimmed and lower-cased:
/// empty takes the default, "y" is yes, anything else is no.
pub open spec fn answer_value(folded: Seq<char>, default: bool) -> bool {
    if folded.len() == 0 {
        default
    } else {
        folded == seq!['y']
    }
}

/// Relies on `str::trim`: the result depends on the characters alone.
#[verifier::external_body]
fn trim(s: &str) -> (r: &str)
    ensures
        r@ == trim_of(s@),
{
    s.trim()
}

/// Relies on `str::to_lowercase`: the result depends on the characters alone.
#[verifier::external_body]
fn lowercase(s: &str) -> (r: String)
    ensures
        r@ == lower_of(s@),
{
    s.to_lowercase()
}

/// Relies on `u32::from_str` (through `str::parse`): an optional `+` and
/// decimal digits, whose value must fit.
#[verifier::external_body]
fn parse_u32(s: &str) -> (r: Option<u32>)
    ensures
        r == parsed_u32(s@),
{
    s.parse::<u32>().ok()
}

/// Relies on `rand::thread_rng` and `Rng::gen_range`: a number drawn from
/// `low..=high`, which is not empty.
#[verifier::external_body]
fn draw_between(low: u32, high: u32) -> (r: u32)
    requires
        low <= high,
    ensures
        low <= r <= high,
{
    rand::thread_rng().gen_range(low..=high)
}

/// Compares a guess with the secret.
pub fn judge(guess: u32, secret: u32) -> (r: Verdict)
    ensures
        r == (if guess == secret {
            Verdict::Correct
        } else if guess > secret {
            Verdict::TooHigh
        } else {
            Verdict::TooLow
        }),
{
    if guess == secret {
        Verdict::Correct
    } else if guess > secret {
        Verdict::TooHigh
    } else {
        Verdict::TooLow
    }
}

/// The guess in an already trimmed line: a number from `LOWEST` to
/// `HIGHEST`, or nothing.
pub fn guess_from_trimmed(trimmed: &str) -> (r: Option<u32>)
    ensures
        r == guess_of(trimmed@),
{
    match parse_u32(trimmed) {
        Some(n) => if LOWEST <= n && n <= HIGHEST {
            Some(n)
        } else {
            None
        },
        None => None,
    }
}

/// The guess in a line of input, surrounding whitespace ignored.
pub fn parse_guess(line: &str) -> (r: Option<u32>)
    ensures
        r == guess_of(trim_of(line@)),
        r matches Some(n) ==> LOWEST <= n <= HIGHEST,
{
    guess_from_trimmed(trim(line))
}

/// The answer to a yes/no question, once trimmed and lower-cased.
pub fn answer_from_folded(folded: &str, default: bool) -> (r: bool)
    ensures
        r == answer_value(folded@, default),
{
    let n = folded.unicode_len();
    if n == 0 {
        default
    } else if n == 1 {
        let c = folded.get_char(0);
        assert(c == 'y' ==> folded@ =~= seq!['y']);
        c == 'y'
    } else {
        false
    }
}

/// The answer in a line of input to a yes/no question.
pub fn input_bool_answer(line: &str, default: bool) -> (r: bool)
    ensures
        r == answer_value(lower_of(trim_of(line@)), default),
{
    let folded = lowercase(trim(line));
    answer_from_folded(folded.as_str(), default)
}

/// The prompt for a yes/no question: the default answer in upper case.
pub fn prompt_text(prompt: &str, default: bool) -> (r: String)
    ensures
        r@ == prompt@ + (if default {
            " (Y/n): "@
        } else {
            " (y/N): "@
        }),
{
    let mut r = String::from_str(prompt);
    if default {
        r.append(" (Y/n): ");
    } else {
        r.append(" (y/N): ");
    }
    r
}

/// One round of the game: the secret and how many guesses were made.
#[derive(Debug)]
pub struct Round {
    pub secret: u32,
    pub guesses: u32,
}

impl Round {
    pub open spec fn wf(&self) -> bool {
        LOWEST <= self.secret <= HIGHEST
    }

    /// A round with a secret drawn at random from `LOWEST..=HIGHEST`.
    pub fn start() -> (r: Round)
        ensures
            r.wf(),
            r.guesses == 0,
    {
        Round { secret: draw_between(LOWEST, HIGHEST), guesses: 0 }
    }

    /// A round with the given secret.
    pub fn new(secret: u32) -> (r: Round)
        ensures
            r.secret == secret,
            r.guesses == 0,
    {
        Round { secret, guesses: 0 }
    }

    /// Records a guess and tells how it compares with the secret.
    pub fn submit(&mut self, guess: u32) -> (r: Verdict)
        requires
            old(self).guesses < u32::MAX,
        ensures
            final(self).secret == old(self).secret,
            final(self).guesses == old(self).guesses + 1,
            r == (if guess == old(self).secret {
                Verdict::Correct
            } else if guess > old(self).secret {
                Verdict::TooHigh
            } else {
                Verdict::TooLow
            }),
    {
        self.guesses = self.guesses + 1;
        judge(guess, self.secret)
    }
}

} // verus!
