//! The short reminders that go with a periodic report.

use vstd::prelude::*;

verus! {

/// How many reminders there are.
pub const QUOTE_COUNT: usize = 9;

/// The reminder at position `i` of the list.
pub open spec fn quote_text(i: int) -> Seq<char> {
    if i == 0 {
        "Remember to hidrate"@
    } else if i == 1 {
        "Remember to take a break"@
    } else if i == 2 {
        "Watch your posture, you will regret it later"@
    } else if i == 3 {
        "Take a deep breat"@
    } else if i == 4 {
        "Don't sit for too long. Stand up and take a walk"@
    } else if i == 5 {
        "Go touch grass"@
    } else if i == 6 {
        "Enjoy the next 24 hours"@
    } else if i == 7 {
        "Hi :)"@
    } else {
        "There are tinny people inside you computer"@
    }
}

/// Whether `text` is one of the reminders.
pub open spec fn is_quote(text: Seq<char>) -> bool {
    exists|i: int| 0 <= i < QUOTE_COUNT && text == #[trigger] quote_text(i)
}

/// The reminder at position `i` of the list.
pub fn quote_at(i: usize) -> (quote: &'static str)
    requires
        i < QUOTE_COUNT,
    ensures
        quote@ == quote_text(i as int),
{
    if i == 0 {
        "Remember to hidrate"
    } else if i == 1 {
        "Remember to take a break"
    } else if i == 2 {
        "Watch your posture, you will regret it later"
    } else if i == 3 {
        "Take a deep breat"
    } else if i == 4 {
        "Don't sit for too long. Stand up and take a walk"
    } else if i == 5 {
        "Go touch grass"
    } else if i == 6 {
        "Enjoy the next 24 hours"
    } else if i == 7 {
        "Hi :)"
    } else {
        "There are tinny people inside you computer"
    }
}

/// A number below `n`, drawn at random.
///
/// Calls `rand::thread_rng` and `Rng::gen_range` on the range from 0 up to,
/// but not including, `n`. The contract claims that the number lies in that
/// range, and nothing of which one it is; `gen_range` panics on an empty
/// range, which `n > 0` rules out.
#[verifier::external_body]
fn random_below(n: usize) -> (i: usize)
    requires
        n > 0,
    ensures
        i < n,
{
    rand::Rng::gen_range(&mut rand::thread_rng(), 0..n)
}

/// One of the reminders, drawn at random.
pub fn random_quote() -> (quote: String)
    ensures
        is_quote(quote@),
{
    let i = random_below(QUOTE_COUNT);
    let quote = String::from_str(quote_at(i));
    assert(quote@ == quote_text(i as int));
    quote
}

/// No reminder is empty.
pub proof fn lemma_quotes_not_empty(text: Seq<char>)
    requires
        is_quote(text),
    ensures
        text.len() > 0,
{
    reveal_strlit("Remember to hidrate");
    reveal_strlit("Remember to take a break");
    reveal_strlit("Watch your posture, you will regret it later");
    reveal_strlit("Take a deep breat");
    reveal_strlit("Don't sit for too long. Stand up and take a walk");
    reveal_strlit("Go touch grass");
    reveal_strlit("Enjoy the next 24 hours");
    reveal_strlit("Hi :)");
    reveal_strlit("There are tinny people inside you computer");
}

} // verus!
