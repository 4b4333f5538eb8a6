//! The two greetings the host offers to its front end.

use vstd::prelude::*;
use vstd::string::StringExecFns;
use crate::text::{contains_text, lowercase, occurs_in, to_lowercase};

verus! {

/// The greeting for `name`.
pub open spec fn greeting(name: Seq<char>) -> Seq<char> {
    "Hello, "@ + name + "! You've been greeted from Fomi! <3"@
}

/// The answer to an input in lower case: a farewell where it holds the
/// word "hello", nothing otherwise.
pub open spec fn farewell(lowered: Seq<char>) -> Seq<char> {
    if occurs_in("hello"@, lowered) {
        "Bye!"@
    } else {
        Seq::empty()
    }
}

/// Greets `name`.
pub fn greet(name: String) -> (text: String)
    ensures
        text@ == greeting(name@),
{
    let mut text = String::from_str("Hello, ");
    text.append(name.as_str());
    text.append("! You've been greeted from Fomi! <3");
    text
}

/// Answers an input that is already in lower case.
pub fn farewell_for(lowered: &str) -> (text: String)
    ensures
        text@ == farewell(lowered@),
{
    if contains_text(lowered, "hello") {
        String::from_str("Bye!")
    } else {
        String::new()
    }
}

/// Answers "Bye!" to an input that holds "hello" in any mix of cases, and
/// the empty text to any other.
pub fn say_bye(input: String) -> (text: String)
    ensures
        text@ == farewell(lowercase(input@)),
{
    let lowered = to_lowercase(input.as_str());
    farewell_for(lowered.as_str())
}

} // verus!
