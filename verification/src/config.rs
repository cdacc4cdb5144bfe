//! Default settings of a generation run, and the task description that is put
//! in front of every group of chunks.

use vstd::prelude::*;
use vstd::string::StringExecFns;

verus! {

/// The system message of a generation request, unless another is given.
pub const CUSTOM_SYSTEM_MESSAGE: &'static str = "You are an expert in splitting .";

/// The shape in which the model is asked to answer.
pub const CUSTOM_JSON_FORMAT: &'static str =
    "{\"question\": \"insert question\", \"answer\":\"insert answer\", \"quoted_text\": \"insert the number of the text that was used to answer the question\"}";

/// How many question/answer/source triplets are asked for, unless said otherwise.
pub const NUM_TRIPLETS: usize = 6;

/// How many chunks form one group, unless said otherwise.
pub const NUM_CHUNKS: usize = 3;

/// The character for one decimal digit.
pub open spec fn digit_char(d: nat) -> char {
    if d == 0 {
        '0'
    } else if d == 1 {
        '1'
    } else if d == 2 {
        '2'
    } else if d == 3 {
        '3'
    } else if d == 4 {
        '4'
    } else if d == 5 {
        '5'
    } else if d == 6 {
        '6'
    } else if d == 7 {
        '7'
    } else if d == 8 {
        '8'
    } else {
        '9'
    }
}

/// A number written in decimal, without leading zeros.
pub open spec fn decimal(n: nat) -> Seq<char>
    decreases n,
{
    if n < 10 {
        seq![digit_char(n)]
    } else {
        decimal(n / 10).push(digit_char(n % 10))
    }
}

/// The task description up to the first mention of the count.
pub open spec fn prefix_head() -> Seq<char> {
    "Your task is to write "@
}

/// The task description between the two mentions of the count.
pub open spec fn prefix_middle() -> Seq<char> {
    " distinct questions and sarcastic, rude answers about the provided texts. The answers should be written in a California Valley girl style, similar to how Kim Kardashian speaks. The answers should end with exclamation points. The questions should be able to be answered directly by using only one of the texts at a time. The questions should be written in a normal tone. Important: The answers should be written in a sarcastic, funny, dry tone (slightly humorous)! The answers must be entertaining. Provide a JSON list of "@
}

/// The task description after the second mention of the count.
pub open spec fn prefix_tail() -> Seq<char> {
    " questions and their answers, along with an indication of which text the answer was derived from, from the following texts:\n"@
}

/// The task description that asks for `count` triplets.
pub open spec fn prompt_prefix_text(count: nat) -> Seq<char> {
    prefix_head() + decimal(count) + prefix_middle() + decimal(count) + prefix_tail()
}

fn digit_str(d: usize) -> (s: &'static str)
    requires
        d < 10,
    ensures
        s@ == seq![digit_char(d as nat)],
{
    proof {
        reveal_strlit("0");
        reveal_strlit("1");
        reveal_strlit("2");
        reveal_strlit("3");
        reveal_strlit("4");
        reveal_strlit("5");
        reveal_strlit("6");
        reveal_strlit("7");
        reveal_strlit("8");
        reveal_strlit("9");
    }
    let s = if d == 0 {
        "0"
    } else if d == 1 {
        "1"
    } else if d == 2 {
        "2"
    } else if d == 3 {
        "3"
    } else if d == 4 {
        "4"
    } else if d == 5 {
        "5"
    } else if d == 6 {
        "6"
    } else if d == 7 {
        "7"
    } else if d == 8 {
        "8"
    } else {
        "9"
    };
    assert(s@ =~= seq![digit_char(d as nat)]);
    s
}

/// Writes `n` in decimal.
pub fn decimal_string(n: usize) -> (s: String)
    ensures
        s@ == decimal(n as nat),
    decreases n,
{
    if n < 10 {
        String::from_str(digit_str(n))
    } else {
        let mut s = decimal_string(n / 10);
        s.append(digit_str(n % 10));
        assert(s@ =~= decimal(n as nat));
        s
    }
}

/// The task description put in front of the chunk texts: it asks for
/// `num_triplets` questions with their answers.
pub fn custom_prompt_prefix(num_triplets: usize) -> (prefix: String)
    ensures
        prefix@ == prompt_prefix_text(num_triplets as nat),
{
    let count = decimal_string(num_triplets);
    let mut prefix = String::from_str("Your task is to write ");
    prefix.append(count.as_str());
    prefix.append(
        " distinct questions and sarcastic, rude answers about the provided texts. The answers should be written in a California Valley girl style, similar to how Kim Kardashian speaks. The answers should end with exclamation points. The questions should be able to be answered directly by using only one of the texts at a time. The questions should be written in a normal tone. Important: The answers should be written in a sarcastic, funny, dry tone (slightly humorous)! The answers must be entertaining. Provide a JSON list of ",
    );
    prefix.append(count.as_str());
    prefix.append(
        " questions and their answers, along with an indication of which text the answer was derived from, from the following texts:\n",
    );
    prefix
}

} // verus!
