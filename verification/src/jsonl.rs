//! Lines of JSON: the objects are written by the `serde_json` crate, one on
//! each line.

use vstd::prelude::*;
use vstd::string::StringExecFns;

verus! {

/// The text that `serde_json` writes for an object of two entries, each a
/// name with a text value.
pub uninterp spec fn json_object_text(
    first_name: Seq<char>,
    first: Seq<char>,
    second_name: Seq<char>,
    second: Seq<char>,
) -> Seq<char>;

/// `serde_json::Value::to_string` on an object with two entries, whose values
/// are the texts given. The output is compact: it depends on the four texts
/// alone and holds no line break, since line breaks inside a text are written
/// as escapes.
#[verifier::external_body]
pub(crate) fn json_object(first_name: &str, first: &str, second_name: &str, second: &str) -> (text: String)
    ensures
        text@ == json_object_text(first_name@, first@, second_name@, second@),
        !text@.contains('\n'),
{
    let mut object = serde_json::Map::new();
    object.insert(first_name.to_string(), serde_json::Value::String(first.to_string()));
    object.insert(second_name.to_string(), serde_json::Value::String(second.to_string()));
    serde_json::Value::Object(object).to_string()
}

/// The number of line breaks in a text.
pub open spec fn line_breaks(text: Seq<char>) -> nat
    decreases text.len(),
{
    if text.len() == 0 {
        0
    } else {
        line_breaks(text.drop_last()) + if text.last() == '\n' {
            1nat
        } else {
            0nat
        }
    }
}

/// A text without a line break counts none.
pub proof fn lemma_no_line_break(text: Seq<char>)
    requires
        !text.contains('\n'),
    ensures
        line_breaks(text) == 0,
    decreases text.len(),
{
    if text.len() > 0 {
        assert(text.last() == text[text.len() - 1]);
        assert forall|c: char| text.drop_last().contains(c) implies text.contains(c) by {
            let i = choose|i: int| 0 <= i < text.drop_last().len() && text.drop_last()[i] == c;
            assert(text[i] == c);
        }
        lemma_no_line_break(text.drop_last());
    }
}

/// The line breaks of two texts put together are those of each.
pub proof fn lemma_line_breaks_add(a: Seq<char>, b: Seq<char>)
    ensures
        line_breaks(a + b) == line_breaks(a) + line_breaks(b),
    decreases b.len(),
{
    if b.len() == 0 {
        assert(a + b =~= a);
    } else {
        assert((a + b).drop_last() =~= a + b.drop_last());
        assert((a + b).last() == b.last());
        lemma_line_breaks_add(a, b.drop_last());
    }
}

/// Puts `line` and a line break at the end of `sink`.
pub fn append_line(sink: &mut String, line: &str)
    ensures
        final(sink)@ == old(sink)@ + line@ + seq!['\n'],
{
    proof {
        reveal_strlit("\n");
    }
    sink.append(line);
    sink.append("\n");
    assert("\n"@ =~= seq!['\n']);
}

} // verus!
