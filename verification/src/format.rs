//! From an annotated table of questions, answers and evidence to
//! prompt/completion pairs.

use vstd::prelude::*;
use vstd::hash_map::StringHashMap;
use vstd::string::StringExecFns;
use crate::errors::{
    first_error_at, gather, lemma_gather_keeps_error, lemma_gather_step, DatasetError,
};
use crate::jsonl::{
    append_line, json_object, json_object_text, lemma_line_breaks_add, lemma_no_line_break,
    line_breaks,
};
use crate::table::{
    field_at, field_count, is_only_column, new_record, read_record, reader_rows, record_fields,
};

verus! {

/// The column that lists the ids of the chunks shown with a question.
pub open spec fn column_chunk_ids() -> Seq<char> {
    "ChunkIDs"@
}

/// The column with the texts of those chunks.
pub open spec fn column_chunk_texts() -> Seq<char> {
    "ChunkTexts"@
}

/// The column with the question.
pub open spec fn column_question() -> Seq<char> {
    "Question"@
}

/// The column with the answer.
pub open spec fn column_answer() -> Seq<char> {
    "Answer"@
}

/// The column with the id of the text that the answer quotes.
pub open spec fn column_quoted_id() -> Seq<char> {
    "Quoted_Text_ID"@
}

/// A header row names every required column; order and further columns do
/// not matter.
pub open spec fn has_required_columns(header: Seq<Seq<char>>) -> bool {
    &&& header.contains(column_chunk_ids())
    &&& header.contains(column_chunk_texts())
    &&& header.contains(column_question())
    &&& header.contains(column_answer())
    &&& header.contains(column_quoted_id())
}

/// `name` is one of the five required columns.
pub open spec fn is_required_column(name: Seq<char>) -> bool {
    ||| name == column_chunk_ids()
    ||| name == column_chunk_texts()
    ||| name == column_question()
    ||| name == column_answer()
    ||| name == column_quoted_id()
}

/// A header row without one of the required columns is turned down.
pub proof fn law_missing_column(header: Seq<Seq<char>>, name: Seq<char>)
    requires
        is_required_column(name),
        !header.contains(name),
    ensures
        !has_required_columns(header),
{
}

/// A header row with all the required columns is accepted, wherever they
/// stand and whatever other columns stand beside them.
pub proof fn law_all_columns_present(header: Seq<Seq<char>>)
    requires
        forall|name: Seq<char>| is_required_column(name) ==> header.contains(name),
    ensures
        has_required_columns(header),
{
    assert(is_required_column(column_chunk_ids()));
    assert(is_required_column(column_chunk_texts()));
    assert(is_required_column(column_question()));
    assert(is_required_column(column_answer()));
    assert(is_required_column(column_quoted_id()));
}

/// The first `n` fields of a row, each under the name that the header gives
/// its position. Where a name stands twice, the later field is kept.
pub open spec fn paired_upto(header: Seq<Seq<char>>, row: Seq<Seq<char>>, n: nat) -> Map<
    Seq<char>,
    Seq<char>,
>
    decreases n,
{
    if n == 0 {
        Map::<Seq<char>, Seq<char>>::empty()
    } else {
        paired_upto(header, row, (n - 1) as nat).insert(header[n - 1], row[n - 1])
    }
}

/// The fields of a row by column name, for a header and a row with the same
/// number of fields: each field under the name that the header gives its
/// position.
pub open spec fn paired(header: Seq<Seq<char>>, row: Seq<Seq<char>>) -> Map<Seq<char>, Seq<char>>
    recommends
        header.len() == row.len(),
{
    paired_upto(header, row, header.len())
}

/// The record of a row under a header: the fields by column name, or an
/// error where the row has more or fewer fields than the header.
pub open spec fn record_of(header: Seq<Seq<char>>, row: Seq<Seq<char>>) -> Result<
    Map<Seq<char>, Seq<char>>,
    DatasetError,
> {
    if header.len() == row.len() {
        Ok(paired(header, row))
    } else {
        Err(DatasetError::RecordParse)
    }
}

/// A record's entries as plain text.
pub open spec fn record_texts(record: Map<Seq<char>, String>) -> Map<Seq<char>, Seq<char>> {
    Map::new(|name: Seq<char>| record.contains_key(name), |name: Seq<char>| record[name]@)
}

/// The prompt of a training pair.
pub open spec fn prompt_text(question: Seq<char>, chunk_texts: Seq<char>) -> Seq<char> {
    "You are an expert in answering questions based on provided evidence. Answer the given question using the following context. Question: "@
        + question + "\nContext:"@ + chunk_texts
}

/// The completion of a training pair.
pub open spec fn completion_text(answer: Seq<char>, quoted_id: Seq<char>) -> Seq<char> {
    "Here is my answer: "@ + answer
        + "\nHere is the ID of the text I used to answer the question: "@ + quoted_id
}

/// A training pair.
#[derive(Debug, Clone)]
pub struct RenderedExample {
    pub prompt: String,
    pub completion: String,
}

/// What a training pair says.
pub struct ExampleText {
    pub prompt: Seq<char>,
    pub completion: Seq<char>,
}

impl View for RenderedExample {
    type V = ExampleText;

    open spec fn view(&self) -> ExampleText {
        ExampleText { prompt: self.prompt@, completion: self.completion@ }
    }
}

/// What each of a list of training pairs says.
pub open spec fn example_texts(examples: Seq<RenderedExample>) -> Seq<ExampleText> {
    Seq::new(examples.len(), |i: int| examples[i]@)
}

/// The training pair of a record; a record without one of the four columns
/// that the pair is made of has none.
pub open spec fn example_of(record: Map<Seq<char>, Seq<char>>) -> Result<
    ExampleText,
    DatasetError,
> {
    if record.contains_key(column_question()) && record.contains_key(column_chunk_texts())
        && record.contains_key(column_answer()) && record.contains_key(column_quoted_id()) {
        Ok(
            ExampleText {
                prompt: prompt_text(record[column_question()], record[column_chunk_texts()]),
                completion: completion_text(record[column_answer()], record[column_quoted_id()]),
            },
        )
    } else {
        Err(DatasetError::SchemaInvalid)
    }
}

/// The training pair of one row of a table. A row that could not be read has
/// none, nor has a row with more or fewer fields than the header.
pub open spec fn row_example(header: Seq<Seq<char>>, row: Option<Seq<Seq<char>>>) -> Result<
    ExampleText,
    DatasetError,
> {
    match row {
        None => Err(DatasetError::RecordParse),
        Some(fields) => match record_of(header, fields) {
            Ok(record) => example_of(record),
            Err(e) => Err(e),
        },
    }
}

/// The outcome of each row of a table.
pub open spec fn row_examples(header: Seq<Seq<char>>, rows: Seq<Option<Seq<Seq<char>>>>) -> Seq<
    Result<ExampleText, DatasetError>,
> {
    Seq::new(rows.len(), |i: int| row_example(header, rows[i]))
}

/// The training pairs of a table, one for each row and in the order of the
/// rows; the error of the first row that has none.
pub open spec fn rendered_rows(header: Seq<Seq<char>>, rows: Seq<Option<Seq<Seq<char>>>>) -> Result<
    Seq<ExampleText>,
    DatasetError,
> {
    gather(row_examples(header, rows))
}

/// A name that stands once in the header, at a position that the row
/// reaches, leads to the row's field at that position.
pub proof fn lemma_paired_lookup(
    header: Seq<Seq<char>>,
    row: Seq<Seq<char>>,
    n: nat,
    name: Seq<char>,
    at: int,
)
    requires
        n <= header.len(),
        n <= row.len(),
        0 <= at < n,
        is_only_column(header, name, at),
    ensures
        paired_upto(header, row, n).contains_key(name),
        paired_upto(header, row, n)[name] == row[at],
    decreases n,
{
    if n - 1 != at {
        lemma_paired_lookup(header, row, (n - 1) as nat, name, at);
    }
}

/// Where each of the four columns of a pair stands once in the header, the
/// pair of a row as long as the header is the two templates with the row's
/// fields at those columns put in unchanged.
pub proof fn law_example_holds_fields(
    header: Seq<Seq<char>>,
    fields: Seq<Seq<char>>,
    question: int,
    chunk_texts: int,
    answer: int,
    quoted_id: int,
)
    requires
        header.len() == fields.len(),
        is_only_column(header, column_question(), question),
        is_only_column(header, column_chunk_texts(), chunk_texts),
        is_only_column(header, column_answer(), answer),
        is_only_column(header, column_quoted_id(), quoted_id),
    ensures
        row_example(header, Some(fields)) == Ok::<ExampleText, DatasetError>(
            ExampleText {
                prompt: prompt_text(fields[question], fields[chunk_texts]),
                completion: completion_text(fields[answer], fields[quoted_id]),
            },
        ),
{
    let n = header.len();
    lemma_paired_lookup(header, fields, n, column_question(), question);
    lemma_paired_lookup(header, fields, n, column_chunk_texts(), chunk_texts);
    lemma_paired_lookup(header, fields, n, column_answer(), answer);
    lemma_paired_lookup(header, fields, n, column_quoted_id(), quoted_id);
}

fn same_text(a: &str, b: &str) -> (same: bool)
    ensures
        same == (a@ == b@),
{
    let x = String::from_str(a);
    let y = String::from_str(b);
    x == y
}

fn has_column(headers: &csv::StringRecord, name: &str) -> (found: bool)
    ensures
        found == record_fields(*headers).contains(name@),
{
    let n = field_count(headers);
    let mut i: usize = 0;
    while i < n
        invariant
            n == record_fields(*headers).len(),
            i <= n,
            forall|j: int| 0 <= j < i ==> record_fields(*headers)[j] != name@,
        decreases n - i,
    {
        if let Some(field) = field_at(headers, i) {
            if same_text(field, name) {
                return true;
            }
        }
        i += 1;
    }
    false
}

/// Checks that a header row names all five required columns, in any order
/// and among any others.
pub fn validate_headers(headers: &csv::StringRecord) -> (valid: bool)
    ensures
        valid == has_required_columns(record_fields(*headers)),
{
    has_column(headers, "ChunkIDs") && has_column(headers, "ChunkTexts") && has_column(
        headers,
        "Question",
    ) && has_column(headers, "Answer") && has_column(headers, "Quoted_Text_ID")
}

/// Pairs a row with its header, position by position, into a mapping from
/// column name to field. A row with more or fewer fields than the header is
/// turned down: no shorter mapping is made of it.
pub fn record_to_map(header: &csv::StringRecord, record: &csv::StringRecord) -> (map: Result<
    StringHashMap<String>,
    DatasetError,
>)
    ensures
        match map {
            Ok(m) => record_of(record_fields(*header), record_fields(*record)) == Ok::<
                Map<Seq<char>, Seq<char>>,
                DatasetError,
            >(record_texts(m@)),
            Err(e) => record_of(record_fields(*header), record_fields(*record)) == Err::<
                Map<Seq<char>, Seq<char>>,
                DatasetError,
            >(e),
        },
{
    let n = field_count(header);
    if field_count(record) != n {
        return Err(DatasetError::RecordParse);
    }
    let mut map: StringHashMap<String> = StringHashMap::new();
    let mut i: usize = 0;
    assert(record_texts(map@) =~= paired_upto(record_fields(*header), record_fields(*record), 0));
    while i < n
        invariant
            i <= n,
            n == record_fields(*header).len(),
            n == record_fields(*record).len(),
            record_texts(map@) == paired_upto(
                record_fields(*header),
                record_fields(*record),
                i as nat,
            ),
        decreases n - i,
    {
        let ghost before = map@;
        if let Some(name) = field_at(header, i) {
            if let Some(value) = field_at(record, i) {
                map.insert(String::from_str(name), String::from_str(value));
                assert(record_texts(map@) =~= record_texts(before).insert(name@, value@));
            }
        }
        i += 1;
    }
    Ok(map)
}

/// Builds the training pair of a record: the prompt from its question and
/// chunk texts, the completion from its answer and the id of the quoted text,
/// each put into its template unchanged.
pub fn render_example(record: &StringHashMap<String>) -> (example: Result<
    RenderedExample,
    DatasetError,
>)
    ensures
        match example {
            Ok(e) => example_of(record_texts(record@)) == Ok::<ExampleText, DatasetError>(e@),
            Err(e) => example_of(record_texts(record@)) == Err::<ExampleText, DatasetError>(e),
        },
{
    let question = match record.get("Question") {
        Some(field) => field,
        None => {
            return Err(DatasetError::SchemaInvalid);
        },
    };
    let chunk_texts = match record.get("ChunkTexts") {
        Some(field) => field,
        None => {
            return Err(DatasetError::SchemaInvalid);
        },
    };
    let answer = match record.get("Answer") {
        Some(field) => field,
        None => {
            return Err(DatasetError::SchemaInvalid);
        },
    };
    let quoted_id = match record.get("Quoted_Text_ID") {
        Some(field) => field,
        None => {
            return Err(DatasetError::SchemaInvalid);
        },
    };
    let mut prompt = String::from_str(
        "You are an expert in answering questions based on provided evidence. Answer the given question using the following context. Question: ",
    );
    prompt.append(question.as_str());
    prompt.append("\nContext:");
    prompt.append(chunk_texts.as_str());
    let mut completion = String::from_str("Here is my answer: ");
    completion.append(answer.as_str());
    completion.append("\nHere is the ID of the text I used to answer the question: ");
    completion.append(quoted_id.as_str());
    Ok(RenderedExample { prompt, completion })
}

/// Reads every data row that the reader has left and builds its training
/// pair. The pairs come in the order of the rows, one for each row, and the
/// reader is left without rows. The first row that cannot be read, that has
/// more or fewer fields than the header, or that lacks a column of the pair,
/// ends the run with its error, and the reader is left with the rows after
/// that one.
pub fn process_records(reader: &mut csv::Reader<&[u8]>, headers: &csv::StringRecord) -> (output:
    Result<Vec<RenderedExample>, DatasetError>)
    ensures
        match output {
            Ok(examples) => {
                &&& rendered_rows(record_fields(*headers), reader_rows(*old(reader))) == Ok::<
                    Seq<ExampleText>,
                    DatasetError,
                >(example_texts(examples@))
                &&& reader_rows(*final(reader)).len() == 0
            },
            Err(e) => {
                &&& rendered_rows(record_fields(*headers), reader_rows(*old(reader))) == Err::<
                    Seq<ExampleText>,
                    DatasetError,
                >(e)
                &&& exists|n: int|
                    first_error_at(
                        row_examples(record_fields(*headers), reader_rows(*old(reader))),
                        n,
                    ) && reader_rows(*final(reader)) == reader_rows(*old(reader)).skip(n + 1)
            },
        },
{
    let ghost rows = reader_rows(*reader);
    let ghost outcomes = row_examples(record_fields(*headers), rows);
    let mut output: Vec<RenderedExample> = Vec::new();
    let mut record = new_record();
    let ghost mut done: int = 0;
    assert(outcomes.take(0) =~= Seq::<Result<ExampleText, DatasetError>>::empty());
    assert(example_texts(output@) =~= Seq::<ExampleText>::empty());
    loop
        invariant
            0 <= done <= rows.len(),
            rows == reader_rows(*old(reader)),
            outcomes == row_examples(record_fields(*headers), rows),
            reader_rows(*reader) == rows.skip(done),
            forall|i: int| 0 <= i < done ==> (#[trigger] outcomes[i]).is_ok(),
            gather(outcomes.take(done)) == Ok::<Seq<ExampleText>, DatasetError>(
                example_texts(output@),
            ),
        decreases rows.len() - done,
    {
        match read_record(reader, &mut record) {
            Err(_) => {
                proof {
                    assert(rows.skip(done)[0] == rows[done]);
                    assert(rows.skip(done).skip(1) =~= rows.skip(done + 1));
                    lemma_gather_step(outcomes, done);
                    lemma_gather_keeps_error(outcomes, done + 1);
                    assert(first_error_at(outcomes, done));
                }
                return Err(DatasetError::RecordParse);
            },
            Ok(false) => {
                proof {
                    assert(outcomes.take(done) =~= outcomes);
                }
                return Ok(output);
            },
            Ok(true) => {
                proof {
                    assert(rows.skip(done)[0] == rows[done]);
                    assert(rows.skip(done).skip(1) =~= rows.skip(done + 1));
                    lemma_gather_step(outcomes, done);
                }
                let rendered = match record_to_map(headers, &record) {
                    Ok(map) => render_example(&map),
                    Err(e) => Err(e),
                };
                match rendered {
                    Err(e) => {
                        proof {
                            lemma_gather_keeps_error(outcomes, done + 1);
                            assert(first_error_at(outcomes, done));
                        }
                        return Err(e);
                    },
                    Ok(example) => {
                        let ghost before = output@;
                        output.push(example);
                        proof {
                            assert(example_texts(output@) =~= example_texts(before).push(
                                example@,
                            ));
                            done = done + 1;
                        }
                    },
                }
            },
        }
    }
}

/// The JSON object of one training pair.
pub open spec fn example_line(example: ExampleText) -> Seq<char> {
    json_object_text("prompt"@, example.prompt, "completion"@, example.completion)
}

/// The dataset as text: the object of each pair, in order, each followed by a
/// line break.
pub open spec fn jsonl_text(examples: Seq<ExampleText>) -> Seq<char>
    decreases examples.len(),
{
    if examples.len() == 0 {
        Seq::<char>::empty()
    } else {
        jsonl_text(examples.drop_last()) + example_line(examples.last()) + seq!['\n']
    }
}

/// Writes one training pair as a JSON object with the entries `prompt` and
/// `completion`.
pub fn json_line(example: &RenderedExample) -> (line: String)
    ensures
        line@ == example_line(example@),
        !line@.contains('\n'),
{
    json_object("prompt", example.prompt.as_str(), "completion", example.completion.as_str())
}

/// Writes the dataset into `sink`, in place of whatever `sink` held: one JSON
/// object for each pair, in the order given, each on a line of its own.
pub fn write_output(output: &Vec<RenderedExample>, sink: &mut String)
    ensures
        final(sink)@ == jsonl_text(example_texts(output@)),
        line_breaks(final(sink)@) == output@.len(),
{
    *sink = String::new();
    let ghost texts = example_texts(output@);
    let mut i: usize = 0;
    assert(texts.take(0) =~= Seq::<ExampleText>::empty());
    while i < output.len()
        invariant
            i <= output@.len(),
            texts == example_texts(output@),
            sink@ == jsonl_text(texts.take(i as int)),
            line_breaks(sink@) == i,
        decreases output@.len() - i,
    {
        let ghost before = sink@;
        let line = json_line(&output[i]);
        append_line(sink, line.as_str());
        proof {
            assert(texts.take(i + 1).drop_last() =~= texts.take(i as int));
            assert(texts.take(i + 1).last() == output@[i as int]@);
            lemma_no_line_break(line@);
            lemma_line_breaks_add(before, line@);
            lemma_line_breaks_add(before + line@, seq!['\n']);
            let newline = seq!['\n'];
            assert(newline.drop_last() =~= Seq::<char>::empty());
            assert(line_breaks(newline.drop_last()) == 0);
            assert(newline.last() == '\n');
            assert(line_breaks(newline) == 1);
        }
        i += 1;
    }
    assert(texts.take(i as int) =~= texts);
}

} // verus!
