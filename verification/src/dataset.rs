//! The whole way from the bytes of an annotated table to the text of the
//! dataset, and the place where that text is kept.

use vstd::prelude::*;
use vstd::string::{StrSliceExecFns, StringExecFns};
use crate::errors::{lemma_gather_all, DatasetError};
use crate::format::{
    has_required_columns, jsonl_text, process_records, rendered_rows, row_examples,
    validate_headers, write_output,
};
use crate::jsonl::line_breaks;
use crate::table::{csv_header, csv_rows, open_reader, read_headers};

verus! {

/// The dataset of a table, given its header row and its data rows. A header
/// that is not valid text, a missing column, and a row that cannot be read
/// each end in an error, and no text.
pub open spec fn formatted(header: Option<Seq<Seq<char>>>, rows: Seq<Option<Seq<Seq<char>>>>) -> Result<
    Seq<char>,
    DatasetError,
> {
    match header {
        None => Err(DatasetError::RecordParse),
        Some(names) => if !has_required_columns(names) {
            Err(DatasetError::SchemaInvalid)
        } else {
            match rendered_rows(names, rows) {
                Err(e) => Err(e),
                Ok(examples) => Ok(jsonl_text(examples)),
            }
        },
    }
}

/// The dataset of the table that the `csv` crate finds in `data`.
pub open spec fn dataset_of(data: Seq<u8>) -> Result<Seq<char>, DatasetError> {
    formatted(csv_header(data), csv_rows(data))
}

/// An outcome of formatting, with the text of the dataset as plain text.
pub open spec fn output_text(output: Result<String, DatasetError>) -> Result<
    Seq<char>,
    DatasetError,
> {
    match output {
        Ok(text) => Ok(text@),
        Err(e) => Err(e),
    }
}

/// Turns the bytes of an annotated table into the text of the dataset: one
/// line for each data row, in the order of the rows. The outcome depends on
/// the bytes alone.
pub fn format_dataset(data: &[u8]) -> (output: Result<String, DatasetError>)
    ensures
        output_text(output) == dataset_of(data@),
        match output {
            Ok(text) => line_breaks(text@) == csv_rows(data@).len(),
            Err(_) => true,
        },
{
    let mut reader = open_reader(data);
    let headers = match read_headers(&mut reader) {
        Ok(headers) => headers,
        Err(_) => {
            return Err(DatasetError::RecordParse);
        },
    };
    if !validate_headers(&headers) {
        return Err(DatasetError::SchemaInvalid);
    }
    match process_records(&mut reader, &headers) {
        Err(e) => Err(e),
        Ok(examples) => {
            let mut text = String::new();
            write_output(&examples, &mut text);
            proof {
                lemma_gather_all(row_examples(csv_header(data@).unwrap(), csv_rows(data@)));
            }
            Ok(text)
        },
    }
}

/// Formatting the same bytes twice gives the same outcome, and on success
/// the same text, character for character.
pub proof fn law_format_repeatable(
    data: Seq<u8>,
    first: Result<String, DatasetError>,
    second: Result<String, DatasetError>,
)
    requires
        output_text(first) == dataset_of(data),
        output_text(second) == dataset_of(data),
    ensures
        output_text(first) == output_text(second),
{
}

/// `path` ends in `.csv`.
pub open spec fn ends_with_csv(path: Seq<char>) -> bool {
    path.len() >= 4 && path.subrange(path.len() - 4, path.len() as int) == seq!['.', 'c', 's', 'v']
}

/// `path` without any `.csv` at its end, however often it is repeated there.
pub open spec fn without_csv_suffix(path: Seq<char>) -> Seq<char>
    decreases path.len(),
{
    if ends_with_csv(path) {
        without_csv_suffix(path.take(path.len() - 4))
    } else {
        path
    }
}

/// Where the dataset of the table at `input` is kept.
pub open spec fn output_path_text(input: Seq<char>) -> Seq<char> {
    without_csv_suffix(input) + "_output.jsonl"@
}

/// The path of the dataset written for the table at `input`: the same path
/// without `.csv` at its end, followed by `_output.jsonl`.
pub fn output_file_path(input: &str) -> (path: String)
    ensures
        path@ == output_path_text(input@),
{
    let mut len = input.unicode_len();
    assert(input@.take(len as int) =~= input@);
    loop
        invariant
            len <= input@.len(),
            without_csv_suffix(input@) == without_csv_suffix(input@.take(len as int)),
        ensures
            len <= input@.len(),
            without_csv_suffix(input@) == input@.take(len as int),
        decreases len,
    {
        let ghost stem = input@.take(len as int);
        if len >= 4 && input.get_char(len - 4) == '.' && input.get_char(len - 3) == 'c'
            && input.get_char(len - 2) == 's' && input.get_char(len - 1) == 'v' {
            proof {
                assert(stem.subrange(stem.len() - 4, stem.len() as int) =~= seq![
                    '.',
                    'c',
                    's',
                    'v',
                ]);
                assert(stem.take(stem.len() - 4) =~= input@.take(len - 4));
            }
            len = len - 4;
        } else {
            proof {
                if stem.len() >= 4 {
                    let end = stem.subrange(stem.len() - 4, stem.len() as int);
                    assert(end[0] == input@[len - 4]);
                    assert(end[1] == input@[len - 3]);
                    assert(end[2] == input@[len - 2]);
                    assert(end[3] == input@[len - 1]);
                }
                assert(!ends_with_csv(stem));
            }
            break ;
        }
    }
    let mut path = String::from_str(input.substring_char(0, len));
    path.append("_output.jsonl");
    assert(input@.subrange(0, len as int) =~= input@.take(len as int));
    path
}

/// The line that reports an input file that is not there.
pub open spec fn missing_file_text(path: Seq<char>) -> Seq<char> {
    "File "@ + path + " does not exist!"@
}

/// The line that reports where the dataset was written.
pub open spec fn saved_text(path: Seq<char>) -> Seq<char> {
    "JSONL file saved to "@ + path
}

/// The line to show when there is no file at `path`.
pub fn missing_file_message(path: &str) -> (line: String)
    ensures
        line@ == missing_file_text(path@),
{
    let mut line = String::from_str("File ");
    line.append(path);
    line.append(" does not exist!");
    line
}

/// The line to show once the dataset has been written to `path`.
pub fn saved_message(path: &str) -> (line: String)
    ensures
        line@ == saved_text(path@),
{
    let mut line = String::from_str("JSONL file saved to ");
    line.append(path);
    line
}

} // verus!
