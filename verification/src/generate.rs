//! Chunks of source text and the generation requests built from them.

use vstd::prelude::*;
use vstd::string::StringExecFns;
use crate::config::{
    custom_prompt_prefix, prompt_prefix_text, CUSTOM_JSON_FORMAT, CUSTOM_SYSTEM_MESSAGE,
    NUM_CHUNKS, NUM_TRIPLETS,
};
use crate::errors::{gather, lemma_gather_keeps_error, lemma_gather_step, DatasetError};
use crate::groups::{all_groups, combinations};
use crate::table::{
    column_of, csv_header, csv_rows, field_at, field_count, is_only_column, names_once,
    new_record, open_reader, read_headers, read_record, reader_rows, record_fields,
};

verus! {

/// A labelled unit of source text.
#[derive(Debug, Clone)]
pub struct Chunk {
    pub chunk_id: String,
    pub chunk_text: String,
}

/// What a chunk says: its label and its text.
pub struct ChunkText {
    pub id: Seq<char>,
    pub text: Seq<char>,
}

impl View for Chunk {
    type V = ChunkText;

    open spec fn view(&self) -> ChunkText {
        ChunkText { id: self.chunk_id@, text: self.chunk_text@ }
    }
}

impl Chunk {
    /// A second copy of this chunk.
    pub fn duplicate(&self) -> (copy: Chunk)
        ensures
            copy == *self,
    {
        Chunk { chunk_id: self.chunk_id.clone(), chunk_text: self.chunk_text.clone() }
    }
}

/// What each of a list of chunks says.
pub open spec fn chunk_texts(chunks: Seq<Chunk>) -> Seq<ChunkText> {
    Seq::new(chunks.len(), |i: int| chunks[i]@)
}

/// The column with a chunk's label.
pub open spec fn column_chunk_id() -> Seq<char> {
    "ChunkID"@
}

/// The column with a chunk's text.
pub open spec fn column_chunk_text() -> Seq<char> {
    "ChunkText"@
}

/// The positions of a chunk's label and text in every row. A header that is
/// valid text must name each of the two columns exactly once; under a header
/// that is not, label and text are the first two fields.
pub open spec fn chunk_columns(header: Option<Seq<Seq<char>>>) -> Option<(int, int)> {
    match header {
        None => Some((0int, 1int)),
        Some(names) => if names_once(names, column_chunk_id()) && names_once(
            names,
            column_chunk_text(),
        ) {
            Some((column_of(names, column_chunk_id()), column_of(names, column_chunk_text())))
        } else {
            None
        },
    }
}

/// The number of fields that `header` asks of a row: as many as a header
/// that is valid text has names; under a header that is not, the first two.
pub open spec fn fields_asked(header: Option<Seq<Seq<char>>>) -> nat {
    match header {
        None => 2,
        Some(names) => names.len(),
    }
}

/// A row has the fields that `header` asks for: exactly as many as a header
/// that is valid text has names; under a header that is not, at least two.
pub open spec fn row_fits(header: Option<Seq<Seq<char>>>, fields: Seq<Seq<char>>) -> bool {
    if header.is_some() {
        fields.len() == fields_asked(header)
    } else {
        fields.len() >= fields_asked(header)
    }
}

/// The chunk of one row of a table.
pub open spec fn row_chunk(header: Option<Seq<Seq<char>>>, row: Option<Seq<Seq<char>>>) -> Result<
    ChunkText,
    DatasetError,
> {
    match (row, chunk_columns(header)) {
        (Some(fields), Some((id, text))) => if row_fits(header, fields) {
            Ok(ChunkText { id: fields[id], text: fields[text] })
        } else {
            Err(DatasetError::RecordParse)
        },
        _ => Err(DatasetError::RecordParse),
    }
}

/// The outcome of each row of a table of chunks.
pub open spec fn row_chunks(header: Option<Seq<Seq<char>>>, rows: Seq<Option<Seq<Seq<char>>>>) -> Seq<
    Result<ChunkText, DatasetError>,
> {
    Seq::new(rows.len(), |i: int| row_chunk(header, rows[i]))
}

/// The chunks of a table, one for each row and in the order of the rows; no
/// chunk at all where one row has none.
pub open spec fn loaded_chunks(
    header: Option<Seq<Seq<char>>>,
    rows: Seq<Option<Seq<Seq<char>>>>,
) -> Result<Seq<ChunkText>, DatasetError> {
    gather(row_chunks(header, rows))
}

fn fits(named: bool, needed: usize, count: usize) -> (fit: bool)
    ensures
        fit == if named {
            count == needed
        } else {
            count >= needed
        },
{
    if named {
        count == needed
    } else {
        count >= needed
    }
}

fn find_only_column(headers: &csv::StringRecord, name: &str) -> (column: Option<usize>)
    ensures
        match column {
            Some(i) => is_only_column(record_fields(*headers), name@, i as int),
            None => !names_once(record_fields(*headers), name@),
        },
{
    let n = field_count(headers);
    let mut found: Option<usize> = None;
    let mut i: usize = 0;
    while i < n
        invariant
            n == record_fields(*headers).len(),
            i <= n,
            match found {
                Some(f) => f < i && record_fields(*headers)[f as int] == name@ && forall|j: int|
                    0 <= j < i && record_fields(*headers)[j] == name@ ==> j == f,
                None => forall|j: int| 0 <= j < i ==> record_fields(*headers)[j] != name@,
            },
        decreases n - i,
    {
        if let Some(field) = field_at(headers, i) {
            let x = String::from_str(field);
            let y = String::from_str(name);
            if x == y {
                if found.is_some() {
                    assert forall|c: int| !is_only_column(
                        record_fields(*headers),
                        name@,
                        c,
                    ) by {
                        if c == i {
                            assert(record_fields(*headers)[found.unwrap() as int] == name@);
                        }
                    }
                    return None;
                }
                found = Some(i);
            }
        }
        i += 1;
    }
    found
}

/// Loads the chunks of a table: the label and the text of each data row, in
/// the order of the rows. One row that cannot be read into both ends the load
/// with an error, and nothing is returned of the rows before it.
pub fn read_csv(data: &[u8]) -> (loaded: Result<Vec<Chunk>, DatasetError>)
    ensures
        match loaded {
            Ok(chunks) => loaded_chunks(csv_header(data@), csv_rows(data@)) == Ok::<
                Seq<ChunkText>,
                DatasetError,
            >(chunk_texts(chunks@)),
            Err(e) => loaded_chunks(csv_header(data@), csv_rows(data@)) == Err::<
                Seq<ChunkText>,
                DatasetError,
            >(e),
        },
{
    let mut reader = open_reader(data);
    let ghost header = csv_header(data@);
    let ghost rows = csv_rows(data@);
    let ghost outcomes = row_chunks(header, rows);
    let mut named = false;
    let mut needed: usize = 2;
    let mut columns: Option<(usize, usize)> = Some((0, 1));
    if let Ok(headers) = read_headers(&mut reader) {
        named = true;
        needed = field_count(&headers);
        columns =
        match (find_only_column(&headers, "ChunkID"), find_only_column(&headers, "ChunkText")) {
            (Some(id), Some(text)) => Some((id, text)),
            _ => None,
        };
    }
    assert(needed == fields_asked(header));
    assert(match columns {
        Some((id, text)) => chunk_columns(header) == Some((id as int, text as int)),
        None => chunk_columns(header).is_none(),
    });
    let mut chunks: Vec<Chunk> = Vec::new();
    let mut record = new_record();
    let ghost mut done: int = 0;
    assert(outcomes.take(0) =~= Seq::<Result<ChunkText, DatasetError>>::empty());
    assert(chunk_texts(chunks@) =~= Seq::<ChunkText>::empty());
    loop
        invariant
            0 <= done <= rows.len(),
            outcomes == row_chunks(header, rows),
            header == csv_header(data@),
            rows == csv_rows(data@),
            reader_rows(reader) == rows.skip(done),
            named == header.is_some(),
            needed == fields_asked(header),
            match columns {
                Some((id, text)) => chunk_columns(header) == Some((id as int, text as int)),
                None => chunk_columns(header).is_none(),
            },
            gather(outcomes.take(done)) == Ok::<Seq<ChunkText>, DatasetError>(
                chunk_texts(chunks@),
            ),
        decreases rows.len() - done,
    {
        match read_record(&mut reader, &mut record) {
            Err(_) => {
                proof {
                    assert(rows.skip(done)[0] == rows[done]);
                    lemma_gather_step(outcomes, done);
                    lemma_gather_keeps_error(outcomes, done + 1);
                }
                return Err(DatasetError::RecordParse);
            },
            Ok(false) => {
                proof {
                    assert(outcomes.take(done) =~= outcomes);
                }
                return Ok(chunks);
            },
            Ok(true) => {
                proof {
                    assert(rows.skip(done)[0] == rows[done]);
                    assert(rows.skip(done).skip(1) =~= rows.skip(done + 1));
                    lemma_gather_step(outcomes, done);
                }
                let chunk = match columns {
                    Some((id, text)) if fits(named, needed, field_count(&record)) => {
                        match (field_at(&record, id), field_at(&record, text)) {
                            (Some(chunk_id), Some(chunk_text)) => Some(
                                Chunk {
                                    chunk_id: String::from_str(chunk_id),
                                    chunk_text: String::from_str(chunk_text),
                                },
                            ),
                            _ => None,
                        }
                    },
                    _ => None,
                };
                match chunk {
                    None => {
                        proof {
                            lemma_gather_keeps_error(outcomes, done + 1);
                        }
                        return Err(DatasetError::RecordParse);
                    },
                    Some(chunk) => {
                        let ghost before = chunks@;
                        chunks.push(chunk);
                        proof {
                            assert(chunk_texts(chunks@) =~= chunk_texts(before).push(chunk@));
                            done = done + 1;
                        }
                    },
                }
            },
        }
    }
}

/// One chunk as it is shown to the model: its label, then its text in braces.
pub open spec fn chunk_block(chunk: ChunkText) -> Seq<char> {
    "Text "@ + chunk.id + " {\n"@ + chunk.text + "\n}"@
}

/// The chunks of a group as one text: the block of each, in the order of the
/// group, with an empty line between two blocks.
pub open spec fn combined_text(group: Seq<ChunkText>) -> Seq<char>
    decreases group.len(),
{
    if group.len() == 0 {
        Seq::<char>::empty()
    } else if group.len() == 1 {
        chunk_block(group[0])
    } else {
        combined_text(group.drop_last()) + "\n\n"@ + chunk_block(group.last())
    }
}

/// Renders the chunks of a group as one text.
pub fn combine_chunks(group: &Vec<Chunk>) -> (text: String)
    ensures
        text@ == combined_text(chunk_texts(group@)),
{
    let ghost blocks = chunk_texts(group@);
    let mut text = String::new();
    let mut i: usize = 0;
    assert(blocks.take(0) =~= Seq::<ChunkText>::empty());
    while i < group.len()
        invariant
            i <= group@.len(),
            blocks == chunk_texts(group@),
            text@ == combined_text(blocks.take(i as int)),
        decreases group@.len() - i,
    {
        let ghost before = text@;
        if i > 0 {
            text.append("\n\n");
        }
        text.append("Text ");
        text.append(group[i].chunk_id.as_str());
        text.append(" {\n");
        text.append(group[i].chunk_text.as_str());
        text.append("\n}");
        proof {
            let shown = blocks.take(i + 1);
            assert(shown.drop_last() =~= blocks.take(i as int));
            assert(shown.last() == group@[i as int]@);
            if i == 0 {
                assert(text@ =~= chunk_block(shown[0]));
            } else {
                assert(text@ =~= before + "\n\n"@ + chunk_block(shown.last()));
            }
        }
        i += 1;
    }
    assert(blocks.take(i as int) =~= blocks);
    text
}

/// The settings of a generation run.
#[derive(Debug, Clone)]
pub struct GenerationConfig {
    pub system_message: String,
    pub json_format: String,
    pub num_chunks: usize,
    pub num_triplets: usize,
}

impl GenerationConfig {
    /// The settings of a run: each value as given, or its default where none
    /// is given.
    pub fn resolve(
        system_message: Option<String>,
        json_format: Option<String>,
        num_chunks: Option<usize>,
        num_triplets: Option<usize>,
    ) -> (config: GenerationConfig)
        ensures
            config.system_message@ == match system_message {
                Some(message) => message@,
                None => CUSTOM_SYSTEM_MESSAGE@,
            },
            config.json_format@ == match json_format {
                Some(format) => format@,
                None => CUSTOM_JSON_FORMAT@,
            },
            config.num_chunks == match num_chunks {
                Some(n) => n,
                None => NUM_CHUNKS,
            },
            config.num_triplets == match num_triplets {
                Some(n) => n,
                None => NUM_TRIPLETS,
            },
    {
        GenerationConfig {
            system_message: match system_message {
                Some(message) => message,
                None => String::from_str(CUSTOM_SYSTEM_MESSAGE),
            },
            json_format: match json_format {
                Some(format) => format,
                None => String::from_str(CUSTOM_JSON_FORMAT),
            },
            num_chunks: match num_chunks {
                Some(n) => n,
                None => NUM_CHUNKS,
            },
            num_triplets: match num_triplets {
                Some(n) => n,
                None => NUM_TRIPLETS,
            },
        }
    }
}

/// The two messages sent to the model for one group of chunks.
#[derive(Debug, Clone)]
pub struct GenerationRequest {
    pub system_message: String,
    pub user_message: String,
}

/// What a request says.
pub struct RequestText {
    pub system_message: Seq<char>,
    pub user_message: Seq<char>,
}

impl View for GenerationRequest {
    type V = RequestText;

    open spec fn view(&self) -> RequestText {
        RequestText { system_message: self.system_message@, user_message: self.user_message@ }
    }
}

/// The request for one group: the system message as configured, and as user
/// message the task description followed by the group's text.
pub open spec fn request_text(system_message: Seq<char>, num_triplets: nat, group: Seq<Chunk>) -> RequestText {
    RequestText {
        system_message,
        user_message: prompt_prefix_text(num_triplets) + combined_text(chunk_texts(group)),
    }
}

/// Builds the request for one group of chunks.
pub fn build_request(config: &GenerationConfig, group: &Vec<Chunk>) -> (request: GenerationRequest)
    ensures
        request@ == request_text(config.system_message@, config.num_triplets as nat, group@),
{
    let mut user_message = custom_prompt_prefix(config.num_triplets);
    let combined = combine_chunks(group);
    user_message.append(combined.as_str());
    GenerationRequest { system_message: config.system_message.clone(), user_message }
}

/// The one request of a run: that for the first group of `config.num_chunks`
/// chunks. There is none where the chunks allow no such group.
pub fn first_request(chunks: Vec<Chunk>, config: &GenerationConfig) -> (request: Option<
    GenerationRequest,
>)
    ensures
        match request {
            Some(r) => all_groups(chunks@, config.num_chunks as nat).len() > 0 && r@
                == request_text(
                config.system_message@,
                config.num_triplets as nat,
                all_groups(chunks@, config.num_chunks as nat)[0],
            ),
            None => all_groups(chunks@, config.num_chunks as nat).len() == 0,
        },
{
    let mut groups = combinations(chunks, config.num_chunks);
    match groups.next_group() {
        Some(group) => Some(build_request(config, &group)),
        None => None,
    }
}

} // verus!
