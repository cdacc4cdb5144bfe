use dataset_prep::dataset::{
    format_dataset, missing_file_message, output_file_path, saved_message,
};
use dataset_prep::errors::DatasetError;
use dataset_prep::format::{
    json_line, process_records, record_to_map, render_example, validate_headers, write_output,
    RenderedExample,
};
use dataset_prep::jsonl::append_line;

const HEADER: &str = "ChunkIDs,ChunkTexts,Question,Answer,Quoted_Text_ID\n";

fn record(fields: Vec<&str>) -> csv::StringRecord {
    csv::StringRecord::from(fields)
}

fn example(prompt: &str, completion: &str) -> RenderedExample {
    RenderedExample { prompt: prompt.to_string(), completion: completion.to_string() }
}

fn parsed(line: &str) -> (String, String) {
    let value: serde_json::Value = serde_json::from_str(line).unwrap();
    let object = value.as_object().unwrap();
    assert_eq!(object.len(), 2);
    (
        object.get("prompt").unwrap().as_str().unwrap().to_string(),
        object.get("completion").unwrap().as_str().unwrap().to_string(),
    )
}

#[test]
fn headers_with_all_columns_are_valid() {
    assert!(validate_headers(&record(vec![
        "ChunkIDs",
        "ChunkTexts",
        "Question",
        "Answer",
        "Quoted_Text_ID"
    ])));
}

#[test]
fn headers_in_any_order_with_extras_are_valid() {
    assert!(validate_headers(&record(vec![
        "Notes",
        "Quoted_Text_ID",
        "Answer",
        "ChunkIDs",
        "Extra",
        "Question",
        "ChunkTexts"
    ])));
}

#[test]
fn headers_missing_any_one_column_are_invalid() {
    let all = vec!["ChunkIDs", "ChunkTexts", "Question", "Answer", "Quoted_Text_ID"];
    for skip in 0..all.len() {
        let mut fields = Vec::new();
        for (i, name) in all.iter().enumerate() {
            if i != skip {
                fields.push(*name);
            }
        }
        fields.push("Extra");
        assert!(!validate_headers(&record(fields)));
    }
    assert!(!validate_headers(&record(Vec::new())));
}

#[test]
fn column_names_are_case_sensitive() {
    assert!(!validate_headers(&record(vec![
        "chunkids",
        "ChunkTexts",
        "Question",
        "Answer",
        "Quoted_Text_ID"
    ])));
}

#[test]
fn record_map_pairs_header_and_row() {
    let map = record_to_map(&record(vec!["a", "b", "c"]), &record(vec!["1", "2", "3"])).unwrap();
    assert_eq!(map.len(), 3);
    assert_eq!(map.get("a").unwrap(), "1");
    assert_eq!(map.get("b").unwrap(), "2");
    assert_eq!(map.get("c").unwrap(), "3");
    assert!(map.get("d").is_none());
}

#[test]
fn record_map_turns_down_a_row_of_another_length() {
    let short_row = record_to_map(&record(vec!["a", "b", "c"]), &record(vec!["1"]));
    assert!(matches!(short_row, Err(DatasetError::RecordParse)));
    let long_row = record_to_map(&record(vec!["a"]), &record(vec!["1", "2"]));
    assert!(matches!(long_row, Err(DatasetError::RecordParse)));
    let no_fields = record_to_map(&record(vec!["a"]), &record(Vec::new()));
    assert!(matches!(no_fields, Err(DatasetError::RecordParse)));
}

#[test]
fn record_map_of_empty_header_and_row_is_empty() {
    let map = record_to_map(&record(Vec::new()), &record(Vec::new())).unwrap();
    assert_eq!(map.len(), 0);
}

#[test]
fn record_map_keeps_the_later_of_two_equal_names() {
    let map = record_to_map(&record(vec!["a", "b", "a"]), &record(vec!["1", "2", "3"])).unwrap();
    assert_eq!(map.len(), 2);
    assert_eq!(map.get("a").unwrap(), "3");
}

#[test]
fn example_follows_the_templates() {
    let header = record(vec!["ChunkIDs", "ChunkTexts", "Question", "Answer", "Quoted_Text_ID"]);
    let row = record(vec!["1;2", "ctx", "Q1", "A1", "1"]);
    let example = render_example(&record_to_map(&header, &row).unwrap()).unwrap();
    assert_eq!(
        example.prompt,
        "You are an expert in answering questions based on provided evidence. Answer the given question using the following context. Question: Q1\nContext:ctx"
    );
    assert_eq!(
        example.completion,
        "Here is my answer: A1\nHere is the ID of the text I used to answer the question: 1"
    );
}

#[test]
fn example_keeps_fields_verbatim() {
    let header = record(vec!["Question", "ChunkTexts", "Answer", "Quoted_Text_ID"]);
    let row = record(vec!["Why?\nReally?", " a \"quoted\" text\n", "Because, {x}", ""]);
    let example = render_example(&record_to_map(&header, &row).unwrap()).unwrap();
    assert_eq!(
        example.prompt,
        "You are an expert in answering questions based on provided evidence. Answer the given question using the following context. Question: Why?\nReally?\nContext: a \"quoted\" text\n"
    );
    assert_eq!(
        example.completion,
        "Here is my answer: Because, {x}\nHere is the ID of the text I used to answer the question: "
    );
}

#[test]
fn example_needs_its_four_columns() {
    let names = vec!["Question", "ChunkTexts", "Answer", "Quoted_Text_ID"];
    for skip in 0..names.len() {
        let mut header = Vec::new();
        for (i, name) in names.iter().enumerate() {
            if i != skip {
                header.push(*name);
            }
        }
        let map = record_to_map(&record(header), &record(vec!["x", "y", "z"])).unwrap();
        assert_eq!(render_example(&map).unwrap_err(), DatasetError::SchemaInvalid);
    }
}

#[test]
fn records_are_processed_in_order() {
    let data = format!("{}1,ctx,Q1,A1,1\n2,more,Q2,A2,2\n", HEADER);
    let mut reader = csv::Reader::from_reader(data.as_bytes());
    let headers = reader.headers().unwrap().clone();
    let output = process_records(&mut reader, &headers).unwrap();
    assert_eq!(output.len(), 2);
    assert!(output[0].prompt.ends_with("Question: Q1\nContext:ctx"));
    assert!(output[0].completion.starts_with("Here is my answer: A1\n"));
    assert!(output[1].prompt.ends_with("Question: Q2\nContext:more"));
    assert!(output[1].completion.ends_with("question: 2"));
}

#[test]
fn row_of_another_length_stops_processing() {
    let data = format!("{}1,ctx,Q1,A1,1\n2,more\n3,ctx,Q3,A3,3\n", HEADER);
    let mut reader = csv::Reader::from_reader(data.as_bytes());
    let headers = reader.headers().unwrap().clone();
    assert_eq!(process_records(&mut reader, &headers).unwrap_err(), DatasetError::RecordParse);
}

#[test]
fn short_row_is_an_error_even_where_the_reader_lets_it_pass() {
    let data = "Question,ChunkTexts,Answer,Quoted_Text_ID,ChunkIDs\nQ1,ctx,A1,1\n";
    let mut reader = csv::ReaderBuilder::new().flexible(true).from_reader(data.as_bytes());
    let headers = reader.headers().unwrap().clone();
    assert!(validate_headers(&headers));
    assert_eq!(process_records(&mut reader, &headers).unwrap_err(), DatasetError::RecordParse);
}

#[test]
fn long_row_is_an_error_even_where_the_reader_lets_it_pass() {
    let data = format!("{}1,ctx,Q1,A1,1\n2,ctx,Q2,A2,2,extra\n", HEADER);
    let mut reader = csv::ReaderBuilder::new().flexible(true).from_reader(data.as_bytes());
    let headers = reader.headers().unwrap().clone();
    assert_eq!(process_records(&mut reader, &headers).unwrap_err(), DatasetError::RecordParse);
}

#[test]
fn rows_are_left_in_the_reader_after_the_failing_one() {
    let data = format!("{}1,ctx,Q1,A1,1\n2,more\n3,ctx,Q3,A3,3\n", HEADER);
    let mut reader = csv::Reader::from_reader(data.as_bytes());
    let headers = reader.headers().unwrap().clone();
    assert!(process_records(&mut reader, &headers).is_err());
    let rest = process_records(&mut reader, &headers).unwrap();
    assert_eq!(rest.len(), 1);
    assert!(rest[0].prompt.ends_with("Question: Q3\nContext:ctx"));
    assert_eq!(process_records(&mut reader, &headers).unwrap().len(), 0);
}

#[test]
fn records_under_a_header_without_a_column_are_turned_down() {
    let data = "ChunkIDs,ChunkTexts,Question,Answer\n1,ctx,Q1,A1\n";
    let mut reader = csv::Reader::from_reader(data.as_bytes());
    let headers = reader.headers().unwrap().clone();
    assert_eq!(process_records(&mut reader, &headers).unwrap_err(), DatasetError::SchemaInvalid);
}

#[test]
fn json_line_reads_back_as_the_pair() {
    let line = json_line(&example("say \"hi\"\nnow\t\\", "done\u{1}\u{e9}"));
    assert!(!line.contains('\n'));
    assert_ne!(line, "say \"hi\"\nnow\t\\");
    let (prompt, completion) = parsed(&line);
    assert_eq!(prompt, "say \"hi\"\nnow\t\\");
    assert_eq!(completion, "done\u{1}\u{e9}");
}

#[test]
fn line_is_appended_with_its_line_break() {
    let mut sink = "first\n".to_string();
    append_line(&mut sink, "second");
    assert_eq!(sink, "first\nsecond\n");
    append_line(&mut sink, "");
    assert_eq!(sink, "first\nsecond\n\n");
}

#[test]
fn output_has_one_line_for_each_example() {
    let examples = vec![example("one", "uno"), example("t\nwo", "d\nos"), example("", "")];
    let mut sink = "old content".to_string();
    write_output(&examples, &mut sink);
    assert!(sink.ends_with('\n'));
    let lines: Vec<&str> = sink.lines().collect();
    assert_eq!(lines.len(), 3);
    assert_eq!(sink.matches('\n').count(), 3);
    assert_eq!(parsed(lines[0]), ("one".to_string(), "uno".to_string()));
    assert_eq!(parsed(lines[1]), ("t\nwo".to_string(), "d\nos".to_string()));
    assert_eq!(parsed(lines[2]), ("".to_string(), "".to_string()));
}

#[test]
fn output_of_nothing_is_empty() {
    let mut sink = "old content".to_string();
    write_output(&Vec::new(), &mut sink);
    assert_eq!(sink, "");
}

#[test]
fn table_with_one_row_gives_one_line() {
    let data = format!("{}1,ctx,Q1,A1,1\n", HEADER);
    let text = format_dataset(data.as_bytes()).unwrap();
    let lines: Vec<&str> = text.lines().collect();
    assert_eq!(lines.len(), 1);
    assert_eq!(text.matches('\n').count(), 1);
    let (prompt, completion) = parsed(lines[0]);
    assert_eq!(
        prompt,
        "You are an expert in answering questions based on provided evidence. Answer the given question using the following context. Question: Q1\nContext:ctx"
    );
    assert_eq!(
        completion,
        "Here is my answer: A1\nHere is the ID of the text I used to answer the question: 1"
    );
}

#[test]
fn fields_with_line_breaks_stay_on_one_line() {
    let data = format!("{}1,\"line one\nline two\",\"Q, with comma\",\"A \"\"quoted\"\"\",7\n", HEADER);
    let text = format_dataset(data.as_bytes()).unwrap();
    assert_eq!(text.matches('\n').count(), 1);
    let (prompt, completion) = parsed(text.lines().next().unwrap());
    assert!(prompt.ends_with("Question: Q, with comma\nContext:line one\nline two"));
    assert_eq!(
        completion,
        "Here is my answer: A \"quoted\"\nHere is the ID of the text I used to answer the question: 7"
    );
}

#[test]
fn columns_may_stand_in_any_order() {
    let data = "Answer,Extra,Question,Quoted_Text_ID,ChunkTexts,ChunkIDs\nA1,x,Q1,1,ctx,9\n";
    let text = format_dataset(data.as_bytes()).unwrap();
    let (prompt, completion) = parsed(text.lines().next().unwrap());
    assert!(prompt.ends_with("Question: Q1\nContext:ctx"));
    assert!(completion.starts_with("Here is my answer: A1\n"));
    assert!(completion.ends_with("question: 1"));
}

#[test]
fn table_without_rows_gives_empty_text() {
    assert_eq!(format_dataset(HEADER.as_bytes()).unwrap(), "");
}

#[test]
fn table_without_a_required_column_is_turned_down() {
    let data = "ChunkIDs,ChunkTexts,Question,Answer\n1,ctx,Q1,A1\n";
    assert_eq!(format_dataset(data.as_bytes()).unwrap_err(), DatasetError::SchemaInvalid);
    assert_eq!(format_dataset(b"").unwrap_err(), DatasetError::SchemaInvalid);
}

#[test]
fn table_with_a_bad_row_is_turned_down() {
    let data = format!("{}1,ctx,Q1,A1,1\n2,ctx,Q2\n", HEADER);
    assert_eq!(format_dataset(data.as_bytes()).unwrap_err(), DatasetError::RecordParse);
    let mut bytes = HEADER.as_bytes().to_vec();
    bytes.extend_from_slice(b"1,\xff,Q1,A1,1\n");
    assert_eq!(format_dataset(&bytes).unwrap_err(), DatasetError::RecordParse);
}

#[test]
fn header_that_is_not_text_is_turned_down() {
    let data = b"ChunkIDs,ChunkTexts,Question,Answer,Quoted_Text_ID,\xff\n1,ctx,Q1,A1,1,x\n";
    assert_eq!(format_dataset(data).unwrap_err(), DatasetError::RecordParse);
}

#[test]
fn formatting_twice_gives_the_same_text() {
    let data = format!("{}1,ctx,Q1,A1,1\n2,\"b\nc\",Q2,A2,2\n", HEADER);
    let first = format_dataset(data.as_bytes()).unwrap();
    let second = format_dataset(data.as_bytes()).unwrap();
    assert_eq!(first, second);
    assert_eq!(first.lines().count(), 2);
}

#[test]
fn output_path_replaces_the_extension() {
    assert_eq!(output_file_path("data.csv"), "data_output.jsonl");
    assert_eq!(output_file_path("dir/qa set.csv"), "dir/qa set_output.jsonl");
}

#[test]
fn output_path_drops_every_trailing_extension() {
    assert_eq!(output_file_path("data.csv.csv"), "data_output.jsonl");
    assert_eq!(output_file_path(".csv"), "_output.jsonl");
}

#[test]
fn output_path_keeps_other_names_whole() {
    assert_eq!(output_file_path("data.tsv"), "data.tsv_output.jsonl");
    assert_eq!(output_file_path("data.csv.bak"), "data.csv.bak_output.jsonl");
    assert_eq!(output_file_path("csv"), "csv_output.jsonl");
    assert_eq!(output_file_path(""), "_output.jsonl");
    assert_eq!(output_file_path("d\u{e9}j\u{e0}.csv"), "d\u{e9}j\u{e0}_output.jsonl");
}

#[test]
fn messages_name_the_path() {
    assert_eq!(missing_file_message("in/qa.csv"), "File in/qa.csv does not exist!");
    assert_eq!(saved_message("in/qa_output.jsonl"), "JSONL file saved to in/qa_output.jsonl");
}
