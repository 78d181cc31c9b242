use processor::builder::{file_name_from_path, start_pipeline, ProcessorBuilder};
use processor::naming::output_file_name;
use processor::anonymize::Anonymize;
use processor::pipeline::{into_next, OpenFile, Pipeline, PipelineContext, Publisher, Stage, StageAction};
use processor::text::split_on;

#[test]
fn split_keeps_empty_pieces() {
    assert_eq!(split_on("$.a..b", '.'), vec!["$", "a", "", "b"]);
    assert_eq!(split_on("", '.'), vec![""]);
    assert_eq!(split_on("é.ü", '.'), vec!["é", "ü"]);
}

#[test]
fn file_name_is_last_segment() {
    assert_eq!(file_name_from_path("./files_to_process/data.json"), "data.json");
    assert_eq!(file_name_from_path("data.json"), "data.json");
    assert_eq!(file_name_from_path("dir/"), "");
}

#[test]
fn nil_uuid_file_name() {
    assert_eq!(output_file_name(0), "00000000-0000-0000-0000-000000000000.json");
}

#[test]
fn uuid_file_name_is_hyphenated_lowercase() {
    assert_eq!(
        output_file_name(0xa1a2a3a4b1b2c1c2d1d2d3d4d5d6d7d8),
        "a1a2a3a4-b1b2-c1c2-d1d2-d3d4d5d6d7d8.json"
    );
}

#[test]
fn default_chain_order() {
    let b = ProcessorBuilder::new("dir/in.json");
    assert_eq!(b.pipeline.execute(), vec![Stage::OpenFile, Stage::Anonymize, Stage::Publisher]);
    assert_eq!(b.pipeline_context.pipeline_name, "Default");
    assert_eq!(b.pipeline_context.file_name, "in.json");
    assert_eq!(b.pipeline_context.publish_folder, "./publish/");
    assert_eq!(b.pipeline_context.uuid, 0);
    assert!(!b.pipeline_context.buffer_open);
}

#[test]
fn custom_chain_order() {
    let p = Pipeline::Publisher(Publisher::new(Pipeline::OpenFile(OpenFile::default())));
    assert_eq!(p.execute(), vec![Stage::Publisher, Stage::OpenFile]);
    let single = Pipeline::Anonymize(Anonymize::default());
    assert_eq!(single.execute(), vec![Stage::Anonymize]);
    assert!(into_next(single).is_some());
}

#[test]
fn run_with_opened_file() {
    let mut run = start_pipeline("./files_to_process/data.json");
    match run.step() {
        Some(StageAction::Open { path }) => assert_eq!(path, "./files_to_process/data.json"),
        _ => panic!("expected open"),
    }
    run.record_open(true);
    assert!(matches!(run.step(), Some(StageAction::Anonymize)));
    let output = run.name_output();
    let events = run.anonymize_lines(vec![None, Some(r#"{"a":1}"#.to_string())]);
    assert_eq!(events.len(), 1);
    assert_eq!(events[0].text, r#"{"a":1}"#);
    assert_eq!(output, "./files_to_process/00000000-0000-0000-0000-000000000000.json");
    assert_eq!(run.context().file_path, output);
    match run.step() {
        Some(StageAction::Publish { from, to }) => {
            assert_eq!(from, "./files_to_process/00000000-0000-0000-0000-000000000000.json");
            assert_eq!(to, "./publish/00000000-0000-0000-0000-000000000000.json");
        }
        _ => panic!("expected publish"),
    }
    assert!(run.is_done());
    assert!(run.step().is_none());
    assert_eq!(run.context().publish_folder, "./publish/00000000-0000-0000-0000-000000000000.json");
}

#[test]
fn run_with_unopened_file_skips_anonymizing() {
    let mut run = start_pipeline("missing.json");
    assert!(matches!(run.step(), Some(StageAction::Open { .. })));
    run.record_open(false);
    assert!(!run.context().buffer_open);
    assert!(matches!(run.step(), Some(StageAction::Skip)));
    match run.step() {
        Some(StageAction::Publish { from, to }) => {
            assert_eq!(from, "00000000-0000-0000-0000-000000000000.json");
            assert_eq!(to, "./publish/00000000-0000-0000-0000-000000000000.json");
        }
        _ => panic!("expected publish"),
    }
}

#[test]
fn context_default_is_empty() {
    let c = PipelineContext::default();
    assert_eq!(c.file_path, "");
    assert_eq!(c.uuid, 0);
    assert!(!c.buffer_open);
}

#[test]
fn output_name_is_stable_for_plain_paths() {
    let mut run = start_pipeline("./files_to_process/data.json");
    let first = run.name_output();
    let second = run.name_output();
    assert_eq!(first, second);
}

#[test]
fn publish_folder_without_trailing_slash() {
    let mut c = PipelineContext::default();
    c.file_path = "in/a.json".to_string();
    c.publish_folder = "out".to_string();
    c.uuid = 1;
    match Stage::Publisher.handle(&mut c) {
        StageAction::Publish { from, to } => {
            assert_eq!(from, "in/00000000-0000-0000-0000-000000000001.json");
            assert_eq!(to, "out/00000000-0000-0000-0000-000000000001.json");
        }
        _ => panic!("expected publish"),
    }
}

#[test]
fn single_file_variant_opens_by_name() {
    let mut c = processor::dh::PipelineContext::default();
    c.pipeline_name = "Default".to_string();
    c.file_name = "example.json".to_string();
    let stage = processor::dh::OpenFile::new(Pipeline::Anonymize(Anonymize::default()));
    assert!(stage.next().is_some());
    match stage.handle(&c) {
        StageAction::Open { path } => assert_eq!(path, "example.json"),
        _ => panic!("expected open"),
    }
}

#[test]
fn failed_open_keeps_an_open_file_open() {
    let mut run = start_pipeline("a.json");
    run.record_open(true);
    run.record_open(false);
    assert!(run.context().buffer_open);
}

#[test]
fn single_file_variant_records_open_and_lists_chain() {
    let mut c = processor::dh::PipelineContext::default();
    c.file_name = "example.json".to_string();
    c.record_open(false);
    assert!(!c.buffer_open);
    c.record_open(true);
    c.record_open(false);
    assert!(c.buffer_open);
    assert_eq!(c.file_name, "example.json");
    let stage = processor::dh::OpenFile::new(Pipeline::Anonymize(Anonymize::default()));
    assert_eq!(stage.execute(), vec![Stage::OpenFile, Stage::Anonymize]);
}
