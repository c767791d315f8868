use pdf2txt_precedent::cache::{resolve, CacheDecision, CacheState};
use pdf2txt_precedent::error::{PipelineError, RequiredField};
use pdf2txt_precedent::processor::{
    missing_artifact, Action, CaseProcessor, Event, ExtractionOutcome, Mode, Stage, Task,
};
use pdf2txt_precedent::record::CaseRecord;
use pdf2txt_precedent::tools::{Command, ToolReport};

fn record(case_number: Option<&str>, source_url: Option<&str>) -> CaseRecord {
    CaseRecord {
        identifier: "a1".to_string(),
        case_number: case_number.map(|s| s.to_string()),
        decision_date: None,
        source_url: source_url.map(|s| s.to_string()),
    }
}

fn processor_of(record: CaseRecord, mode: Mode, decision: CacheDecision) -> CaseProcessor {
    CaseProcessor::new(record, "tmp".to_string(), "out".to_string(), mode, decision)
}

fn processor(mode: Mode, decision: CacheDecision) -> CaseProcessor {
    processor_of(record(Some("A1"), Some("http://courts.example/a1.pdf")), mode, decision)
}

fn fetch_and_run() -> CacheDecision {
    CacheDecision { should_download: true, should_run: true }
}

fn run_only() -> CacheDecision {
    CacheDecision { should_download: false, should_run: true }
}

fn quiet() -> Event {
    Event::Tool(ToolReport::Exited { stdout: String::new(), stderr: String::new() })
}

fn complaint(text: &str) -> Event {
    Event::Tool(ToolReport::Exited { stdout: String::new(), stderr: text.to_string() })
}

fn report(stdout: &str) -> Event {
    Event::Tool(ToolReport::Exited { stdout: stdout.to_string(), stderr: String::new() })
}

fn file(text: &str) -> Event {
    Event::File(Some(text.to_string()))
}

fn program_of(action: &Action) -> String {
    match action {
        Action::Run(Command { program, .. }) => program.clone(),
        other => panic!("no tool is asked for: {:?}", other),
    }
}

fn last_argument_of(action: &Action) -> String {
    match action {
        Action::Run(Command { args, .. }) => args[args.len() - 1].clone(),
        other => panic!("no tool is asked for: {:?}", other),
    }
}

fn outcome_of(action: Action) -> ExtractionOutcome {
    match action {
        Action::Persist { outcome, .. } => outcome,
        other => panic!("the case is not done: {:?}", other),
    }
}

fn sidecar_of(action: &Action) -> Option<String> {
    match action {
        Action::Persist { sidecar, .. } => sidecar.clone(),
        other => panic!("the case is not done: {:?}", other),
    }
}

#[test]
fn new_case_is_pending() {
    let p = processor(Mode::Ocr, fetch_and_run());
    assert_eq!(p.stage(), Stage::Pending);
    assert_eq!(p.action(), Action::Begin);
    assert!(!p.is_finished());
    assert_eq!(p.result(), None);
}

#[test]
fn existing_text_skips_the_case() {
    let decision = resolve(true, false, CacheState { pdf_cached: false, text_produced: true });
    let (p, action) = processor(Mode::Ocr, decision).step(Event::Start);
    assert_eq!(action, Action::Skip);
    assert_eq!(p.stage(), Stage::SkippedCached);
    assert!(p.is_finished());
    assert_eq!(p.result(), Some(Ok(())));
    let (p, action) = p.step(quiet());
    assert_eq!(action, Action::Skip);
    assert_eq!(p.stage(), Stage::SkippedCached);
}

#[test]
fn forced_rerun_extracts_although_the_text_exists() {
    let decision = resolve(true, true, CacheState { pdf_cached: true, text_produced: true });
    let (p, action) = processor(Mode::TextLayer, decision).step(Event::Start);
    assert_eq!(p.stage(), Stage::Extracting(Task::ExtractTextLayer));
    assert_eq!(program_of(&action), "pdftotext");
}

#[test]
fn cached_document_is_not_fetched_again() {
    let decision = resolve(true, false, CacheState { pdf_cached: true, text_produced: false });
    let (p, action) = processor(Mode::Ocr, decision).step(Event::Start);
    assert_eq!(p.stage(), Stage::Counting);
    assert_eq!(
        action,
        Action::Run(Command { program: "pdfinfo".to_string(), args: vec!["tmp/a1.pdf".to_string()] })
    );
}

#[test]
fn document_is_fetched_without_cache() {
    let decision = resolve(false, false, CacheState { pdf_cached: true, text_produced: false });
    let (p, action) = processor(Mode::Ocr, decision).step(Event::Start);
    assert_eq!(p.stage(), Stage::Downloading);
    assert_eq!(
        action,
        Action::Fetch {
            url: "http://courts.example/a1.pdf".to_string(),
            path: "tmp/a1.pdf".to_string(),
        }
    );
}

#[test]
fn record_without_case_number_fails_the_case() {
    let p = processor_of(record(None, Some("u")), Mode::Ocr, fetch_and_run());
    let (p, action) = p.step(Event::Start);
    let error = PipelineError::Schema(RequiredField::CaseNumber);
    assert_eq!(action, Action::Abort(error));
    assert_eq!(p.stage(), Stage::Failed(error));
    assert!(p.is_finished());
    assert_eq!(p.result(), Some(Err(error)));
}

#[test]
fn record_without_location_fails_the_case_that_runs() {
    let p = processor_of(record(Some("A1"), None), Mode::Ocr, fetch_and_run());
    let (_, action) = p.step(Event::Start);
    assert_eq!(action, Action::Abort(PipelineError::Schema(RequiredField::SourceUrl)));
    let decision = CacheDecision { should_download: true, should_run: false };
    let skipped = processor_of(record(Some("A1"), None), Mode::Ocr, decision);
    let (_, action) = skipped.step(Event::Start);
    assert_eq!(action, Action::Skip);
}

#[test]
fn failed_fetch_fails_the_case() {
    let (p, _) = processor(Mode::TextLayer, fetch_and_run()).step(Event::Start);
    let (p, action) = p.step(Event::Fetched(false));
    assert_eq!(action, Action::Abort(PipelineError::Network));
    assert_eq!(p.stage(), Stage::Failed(PipelineError::Network));
}

#[test]
fn report_without_page_count_fails_the_case() {
    let (p, _) = processor(Mode::Ocr, run_only()).step(Event::Start);
    let (p, action) = p.step(report("Title: x\n"));
    assert_eq!(action, Action::Abort(PipelineError::Parse));
    assert_eq!(p.stage(), Stage::Failed(PipelineError::Parse));
}

#[test]
fn page_inspector_that_cannot_start_fails_the_case() {
    let (p, _) = processor(Mode::Ocr, run_only()).step(Event::Start);
    let (_, action) = p.step(Event::Tool(ToolReport::Unavailable("no pdfinfo".to_string())));
    assert_eq!(action, Action::Abort(PipelineError::Parse));
}

#[test]
fn event_that_is_not_waited_for_changes_nothing() {
    let (p, first) = processor(Mode::Ocr, fetch_and_run()).step(Event::Start);
    let (p, again) = p.step(file("stray"));
    assert_eq!(p.stage(), Stage::Downloading);
    assert_eq!(first, again);
}

#[test]
fn text_layer_case_runs_to_its_text() {
    let (p, action) = processor(Mode::TextLayer, fetch_and_run()).step(Event::Start);
    assert!(matches!(action, Action::Fetch { .. }));
    let (p, action) = p.step(Event::Fetched(true));
    assert_eq!(
        action,
        Action::Run(Command {
            program: "pdftotext".to_string(),
            args: vec!["tmp/a1.pdf".to_string(), "-raw".to_string()],
        })
    );
    let (p, action) = p.step(quiet());
    assert_eq!(action, Action::Read("tmp/a1.txt".to_string()));
    assert_eq!(p.stage(), Stage::Extracting(Task::ReadTextLayer));
    let (p, action) = p.step(file("Hello\nWorld\n- 2 -\n\nFoo\n12\nBar\n"));
    assert_eq!(p.stage(), Stage::Done);
    assert_eq!(
        action,
        Action::Persist {
            text_path: "out/a1.txt".to_string(),
            diagnostics_path: "tmp/a1_err.txt".to_string(),
            outcome: ExtractionOutcome {
                joined_text: "HelloWorld\nFooBar".to_string(),
                diagnostics: Vec::new(),
            },
            sidecar: None,
        }
    );
    assert_eq!(outcome_of(action).sidecar_text(Mode::TextLayer), None);
}

#[test]
fn complaint_of_the_text_layer_tool_is_recorded() {
    let (p, _) = processor(Mode::TextLayer, run_only()).step(Event::Start);
    let (p, _) = p.step(complaint("Syntax Warning: bad xref"));
    let (_, action) = p.step(file("text\n"));
    assert_eq!(sidecar_of(&action), Some("Syntax Warning: bad xref\n".to_string()));
    let outcome = outcome_of(action);
    assert_eq!(outcome.joined_text, "text");
    assert_eq!(outcome.diagnostics, vec!["Syntax Warning: bad xref".to_string()]);
    assert_eq!(
        outcome.sidecar_text(Mode::TextLayer),
        Some("Syntax Warning: bad xref\n".to_string())
    );
}

#[test]
fn missing_text_layer_output_is_recorded_and_the_text_is_empty() {
    let (p, _) = processor(Mode::TextLayer, run_only()).step(Event::Start);
    let (p, _) = p.step(quiet());
    let (p, action) = p.step(Event::File(None));
    assert_eq!(p.stage(), Stage::Done);
    assert_eq!(
        sidecar_of(&action),
        Some("'tmp/a1.txt': No such file or directory\n".to_string())
    );
    let outcome = outcome_of(action);
    assert_eq!(outcome.joined_text, "");
    assert_eq!(outcome.diagnostics, vec!["'tmp/a1.txt': No such file or directory".to_string()]);
    assert!(outcome.diagnostics[0].contains("tmp/a1.txt"));
}

#[test]
fn missing_artifact_message_names_the_path() {
    assert_eq!(missing_artifact("tmp/x-2.txt"), "'tmp/x-2.txt': No such file or directory");
}

#[test]
fn recognition_takes_every_page_in_order() {
    let (p, _) = processor(Mode::Ocr, fetch_and_run()).step(Event::Start);
    let (p, action) = p.step(Event::Fetched(true));
    assert_eq!(program_of(&action), "pdfinfo");
    let (p, action) = p.step(report("Pages:          2\n"));
    assert_eq!(p.page_count(), 2);
    assert_eq!(
        action,
        Action::Run(Command {
            program: "pdftoppm".to_string(),
            args: vec!["-jpeg".to_string(), "tmp/a1.pdf".to_string(), "tmp/a1".to_string()],
        })
    );
    let (p, action) = p.step(quiet());
    assert_eq!(p.stage(), Stage::Extracting(Task::Crop(1)));
    assert_eq!(program_of(&action), "convert");
    assert_eq!(last_argument_of(&action), "tmp/a1-1.jpg");
    let (p, action) = p.step(quiet());
    assert_eq!(p.stage(), Stage::Extracting(Task::Recognize(1)));
    assert_eq!(
        action,
        Action::Run(Command {
            program: "tesseract".to_string(),
            args: vec![
                "tmp/a1-1.jpg".to_string(),
                "tmp/a1-1".to_string(),
                "-l".to_string(),
                "jpn".to_string(),
            ],
        })
    );
    let (p, action) = p.step(quiet());
    assert_eq!(p.stage(), Stage::Extracting(Task::Crop(2)));
    assert_eq!(last_argument_of(&action), "tmp/a1-2.jpg");
    let (p, _) = p.step(quiet());
    let (p, action) = p.step(quiet());
    assert_eq!(p.stage(), Stage::Joining(1));
    assert_eq!(action, Action::Read("tmp/a1-1.txt".to_string()));
    let (p, action) = p.step(file("Hello\n"));
    assert_eq!(action, Action::Read("tmp/a1-2.txt".to_string()));
    let (p, action) = p.step(file("World\n"));
    assert_eq!(p.stage(), Stage::Done);
    assert!(p.is_finished());
    assert_eq!(
        action,
        Action::Persist {
            text_path: "out/a1.txt".to_string(),
            diagnostics_path: "tmp/a1_err.txt".to_string(),
            outcome: ExtractionOutcome {
                joined_text: "HelloWorld".to_string(),
                diagnostics: Vec::new(),
            },
            sidecar: None,
        }
    );
}

#[test]
fn failure_on_one_page_does_not_halt_the_page_loop() {
    let (p, _) = processor(Mode::Ocr, run_only()).step(Event::Start);
    let (p, _) = p.step(report("Pages: 3\n"));
    let (mut p, mut action) = p.step(quiet());
    let mut asked: Vec<String> = Vec::new();
    for page in 1..=3 {
        asked.push(format!("{} {}", program_of(&action), last_argument_of(&action)));
        (p, action) = p.step(quiet());
        asked.push(format!("{} {}", program_of(&action), last_argument_of(&action)));
        let outcome = if page == 2 {
            Event::Tool(ToolReport::Unavailable("tesseract: not found".to_string()))
        } else {
            quiet()
        };
        (p, action) = p.step(outcome);
    }
    assert_eq!(
        asked,
        vec![
            "convert tmp/a1-1.jpg",
            "tesseract jpn",
            "convert tmp/a1-2.jpg",
            "tesseract jpn",
            "convert tmp/a1-3.jpg",
            "tesseract jpn",
        ]
    );
    assert_eq!(action, Action::Read("tmp/a1-1.txt".to_string()));
    let (p, action) = p.step(file("one\n"));
    assert_eq!(action, Action::Read("tmp/a1-2.txt".to_string()));
    let (p, action) = p.step(Event::File(None));
    assert_eq!(action, Action::Read("tmp/a1-3.txt".to_string()));
    let (p, action) = p.step(file("\nthree\n"));
    assert_eq!(p.stage(), Stage::Done);
    assert_eq!(
        sidecar_of(&action),
        Some("tesseract: not found'tmp/a1-2.txt': No such file or directory".to_string())
    );
    let outcome = outcome_of(action);
    assert_eq!(outcome.joined_text, "onethree");
    assert_eq!(
        outcome.diagnostics,
        vec![
            "tesseract: not found".to_string(),
            "'tmp/a1-2.txt': No such file or directory".to_string(),
        ]
    );
}

fn recognition_of_pages(pages: usize) -> (CaseProcessor, Action) {
    let (p, _) = processor(Mode::Ocr, run_only()).step(Event::Start);
    let (p, _) = p.step(report(&format!("Pages: {}\n", pages)));
    p.step(quiet())
}

#[test]
fn complaint_of_one_recognition_is_the_whole_sidecar() {
    let (mut p, mut action) = recognition_of_pages(3);
    for page in 1..=3 {
        (p, action) = p.step(quiet());
        let outcome = if page == 2 { complaint("Error in pixRead: page 2\n") } else { quiet() };
        (p, action) = p.step(outcome);
    }
    for text in ["one", "two", "three"] {
        assert!(matches!(action, Action::Read(_)));
        (p, action) = p.step(file(text));
    }
    assert_eq!(p.stage(), Stage::Done);
    assert_eq!(sidecar_of(&action), Some("Error in pixRead: page 2\n".to_string()));
    let outcome = outcome_of(action);
    assert_eq!(outcome.joined_text, "onetwothree");
    assert_eq!(outcome.diagnostics, vec!["Error in pixRead: page 2\n".to_string()]);
}

#[test]
fn recognition_writes_tool_messages_one_after_the_other() {
    let (p, _) = recognition_of_pages(2);
    let (p, _) = p.step(complaint("crop 1"));
    let (p, _) = p.step(complaint("recognize 1"));
    let (p, _) = p.step(quiet());
    let (p, _) = p.step(complaint("recognize 2\n"));
    let (p, _) = p.step(file("a"));
    let (_, action) = p.step(file("b"));
    assert_eq!(sidecar_of(&action), Some("crop 1recognize 1recognize 2\n".to_string()));
    assert_eq!(
        outcome_of(action).diagnostics,
        vec!["crop 1".to_string(), "recognize 1".to_string(), "recognize 2\n".to_string()]
    );
}

#[test]
fn sidecar_text_depends_on_the_mode() {
    let outcome = ExtractionOutcome {
        joined_text: String::new(),
        diagnostics: vec!["first".to_string(), "second\n".to_string()],
    };
    assert_eq!(outcome.sidecar_text(Mode::Ocr), Some("firstsecond\n".to_string()));
    assert_eq!(outcome.sidecar_text(Mode::TextLayer), Some("first\nsecond\n\n".to_string()));
    let silent = ExtractionOutcome { joined_text: "x".to_string(), diagnostics: Vec::new() };
    assert_eq!(silent.sidecar_text(Mode::Ocr), None);
    assert_eq!(silent.sidecar_text(Mode::TextLayer), None);
}

#[test]
fn every_processor_is_well_formed() {
    let p = processor(Mode::Ocr, run_only());
    p.assure_well_formed();
    assert_eq!(p.stage(), Stage::Pending);
}

#[test]
fn complaints_of_rasterizer_and_cropper_are_recorded_in_order() {
    let (p, _) = processor(Mode::Ocr, run_only()).step(Event::Start);
    let (p, _) = p.step(report("Pages: 1\n"));
    let (p, _) = p.step(complaint("raster warning"));
    let (p, _) = p.step(complaint("crop warning"));
    let (p, _) = p.step(quiet());
    let (_, action) = p.step(file("x"));
    assert_eq!(
        outcome_of(action).diagnostics,
        vec!["raster warning".to_string(), "crop warning".to_string()]
    );
}

#[test]
fn document_without_pages_is_done_with_no_text() {
    let (p, _) = processor(Mode::Ocr, run_only()).step(Event::Start);
    let (p, _) = p.step(report("Pages: 0\n"));
    let (p, action) = p.step(quiet());
    assert_eq!(p.stage(), Stage::Done);
    assert_eq!(outcome_of(action).joined_text, "");
}

#[test]
fn outcome_is_what_has_been_read_so_far() {
    let (p, _) = processor(Mode::Ocr, run_only()).step(Event::Start);
    assert_eq!(
        p.outcome(),
        ExtractionOutcome { joined_text: String::new(), diagnostics: Vec::new() }
    );
}
