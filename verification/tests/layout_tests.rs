use pdf2txt_precedent::layout::{
    diagnostics_path, document_path, output_path, page_artifact, page_artifacts, page_base,
    page_image_path, page_text_path, text_layer_path, working_base,
};
use pdf2txt_precedent::record::{synthesized_name, CaseRecord, DecisionDate};
use pdf2txt_precedent::error::{PipelineError, RequiredField};
use pdf2txt_precedent::tools::{
    cropper, geometry, page_inspector, rasterizer, recognizer, text_layer_tool, tool_diagnostic,
    Command, ToolReport,
};

fn strings(items: &[&str]) -> Vec<String> {
    let mut out = Vec::new();
    for item in items {
        out.push(item.to_string());
    }
    out
}

#[test]
fn working_files_lie_in_the_working_directory() {
    assert_eq!(working_base("tmp", "case1"), "tmp/case1");
    assert_eq!(document_path("tmp", "case1"), "tmp/case1.pdf");
    assert_eq!(text_layer_path("tmp", "case1"), "tmp/case1.txt");
    assert_eq!(diagnostics_path("tmp", "case1"), "tmp/case1_err.txt");
}

#[test]
fn final_text_lies_in_the_output_directory() {
    assert_eq!(output_path(".", "case1"), "./case1.txt");
    assert_eq!(output_path("out/dir", "令和4(あ)1"), "out/dir/令和4(あ)1.txt");
}

#[test]
fn page_files_carry_the_page_number() {
    assert_eq!(page_base("tmp", "c", 1), "tmp/c-1");
    assert_eq!(page_image_path("tmp", "c", 1), "tmp/c-1.jpg");
    assert_eq!(page_text_path("tmp", "c", 12), "tmp/c-12.txt");
    assert_eq!(page_image_path("tmp", "c", 100), "tmp/c-100.jpg");
}

#[test]
fn page_artifact_names_the_files_of_its_page() {
    let artifact = page_artifact("tmp", "c", 3);
    assert_eq!(artifact.page_index, 3);
    assert_eq!(artifact.raster_path, "tmp/c-3.jpg");
    assert_eq!(artifact.cropped_path, "tmp/c-3.jpg");
    assert_eq!(artifact.recognized_text_path, "tmp/c-3.txt");
}

#[test]
fn page_artifacts_cover_every_page_in_order() {
    let artifacts = page_artifacts("tmp", "c", 3);
    assert_eq!(artifacts.len(), 3);
    for (i, artifact) in artifacts.iter().enumerate() {
        assert_eq!(artifact.page_index, i + 1);
        assert_eq!(artifact.recognized_text_path, format!("tmp/c-{}.txt", i + 1));
    }
    assert!(page_artifacts("tmp", "c", 0).is_empty());
}

#[test]
fn name_is_made_of_case_number_and_date() {
    let date = DecisionDate { year: 2023, month: 4, day: 1 };
    assert_eq!(synthesized_name("令和4(あ)1", date), "令和4(あ)1_2023_4_1");
}

fn text(value: &str) -> Option<String> {
    Some(value.to_string())
}

#[test]
fn named_record_keeps_its_name() {
    let date = DecisionDate { year: 2022, month: 1, day: 2 };
    assert_eq!(
        CaseRecord::named("n".to_string(), text("A1"), Some(date), text("http://x/y.pdf")),
        CaseRecord {
            identifier: "n".to_string(),
            case_number: text("A1"),
            decision_date: Some(date),
            source_url: text("http://x/y.pdf"),
        }
    );
}

#[test]
fn listed_record_is_named_after_its_case() {
    let date = DecisionDate { year: 2022, month: 12, day: 31 };
    assert_eq!(
        CaseRecord::listed(text("A1"), Some(date), None),
        Ok(CaseRecord {
            identifier: "A1_2022_12_31".to_string(),
            case_number: text("A1"),
            decision_date: Some(date),
            source_url: None,
        })
    );
}

#[test]
fn listed_record_needs_case_number_and_date() {
    let date = DecisionDate { year: 2022, month: 12, day: 31 };
    assert_eq!(
        CaseRecord::listed(None, Some(date), text("u")),
        Err(PipelineError::Schema(RequiredField::CaseNumber))
    );
    assert_eq!(
        CaseRecord::listed(text("A1"), None, text("u")),
        Err(PipelineError::Schema(RequiredField::DecisionDate))
    );
    assert_eq!(
        CaseRecord::listed(None, None, None),
        Err(PipelineError::Schema(RequiredField::CaseNumber))
    );
}

#[test]
fn crop_region_is_fixed() {
    assert_eq!(geometry(1000, 1475, 150, 150), "1000x1475+150+150");
    assert_eq!(geometry(0, 1, 20, 300), "0x1+20+300");
}

#[test]
fn tools_are_invoked_as_documented() {
    assert_eq!(
        page_inspector("tmp/c.pdf"),
        Command { program: "pdfinfo".to_string(), args: strings(&["tmp/c.pdf"]) }
    );
    assert_eq!(
        rasterizer("tmp/c"),
        Command { program: "pdftoppm".to_string(), args: strings(&["-jpeg", "tmp/c.pdf", "tmp/c"]) }
    );
    assert_eq!(
        cropper("tmp/c-1.jpg"),
        Command {
            program: "convert".to_string(),
            args: strings(&["-crop", "1000x1475+150+150", "tmp/c-1.jpg", "tmp/c-1.jpg"]),
        }
    );
    assert_eq!(
        recognizer("tmp/c-1"),
        Command {
            program: "tesseract".to_string(),
            args: strings(&["tmp/c-1.jpg", "tmp/c-1", "-l", "jpn"]),
        }
    );
    assert_eq!(
        text_layer_tool("tmp/c.pdf"),
        Command { program: "pdftotext".to_string(), args: strings(&["tmp/c.pdf", "-raw"]) }
    );
}

#[test]
fn silent_tool_leaves_nothing_to_record() {
    let report = ToolReport::Exited { stdout: "out".to_string(), stderr: String::new() };
    assert_eq!(tool_diagnostic(report), None);
}

#[test]
fn complaint_of_a_tool_is_recorded() {
    let report = ToolReport::Exited { stdout: String::new(), stderr: "warning: x\n".to_string() };
    assert_eq!(tool_diagnostic(report), Some("warning: x\n".to_string()));
}

#[test]
fn tool_that_cannot_start_is_recorded() {
    let report = ToolReport::Unavailable("convert: not found".to_string());
    assert_eq!(tool_diagnostic(report), Some("convert: not found".to_string()));
}
