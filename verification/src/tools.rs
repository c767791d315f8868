//! The external tools: how each is invoked, and what its outcome means.
//!
//! The tools are black boxes. The pipeline relies only on whether a tool could
//! be started, on what it wrote to its standard streams and on the files that
//! it leaves.

use vstd::prelude::*;
use crate::decimal::{decimal_digits, push_decimal};
use crate::text::views_of;

verus! {

/// The width of the region that is cut out of a page image.
pub const CROP_WIDTH: u64 = 1000;

/// The height of the region that is cut out of a page image.
pub const CROP_HEIGHT: u64 = 1475;

/// How far the region lies from the left edge of the image.
pub const CROP_OFFSET_X: u64 = 150;

/// How far the region lies from the top edge of the image.
pub const CROP_OFFSET_Y: u64 = 150;

/// The language that the recognizer is set to.
pub const RECOGNIZER_LANGUAGE: &'static str = "jpn";

/// A tool's invocation: the program and its arguments, in order.
#[derive(Clone, Debug, PartialEq, Eq)]
pub struct Command {
    pub program: String,
    pub args: Vec<String>,
}

/// A tool's invocation, as sequences of characters.
pub struct CommandView {
    pub program: Seq<char>,
    pub args: Seq<Seq<char>>,
}

impl View for Command {
    type V = CommandView;

    open spec fn view(&self) -> CommandView {
        CommandView { program: self.program@, args: views_of(self.args@) }
    }
}

/// The region `WIDTHxHEIGHT+X+Y` in the notation of the cropper.
pub open spec fn geometry_of(width: nat, height: nat, x: nat, y: nat) -> Seq<char> {
    decimal_digits(width) + "x"@ + decimal_digits(height) + "+"@ + decimal_digits(x) + "+"@
        + decimal_digits(y)
}

/// The region that is cut out of every page image.
pub open spec fn crop_geometry_of() -> Seq<char> {
    geometry_of(CROP_WIDTH as nat, CROP_HEIGHT as nat, CROP_OFFSET_X as nat, CROP_OFFSET_Y as nat)
}

/// The page inspector, asked about the document at `document`.
pub open spec fn page_inspector_of(document: Seq<char>) -> CommandView {
    CommandView { program: "pdfinfo"@, args: seq![document] }
}

/// The rasterizer, set to write one JPEG image per page of the document
/// `base.pdf`, named `base-N.jpg`.
pub open spec fn rasterizer_of(base: Seq<char>) -> CommandView {
    CommandView { program: "pdftoppm"@, args: seq!["-jpeg"@, base + ".pdf"@, base] }
}

/// The cropper, set to cut the fixed region out of `image` in place.
pub open spec fn cropper_of(image: Seq<char>) -> CommandView {
    CommandView { program: "convert"@, args: seq!["-crop"@, crop_geometry_of(), image, image] }
}

/// The recognizer, set to read the image `page_base.jpg` and to write the text
/// `page_base.txt`.
pub open spec fn recognizer_of(page_base: Seq<char>) -> CommandView {
    CommandView {
        program: "tesseract"@,
        args: seq![page_base + ".jpg"@, page_base, "-l"@, RECOGNIZER_LANGUAGE@],
    }
}

/// The text-layer tool, set to leave the text of `document` beside it.
pub open spec fn text_layer_tool_of(document: Seq<char>) -> CommandView {
    CommandView { program: "pdftotext"@, args: seq![document, "-raw"@] }
}

/// The region `WIDTHxHEIGHT+X+Y` in the notation of the cropper.
pub fn geometry(width: u64, height: u64, x: u64, y: u64) -> (text: String)
    ensures
        text@ == geometry_of(width as nat, height as nat, x as nat, y as nat),
{
    let mut text = String::new();
    push_decimal(&mut text, width);
    text.append("x");
    push_decimal(&mut text, height);
    text.append("+");
    push_decimal(&mut text, x);
    text.append("+");
    push_decimal(&mut text, y);
    proof {
        assert(Seq::<char>::empty() + decimal_digits(width as nat) == decimal_digits(
            width as nat,
        ));
    }
    text
}

/// The invocation of the page inspector for the document at `document`.
pub fn page_inspector(document: &str) -> (command: Command)
    ensures
        command@ == page_inspector_of(document@),
{
    let mut args: Vec<String> = Vec::new();
    args.push(String::from_str(document));
    let command = Command { program: String::from_str("pdfinfo"), args };
    proof {
        assert(command@.args =~= seq![document@]);
    }
    command
}

/// The invocation of the rasterizer for the document `base.pdf`.
pub fn rasterizer(base: &str) -> (command: Command)
    ensures
        command@ == rasterizer_of(base@),
{
    let mut args: Vec<String> = Vec::new();
    args.push(String::from_str("-jpeg"));
    args.push(String::from_str(base).concat(".pdf"));
    args.push(String::from_str(base));
    let command = Command { program: String::from_str("pdftoppm"), args };
    proof {
        assert(command@.args =~= seq!["-jpeg"@, base@ + ".pdf"@, base@]);
    }
    command
}

/// The invocation of the cropper for the image at `image`.
pub fn cropper(image: &str) -> (command: Command)
    ensures
        command@ == cropper_of(image@),
{
    let mut args: Vec<String> = Vec::new();
    args.push(String::from_str("-crop"));
    args.push(geometry(CROP_WIDTH, CROP_HEIGHT, CROP_OFFSET_X, CROP_OFFSET_Y));
    args.push(String::from_str(image));
    args.push(String::from_str(image));
    let command = Command { program: String::from_str("convert"), args };
    proof {
        assert(command@.args =~= seq!["-crop"@, crop_geometry_of(), image@, image@]);
    }
    command
}

/// The invocation of the recognizer for the page whose files begin with
/// `page_base`.
pub fn recognizer(page_base: &str) -> (command: Command)
    ensures
        command@ == recognizer_of(page_base@),
{
    let mut args: Vec<String> = Vec::new();
    args.push(String::from_str(page_base).concat(".jpg"));
    args.push(String::from_str(page_base));
    args.push(String::from_str("-l"));
    args.push(String::from_str(RECOGNIZER_LANGUAGE));
    let command = Command { program: String::from_str("tesseract"), args };
    proof {
        assert(command@.args =~= seq![
            page_base@ + ".jpg"@,
            page_base@,
            "-l"@,
            RECOGNIZER_LANGUAGE@,
        ]);
    }
    command
}

/// The invocation of the text-layer tool for the document at `document`.
pub fn text_layer_tool(document: &str) -> (command: Command)
    ensures
        command@ == text_layer_tool_of(document@),
{
    let mut args: Vec<String> = Vec::new();
    args.push(String::from_str(document));
    args.push(String::from_str("-raw"));
    let command = Command { program: String::from_str("pdftotext"), args };
    proof {
        assert(command@.args =~= seq![document@, "-raw"@]);
    }
    command
}

/// How the run of a tool ended.
#[derive(Clone, Debug, PartialEq, Eq)]
pub enum ToolReport {
    /// The tool could not be started; the message says why.
    Unavailable(String),
    /// The tool ran; this is what it wrote to its standard streams.
    Exited { stdout: String, stderr: String },
}

/// How the run of a tool ended, as sequences of characters.
pub enum ToolReportView {
    Unavailable(Seq<char>),
    Exited { stdout: Seq<char>, stderr: Seq<char> },
}

impl View for ToolReport {
    type V = ToolReportView;

    open spec fn view(&self) -> ToolReportView {
        match self {
            ToolReport::Unavailable(message) => ToolReportView::Unavailable(message@),
            ToolReport::Exited { stdout, stderr } => ToolReportView::Exited {
                stdout: stdout@,
                stderr: stderr@,
            },
        }
    }
}

/// What a tool's run leaves to be recorded: the reason why it could not be
/// started, or what it wrote to its standard error, if it wrote anything.
pub open spec fn tool_diagnostic_of(report: ToolReportView) -> Option<Seq<char>> {
    match report {
        ToolReportView::Unavailable(message) => Some(message),
        ToolReportView::Exited { stderr, .. } => if stderr.len() == 0 {
            None
        } else {
            Some(stderr)
        },
    }
}

/// What the run of a tool leaves to be recorded, if anything.
pub fn tool_diagnostic(report: ToolReport) -> (diagnostic: Option<String>)
    ensures
        match tool_diagnostic_of(report@) {
            Some(text) => diagnostic matches Some(d) && d@ == text,
            None => diagnostic is None,
        },
{
    match report {
        ToolReport::Unavailable(message) => Some(message),
        ToolReport::Exited { stderr, .. } => if stderr.as_str().is_empty() {
            None
        } else {
            Some(stderr)
        },
    }
}

} // verus!
