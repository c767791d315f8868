//! The work on one case, as a state machine.
//!
//! The machine decides; its caller does the outside work. The caller hands in
//! an event, the machine moves to its next state and answers with the action
//! that this state asks for. The caller performs the action and hands in what
//! came of it, until the machine asks to skip, to persist or to abort.
//!
//! A case starts `Pending` and moves through `Downloading`, `Counting` (with
//! recognition only), `Extracting` and `Joining` to `Done`; it ends early as
//! `SkippedCached` where its text exists already, and as `Failed` on a fatal
//! error. A stage without outside work is passed within one step. What a tool
//! complains of and what is missing of its output never stops the machine: it
//! is recorded and the work goes on.
//!
//! What was recorded goes to the sidecar file of the case. With the text
//! layer every entry is closed by a line feed there; with recognition the
//! entries are written as they were recorded, with nothing added.

use vstd::prelude::*;
use crate::cache::CacheDecision;
use crate::error::{PipelineError, RequiredField};
use crate::filter::{filter_text_layer, filtered_text};
use crate::join::{join_page_texts, join_pdf2txt_text, normalized, pages_joined};
use crate::layout::{
    diagnostics_path, diagnostics_path_of, document_path, document_path_of, output_path,
    output_path_of, page_base, page_base_of, page_image_path, page_image_path_of, page_text_path,
    page_text_path_of, text_layer_path, text_layer_path_of, working_base, working_base_of,
};
use crate::pagecount::{parse_page_count, reported_page_count};
use crate::record::{text_of, CaseRecord};
use crate::text::views_of;
use crate::tools::{
    cropper, cropper_of, page_inspector, page_inspector_of, rasterizer, rasterizer_of, recognizer,
    recognizer_of, text_layer_tool, text_layer_tool_of, tool_diagnostic, tool_diagnostic_of,
    Command, CommandView, ToolReport, ToolReportView,
};

verus! {

/// How the text is got out of the document.
#[derive(Clone, Copy, Debug, PartialEq, Eq, Structural)]
pub enum Mode {
    /// The text layer of the document is extracted as a whole.
    TextLayer,
    /// Every page is turned into an image and recognized.
    Ocr,
}

/// The piece of outside work that an extraction waits for.
#[derive(Clone, Copy, Debug, PartialEq, Eq, Structural)]
pub enum Task {
    /// The text-layer tool runs on the document.
    ExtractTextLayer,
    /// The text that the text-layer tool left is read.
    ReadTextLayer,
    /// The rasterizer turns the document into one image per page.
    Rasterize,
    /// The image of the page is cropped.
    Crop(usize),
    /// The image of the page is recognized.
    Recognize(usize),
}

/// Where the work on a case stands.
#[derive(Clone, Copy, Debug, PartialEq, Eq, Structural)]
pub enum Stage {
    /// Nothing has been decided yet.
    Pending,
    /// The text of the case exists already; nothing is done.
    SkippedCached,
    /// The document is being fetched.
    Downloading,
    /// The page inspector is counting the pages.
    Counting,
    /// The text is being extracted.
    Extracting(Task),
    /// The recognized text of the page is being read.
    Joining(usize),
    /// The text of the case is ready.
    Done,
    /// The work ended on a fatal error.
    Failed(PipelineError),
}

/// What came of the outside work.
#[derive(Clone, Debug, PartialEq, Eq)]
pub enum Event {
    /// The work on the case begins.
    Start,
    /// The fetch ended; the flag says whether the transport succeeded.
    Fetched(bool),
    /// A tool's run ended.
    Tool(ToolReport),
    /// A file was read, or found missing.
    File(Option<String>),
}

/// What came of the outside work, as sequences of characters.
pub enum EventView {
    Start,
    Fetched(bool),
    Tool(ToolReportView),
    File(Option<Seq<char>>),
}

impl View for Event {
    type V = EventView;

    open spec fn view(&self) -> EventView {
        match self {
            Event::Start => EventView::Start,
            Event::Fetched(ok) => EventView::Fetched(*ok),
            Event::Tool(report) => EventView::Tool(report@),
            Event::File(contents) => EventView::File(text_of(*contents)),
        }
    }
}

/// What the extraction of a case yields.
#[derive(Clone, Debug, PartialEq, Eq)]
pub struct ExtractionOutcome {
    /// The normalized text.
    pub joined_text: String,
    /// What was recorded on the way, in order.
    pub diagnostics: Vec<String>,
}

/// What the extraction of a case yields, as sequences of characters.
pub struct OutcomeView {
    pub joined_text: Seq<char>,
    pub diagnostics: Seq<Seq<char>>,
}

impl View for ExtractionOutcome {
    type V = OutcomeView;

    open spec fn view(&self) -> OutcomeView {
        OutcomeView { joined_text: self.joined_text@, diagnostics: views_of(self.diagnostics@) }
    }
}

/// What the caller is asked to do.
#[derive(Clone, Debug, PartialEq, Eq)]
pub enum Action {
    /// Hand in `Event::Start`.
    Begin,
    /// Nothing: the text of the case exists already.
    Skip,
    /// Fetch the document from `url` and store it at `path`; then hand in
    /// `Event::Fetched`.
    Fetch { url: String, path: String },
    /// Run the tool; then hand in `Event::Tool`.
    Run(Command),
    /// Read the file at the path; then hand in `Event::File`.
    Read(String),
    /// Write the text of the outcome to `text_path`, and the sidecar text, if
    /// there is one, to `diagnostics_path`. The case is done.
    Persist {
        text_path: String,
        diagnostics_path: String,
        outcome: ExtractionOutcome,
        sidecar: Option<String>,
    },
    /// Give up the case with this error.
    Abort(PipelineError),
}

/// What the caller is asked to do, as sequences of characters.
pub enum ActionView {
    Begin,
    Skip,
    Fetch { url: Seq<char>, path: Seq<char> },
    Run(CommandView),
    Read(Seq<char>),
    Persist {
        text_path: Seq<char>,
        diagnostics_path: Seq<char>,
        outcome: OutcomeView,
        sidecar: Option<Seq<char>>,
    },
    Abort(PipelineError),
}

impl View for Action {
    type V = ActionView;

    open spec fn view(&self) -> ActionView {
        match self {
            Action::Begin => ActionView::Begin,
            Action::Skip => ActionView::Skip,
            Action::Fetch { url, path } => ActionView::Fetch { url: url@, path: path@ },
            Action::Run(command) => ActionView::Run(command@),
            Action::Read(path) => ActionView::Read(path@),
            Action::Persist { text_path, diagnostics_path, outcome, sidecar } => {
                ActionView::Persist {
                    text_path: text_path@,
                    diagnostics_path: diagnostics_path@,
                    outcome: outcome@,
                    sidecar: text_of(*sidecar),
                }
            },
            Action::Abort(error) => ActionView::Abort(*error),
        }
    }
}

/// The state of the work on one case.
#[verifier::ext_equal]
pub struct ProcessorView {
    /// The name of the case's files.
    pub name: Seq<char>,
    /// The case number of the record, if it holds one.
    pub case_number: Option<Seq<char>>,
    /// The location of the document, if the record holds one.
    pub source_url: Option<Seq<char>>,
    /// The working directory.
    pub tmp_dir: Seq<char>,
    /// The output directory.
    pub out_dir: Seq<char>,
    pub mode: Mode,
    /// Whether the document has to be fetched.
    pub should_download: bool,
    /// Whether the text has to be extracted.
    pub should_run: bool,
    pub stage: Stage,
    /// The number of pages, once they have been counted.
    pub page_count: usize,
    /// What has been recorded so far, in order.
    pub diagnostics: Seq<Seq<char>>,
    /// The texts that have been read so far, in order.
    pub texts: Seq<Seq<char>>,
}

/// What is recorded of a file that is missing at `path`.
pub open spec fn missing_artifact_of(path: Seq<char>) -> Seq<char> {
    "'"@ + path + "': No such file or directory"@
}

/// The diagnostics with one more entry, if there is one.
pub open spec fn recorded(diagnostics: Seq<Seq<char>>, entry: Option<Seq<char>>) -> Seq<
    Seq<char>,
> {
    match entry {
        Some(text) => diagnostics.push(text),
        None => diagnostics,
    }
}

/// The stage that follows once the document is at hand.
pub open spec fn stage_after_fetch(mode: Mode) -> Stage {
    match mode {
        Mode::Ocr => Stage::Counting,
        Mode::TextLayer => Stage::Extracting(Task::ExtractTextLayer),
    }
}

/// The stage that follows the rasterizer: the first page, or the end where
/// the document has no page.
pub open spec fn stage_after_rasterize(page_count: usize) -> Stage {
    if page_count >= 1 {
        Stage::Extracting(Task::Crop(1))
    } else {
        Stage::Done
    }
}

/// The stage that follows the recognition of `page`: the next page, or the
/// reading of the first page's text after the last page.
pub open spec fn stage_after_recognize(page: usize, page_count: usize) -> Stage {
    if page < page_count {
        Stage::Extracting(Task::Crop((page + 1) as usize))
    } else {
        Stage::Joining(1)
    }
}

/// The stage that follows the reading of the text of `page`: the next page,
/// or the end after the last page.
pub open spec fn stage_after_read(page: usize, page_count: usize) -> Stage {
    if page < page_count {
        Stage::Joining((page + 1) as usize)
    } else {
        Stage::Done
    }
}

/// The state that follows `s` on the event `e`. An event that the stage does
/// not wait for changes nothing.
pub open spec fn next_state(s: ProcessorView, e: EventView) -> ProcessorView {
    match (s.stage, e) {
        (Stage::Pending, EventView::Start) => if s.case_number is None {
            ProcessorView {
                stage: Stage::Failed(PipelineError::Schema(RequiredField::CaseNumber)),
                ..s
            }
        } else if !s.should_run {
            ProcessorView { stage: Stage::SkippedCached, ..s }
        } else if s.source_url is None {
            ProcessorView {
                stage: Stage::Failed(PipelineError::Schema(RequiredField::SourceUrl)),
                ..s
            }
        } else if s.should_download {
            ProcessorView { stage: Stage::Downloading, ..s }
        } else {
            ProcessorView { stage: stage_after_fetch(s.mode), ..s }
        },
        (Stage::Downloading, EventView::Fetched(ok)) => if ok {
            ProcessorView { stage: stage_after_fetch(s.mode), ..s }
        } else {
            ProcessorView { stage: Stage::Failed(PipelineError::Network), ..s }
        },
        (Stage::Counting, EventView::Tool(ToolReportView::Exited { stdout, .. })) => {
            match reported_page_count(stdout) {
                Ok(count) => ProcessorView {
                    stage: Stage::Extracting(Task::Rasterize),
                    page_count: count,
                    ..s
                },
                Err(error) => ProcessorView { stage: Stage::Failed(error), ..s },
            }
        },
        (Stage::Counting, EventView::Tool(ToolReportView::Unavailable(_))) => ProcessorView {
            stage: Stage::Failed(PipelineError::Parse),
            ..s
        },
        (Stage::Extracting(Task::ExtractTextLayer), EventView::Tool(report)) => ProcessorView {
            stage: Stage::Extracting(Task::ReadTextLayer),
            diagnostics: recorded(s.diagnostics, tool_diagnostic_of(report)),
            ..s
        },
        (Stage::Extracting(Task::ReadTextLayer), EventView::File(Some(text))) => {
            match filtered_text(text) {
                Some(kept) => ProcessorView { stage: Stage::Done, texts: s.texts.push(kept), ..s },
                None => ProcessorView { stage: Stage::Failed(PipelineError::Pattern), ..s },
            }
        },
        (Stage::Extracting(Task::ReadTextLayer), EventView::File(None)) => ProcessorView {
            stage: Stage::Done,
            diagnostics: s.diagnostics.push(
                missing_artifact_of(text_layer_path_of(s.tmp_dir, s.name)),
            ),
            ..s
        },
        (Stage::Extracting(Task::Rasterize), EventView::Tool(report)) => ProcessorView {
            stage: stage_after_rasterize(s.page_count),
            diagnostics: recorded(s.diagnostics, tool_diagnostic_of(report)),
            ..s
        },
        (Stage::Extracting(Task::Crop(page)), EventView::Tool(report)) => ProcessorView {
            stage: Stage::Extracting(Task::Recognize(page)),
            diagnostics: recorded(s.diagnostics, tool_diagnostic_of(report)),
            ..s
        },
        (Stage::Extracting(Task::Recognize(page)), EventView::Tool(report)) => ProcessorView {
            stage: stage_after_recognize(page, s.page_count),
            diagnostics: recorded(s.diagnostics, tool_diagnostic_of(report)),
            ..s
        },
        (Stage::Joining(page), EventView::File(Some(text))) => ProcessorView {
            stage: stage_after_read(page, s.page_count),
            texts: s.texts.push(text),
            ..s
        },
        (Stage::Joining(page), EventView::File(None)) => ProcessorView {
            stage: stage_after_read(page, s.page_count),
            diagnostics: s.diagnostics.push(
                missing_artifact_of(page_text_path_of(s.tmp_dir, s.name, page as nat)),
            ),
            ..s
        },
        _ => s,
    }
}

/// The text of the case: with recognition the joined texts of the pages, with
/// the text layer the normalized form of the filtered text, and nothing where
/// no text was read.
pub open spec fn joined_text_of(s: ProcessorView) -> Seq<char> {
    match s.mode {
        Mode::Ocr => pages_joined(s.texts),
        Mode::TextLayer => if s.texts.len() > 0 {
            normalized(s.texts[0])
        } else {
            Seq::empty()
        },
    }
}

/// What the extraction has yielded in the state `s`.
pub open spec fn outcome_of(s: ProcessorView) -> OutcomeView {
    OutcomeView { joined_text: joined_text_of(s), diagnostics: s.diagnostics }
}

/// The action that the state `s` asks for.
pub open spec fn action_of(s: ProcessorView) -> ActionView {
    match s.stage {
        Stage::Pending => ActionView::Begin,
        Stage::SkippedCached => ActionView::Skip,
        Stage::Downloading => ActionView::Fetch {
            url: match s.source_url {
                Some(url) => url,
                None => Seq::empty(),
            },
            path: document_path_of(s.tmp_dir, s.name),
        },
        Stage::Counting => ActionView::Run(page_inspector_of(document_path_of(s.tmp_dir, s.name))),
        Stage::Extracting(Task::ExtractTextLayer) => ActionView::Run(
            text_layer_tool_of(document_path_of(s.tmp_dir, s.name)),
        ),
        Stage::Extracting(Task::ReadTextLayer) => ActionView::Read(
            text_layer_path_of(s.tmp_dir, s.name),
        ),
        Stage::Extracting(Task::Rasterize) => ActionView::Run(
            rasterizer_of(working_base_of(s.tmp_dir, s.name)),
        ),
        Stage::Extracting(Task::Crop(page)) => ActionView::Run(
            cropper_of(page_image_path_of(s.tmp_dir, s.name, page as nat)),
        ),
        Stage::Extracting(Task::Recognize(page)) => ActionView::Run(
            recognizer_of(page_base_of(s.tmp_dir, s.name, page as nat)),
        ),
        Stage::Joining(page) => ActionView::Read(page_text_path_of(s.tmp_dir, s.name, page as nat)),
        Stage::Done => ActionView::Persist {
            text_path: output_path_of(s.out_dir, s.name),
            diagnostics_path: diagnostics_path_of(s.tmp_dir, s.name),
            outcome: outcome_of(s),
            sidecar: sidecar_of(s.mode, s.diagnostics),
        },
        Stage::Failed(error) => ActionView::Abort(error),
    }
}

/// The entries one after the other, each closed by a line feed.
pub open spec fn entries_as_lines(entries: Seq<Seq<char>>) -> Seq<char>
    decreases entries.len(),
{
    if entries.len() == 0 {
        Seq::empty()
    } else {
        entries_as_lines(entries.drop_last()) + entries.last().push('\n')
    }
}

/// The entries one after the other, with nothing put between them.
pub open spec fn entries_as_they_are(entries: Seq<Seq<char>>) -> Seq<char>
    decreases entries.len(),
{
    if entries.len() == 0 {
        Seq::empty()
    } else {
        entries_as_they_are(entries.drop_last()) + entries.last()
    }
}

/// The diagnostics as the text of the sidecar file. With the text layer
/// every entry is closed by a line feed. With recognition the entries are
/// written as they were recorded, one after the other and with nothing
/// added: what a tool writes to its standard error brings its own line
/// endings. This holds of every entry of a recognition, also of the reason
/// why a tool could not be started and of the message for a page text that
/// is missing.
pub open spec fn rendered(mode: Mode, diagnostics: Seq<Seq<char>>) -> Seq<char> {
    match mode {
        Mode::TextLayer => entries_as_lines(diagnostics),
        Mode::Ocr => entries_as_they_are(diagnostics),
    }
}

/// The text of the sidecar file, which exists only where something was
/// recorded.
pub open spec fn sidecar_of(mode: Mode, diagnostics: Seq<Seq<char>>) -> Option<Seq<char>> {
    if diagnostics.len() == 0 {
        None
    } else {
        Some(rendered(mode, diagnostics))
    }
}

/// The stages at which the work has ended.
pub open spec fn is_terminal(stage: Stage) -> bool {
    stage == Stage::SkippedCached || stage == Stage::Done || stage is Failed
}

/// How the case ended, once it has ended.
pub open spec fn result_of(stage: Stage) -> Option<Result<(), PipelineError>> {
    match stage {
        Stage::SkippedCached => Some(Ok(())),
        Stage::Done => Some(Ok(())),
        Stage::Failed(error) => Some(Err(error)),
        _ => None,
    }
}

/// The record holds what a running case needs, and the run was asked for.
pub open spec fn is_running(s: ProcessorView) -> bool {
    s.case_number is Some && s.source_url is Some && s.should_run
}

/// The states that the machine can be in: each stage goes with the mode that
/// it belongs to, a page in work is one of the document's pages, and no more
/// texts have been read than the stage allows.
pub open spec fn well_formed(s: ProcessorView) -> bool {
    match s.stage {
        Stage::Pending => s.texts.len() == 0,
        Stage::SkippedCached => s.case_number is Some && !s.should_run && s.texts.len() == 0,
        Stage::Downloading => is_running(s) && s.should_download && s.texts.len() == 0,
        Stage::Counting => is_running(s) && s.mode == Mode::Ocr && s.texts.len() == 0,
        Stage::Extracting(Task::ExtractTextLayer) => is_running(s) && s.mode == Mode::TextLayer
            && s.texts.len() == 0,
        Stage::Extracting(Task::ReadTextLayer) => is_running(s) && s.mode == Mode::TextLayer
            && s.texts.len() == 0,
        Stage::Extracting(Task::Rasterize) => is_running(s) && s.mode == Mode::Ocr && s.texts.len()
            == 0,
        Stage::Extracting(Task::Crop(page)) => is_running(s) && s.mode == Mode::Ocr && 1 <= page
            <= s.page_count && s.texts.len() == 0,
        Stage::Extracting(Task::Recognize(page)) => is_running(s) && s.mode == Mode::Ocr && 1
            <= page <= s.page_count && s.texts.len() == 0,
        Stage::Joining(page) => is_running(s) && s.mode == Mode::Ocr && 1 <= page <= s.page_count
            && s.texts.len() < page,
        Stage::Done => is_running(s) && match s.mode {
            Mode::TextLayer => s.texts.len() <= 1,
            Mode::Ocr => s.texts.len() <= s.page_count,
        },
        Stage::Failed(_) => true,
    }
}

/// The stage that follows once the document is at hand.
pub fn after_fetch(mode: Mode) -> (stage: Stage)
    ensures
        stage == stage_after_fetch(mode),
{
    match mode {
        Mode::Ocr => Stage::Counting,
        Mode::TextLayer => Stage::Extracting(Task::ExtractTextLayer),
    }
}

/// What is recorded of a file that is missing at `path`.
pub fn missing_artifact(path: &str) -> (message: String)
    ensures
        message@ == missing_artifact_of(path@),
{
    String::from_str("'").concat(path).concat("': No such file or directory")
}

impl ExtractionOutcome {
    /// The text of the sidecar file of a case that was worked on in `mode`.
    /// There is none where nothing was recorded. With the text layer every
    /// diagnostic is closed by a line feed; with recognition the diagnostics
    /// are written as they were recorded, with nothing added.
    pub fn sidecar_text(&self, mode: Mode) -> (text: Option<String>)
        ensures
            match sidecar_of(mode, self@.diagnostics) {
                Some(expected) => text matches Some(t) && t@ == expected,
                None => text is None,
            },
    {
        if self.diagnostics.len() == 0 {
            return None;
        }
        let ghost entries = views_of(self.diagnostics@);
        let mut text = String::new();
        let mut i: usize = 0;
        proof {
            assert(entries.take(0) == Seq::<Seq<char>>::empty());
        }
        while i < self.diagnostics.len()
            invariant
                i <= self.diagnostics.len(),
                entries == views_of(self.diagnostics@),
                text@ == rendered(mode, entries.take(i as int)),
            decreases self.diagnostics.len() - i,
        {
            proof {
                assert(entries.take(i + 1).drop_last() == entries.take(i as int));
                assert(entries.take(i + 1).last() == self.diagnostics[i as int]@);
                let before = text@;
                let entry = self.diagnostics[i as int]@;
                assert((before + entry).push('\n') == before + entry.push('\n'));
            }
            text.append(self.diagnostics[i].as_str());
            match mode {
                Mode::TextLayer => {
                    text.push('\n');
                },
                Mode::Ocr => {},
            }
            i += 1;
        }
        proof {
            assert(entries.take(entries.len() as int) == entries);
        }
        Some(text)
    }
}

/// The work on one case.
pub struct CaseProcessor {
    record: CaseRecord,
    tmp_dir: String,
    out_dir: String,
    mode: Mode,
    decision: CacheDecision,
    stage: Stage,
    page_count: usize,
    diagnostics: Vec<String>,
    texts: Vec<String>,
}

impl View for CaseProcessor {
    type V = ProcessorView;

    closed spec fn view(&self) -> ProcessorView {
        ProcessorView {
            name: self.record.identifier@,
            case_number: text_of(self.record.case_number),
            source_url: text_of(self.record.source_url),
            tmp_dir: self.tmp_dir@,
            out_dir: self.out_dir@,
            mode: self.mode,
            should_download: self.decision.should_download,
            should_run: self.decision.should_run,
            stage: self.stage,
            page_count: self.page_count,
            diagnostics: views_of(self.diagnostics@),
            texts: views_of(self.texts@),
        }
    }
}

impl CaseProcessor {
    #[verifier::type_invariant]
    spec fn is_well_formed(self) -> bool {
        well_formed(self@)
    }

    /// Every processor is in a state that the machine can be in. A caller
    /// that is handed a processor learns it from this call, which does
    /// nothing when it runs.
    pub fn assure_well_formed(&self)
        ensures
            well_formed(self@),
    {
        proof {
            use_type_invariant(self);
        }
    }

    /// The work on the case of `record`, before anything is decided.
    pub fn new(
        record: CaseRecord,
        tmp_dir: String,
        out_dir: String,
        mode: Mode,
        decision: CacheDecision,
    ) -> (processor: Self)
        ensures
            processor@ == (ProcessorView {
                name: record@.identifier,
                case_number: record@.case_number,
                source_url: record@.source_url,
                tmp_dir: tmp_dir@,
                out_dir: out_dir@,
                mode,
                should_download: decision.should_download,
                should_run: decision.should_run,
                stage: Stage::Pending,
                page_count: 0,
                diagnostics: Seq::empty(),
                texts: Seq::empty(),
            }),
            well_formed(processor@),
    {
        let processor = CaseProcessor {
            record,
            tmp_dir,
            out_dir,
            mode,
            decision,
            stage: Stage::Pending,
            page_count: 0,
            diagnostics: Vec::new(),
            texts: Vec::new(),
        };
        proof {
            assert(processor@.diagnostics =~= Seq::empty());
            assert(processor@.texts =~= Seq::empty());
        }
        processor
    }

    /// Where the work stands.
    pub fn stage(&self) -> (stage: Stage)
        ensures
            stage == self@.stage,
    {
        self.stage
    }

    /// The number of pages, once they have been counted.
    pub fn page_count(&self) -> (count: usize)
        ensures
            count == self@.page_count,
    {
        self.page_count
    }

    /// How the case ended, once it has ended: well, where its text is ready
    /// or existed already, and with the error otherwise.
    pub fn result(&self) -> (result: Option<Result<(), PipelineError>>)
        ensures
            result == result_of(self@.stage),
    {
        match self.stage {
            Stage::SkippedCached => Some(Ok(())),
            Stage::Done => Some(Ok(())),
            Stage::Failed(error) => Some(Err(error)),
            _ => None,
        }
    }

    /// Whether the work has ended: nothing that is handed in changes the state
    /// any more.
    pub fn is_finished(&self) -> (finished: bool)
        ensures
            finished == is_terminal(self@.stage),
    {
        match self.stage {
            Stage::SkippedCached => true,
            Stage::Done => true,
            Stage::Failed(_) => true,
            _ => false,
        }
    }

    /// Moves to the state that follows on `event`. The state that comes out
    /// is well formed, as every state of the machine is.
    pub fn advance(self, event: Event) -> (next: Self)
        ensures
            next@ == next_state(self@, event@),
            well_formed(next@),
    {
        proof {
            use_type_invariant(&self);
        }
        let ghost before = self@;
        let CaseProcessor {
            record,
            tmp_dir,
            out_dir,
            mode,
            decision,
            stage,
            page_count,
            diagnostics,
            texts,
        } = self;
        let mut diagnostics = diagnostics;
        let mut texts = texts;
        let mut next_stage = stage;
        let mut next_page_count = page_count;
        match (stage, event) {
            (Stage::Pending, Event::Start) => {
                if record.case_number.is_none() {
                    next_stage = Stage::Failed(PipelineError::Schema(RequiredField::CaseNumber));
                } else if !decision.should_run {
                    next_stage = Stage::SkippedCached;
                } else if record.source_url.is_none() {
                    next_stage = Stage::Failed(PipelineError::Schema(RequiredField::SourceUrl));
                } else if decision.should_download {
                    next_stage = Stage::Downloading;
                } else {
                    next_stage = after_fetch(mode);
                }
            },
            (Stage::Downloading, Event::Fetched(ok)) => {
                if ok {
                    next_stage = after_fetch(mode);
                } else {
                    next_stage = Stage::Failed(PipelineError::Network);
                }
            },
            (Stage::Counting, Event::Tool(ToolReport::Exited { stdout, .. })) => {
                match parse_page_count(stdout.as_str()) {
                    Ok(count) => {
                        next_page_count = count;
                        next_stage = Stage::Extracting(Task::Rasterize);
                    },
                    Err(error) => {
                        next_stage = Stage::Failed(error);
                    },
                }
            },
            (Stage::Counting, Event::Tool(ToolReport::Unavailable(_))) => {
                next_stage = Stage::Failed(PipelineError::Parse);
            },
            (Stage::Extracting(Task::ExtractTextLayer), Event::Tool(report)) => {
                record_entry(&mut diagnostics, tool_diagnostic(report));
                next_stage = Stage::Extracting(Task::ReadTextLayer);
            },
            (Stage::Extracting(Task::ReadTextLayer), Event::File(Some(text))) => {
                match filter_text_layer(text.as_str()) {
                    Ok(kept) => {
                        record_entry(&mut texts, Some(kept));
                        next_stage = Stage::Done;
                    },
                    Err(_) => {
                        next_stage = Stage::Failed(PipelineError::Pattern);
                    },
                }
            },
            (Stage::Extracting(Task::ReadTextLayer), Event::File(None)) => {
                let path = text_layer_path(tmp_dir.as_str(), record.identifier.as_str());
                record_entry(&mut diagnostics, Some(missing_artifact(path.as_str())));
                next_stage = Stage::Done;
            },
            (Stage::Extracting(Task::Rasterize), Event::Tool(report)) => {
                record_entry(&mut diagnostics, tool_diagnostic(report));
                next_stage = if page_count >= 1 {
                    Stage::Extracting(Task::Crop(1))
                } else {
                    Stage::Done
                };
            },
            (Stage::Extracting(Task::Crop(page)), Event::Tool(report)) => {
                record_entry(&mut diagnostics, tool_diagnostic(report));
                next_stage = Stage::Extracting(Task::Recognize(page));
            },
            (Stage::Extracting(Task::Recognize(page)), Event::Tool(report)) => {
                record_entry(&mut diagnostics, tool_diagnostic(report));
                next_stage = if page < page_count {
                    Stage::Extracting(Task::Crop(page + 1))
                } else {
                    Stage::Joining(1)
                };
            },
            (Stage::Joining(page), Event::File(Some(text))) => {
                record_entry(&mut texts, Some(text));
                next_stage = if page < page_count {
                    Stage::Joining(page + 1)
                } else {
                    Stage::Done
                };
            },
            (Stage::Joining(page), Event::File(None)) => {
                let path = page_text_path(tmp_dir.as_str(), record.identifier.as_str(), page);
                record_entry(&mut diagnostics, Some(missing_artifact(path.as_str())));
                next_stage = if page < page_count {
                    Stage::Joining(page + 1)
                } else {
                    Stage::Done
                };
            },
            _ => {},
        }
        proof {
            lemma_next_state_keeps_well_formed(before, event@);
            let after = next_state(before, event@);
            assert(views_of(diagnostics@) == after.diagnostics);
            assert(views_of(texts@) == after.texts);
        }
        CaseProcessor {
            record,
            tmp_dir,
            out_dir,
            mode,
            decision,
            stage: next_stage,
            page_count: next_page_count,
            diagnostics,
            texts,
        }
    }

    /// What the extraction has yielded so far.
    pub fn outcome(&self) -> (outcome: ExtractionOutcome)
        ensures
            outcome@ == outcome_of(self@),
    {
        let joined_text = match self.mode {
            Mode::Ocr => join_page_texts(&self.texts),
            Mode::TextLayer => if self.texts.len() > 0 {
                join_pdf2txt_text(self.texts[0].as_str())
            } else {
                String::new()
            },
        };
        let outcome = ExtractionOutcome { joined_text, diagnostics: self.diagnostics.clone() };
        proof {
            assert(views_of(outcome.diagnostics@) =~= views_of(self.diagnostics@));
        }
        outcome
    }

    /// The action that the state asks for.
    pub fn action(&self) -> (action: Action)
        ensures
            action@ == action_of(self@),
    {
        let tmp_dir = self.tmp_dir.as_str();
        let name = self.record.identifier.as_str();
        match self.stage {
            Stage::Pending => Action::Begin,
            Stage::SkippedCached => Action::Skip,
            Stage::Downloading => Action::Fetch {
                url: match &self.record.source_url {
                    Some(url) => url.clone(),
                    None => String::new(),
                },
                path: document_path(tmp_dir, name),
            },
            Stage::Counting => Action::Run(page_inspector(document_path(tmp_dir, name).as_str())),
            Stage::Extracting(Task::ExtractTextLayer) => Action::Run(
                text_layer_tool(document_path(tmp_dir, name).as_str()),
            ),
            Stage::Extracting(Task::ReadTextLayer) => Action::Read(text_layer_path(tmp_dir, name)),
            Stage::Extracting(Task::Rasterize) => Action::Run(
                rasterizer(working_base(tmp_dir, name).as_str()),
            ),
            Stage::Extracting(Task::Crop(page)) => Action::Run(
                cropper(page_image_path(tmp_dir, name, page).as_str()),
            ),
            Stage::Extracting(Task::Recognize(page)) => Action::Run(
                recognizer(page_base(tmp_dir, name, page).as_str()),
            ),
            Stage::Joining(page) => Action::Read(page_text_path(tmp_dir, name, page)),
            Stage::Done => {
                let outcome = self.outcome();
                let sidecar = outcome.sidecar_text(self.mode);
                Action::Persist {
                    text_path: output_path(self.out_dir.as_str(), name),
                    diagnostics_path: diagnostics_path(tmp_dir, name),
                    outcome,
                    sidecar,
                }
            },
            Stage::Failed(error) => Action::Abort(error),
        }
    }

    /// Moves to the state that follows on `event` and gives that state with
    /// the action that it asks for.
    pub fn step(self, event: Event) -> (next: (Self, Action))
        ensures
            next.0@ == next_state(self@, event@),
            next.1@ == action_of(next.0@),
            well_formed(next.0@),
    {
        let state = self.advance(event);
        let action = state.action();
        (state, action)
    }
}

/// Puts `entry` after the entries, if there is one.
fn record_entry(entries: &mut Vec<String>, entry: Option<String>)
    ensures
        views_of(final(entries)@) == recorded(views_of(old(entries)@), text_of(entry)),
{
    match entry {
        Some(text) => {
            entries.push(text);
            proof {
                assert(views_of(entries@) =~= views_of(old(entries)@).push(text@));
            }
        },
        None => {},
    }
}

/// Every step leads from a well-formed state to a well-formed state.
pub proof fn lemma_next_state_keeps_well_formed(s: ProcessorView, e: EventView)
    requires
        well_formed(s),
    ensures
        well_formed(next_state(s, e)),
{
}

} // verus!
