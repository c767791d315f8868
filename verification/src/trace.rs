//! Runs of the machine, and what holds of every run.

use vstd::prelude::*;
use crate::layout::{page_text_path_of, text_layer_path_of};
use crate::processor::{
    action_of, entries_as_they_are, is_terminal, missing_artifact_of, next_state, outcome_of,
    recorded, rendered, sidecar_of, stage_after_fetch, well_formed, ActionView, EventView, Mode,
    ProcessorView, Stage, Task,
};
use crate::tools::{tool_diagnostic_of, ToolReportView};

verus! {

/// The state that the events lead to from `s`, taken in order.
pub open spec fn run(s: ProcessorView, events: Seq<EventView>) -> ProcessorView
    decreases events.len(),
{
    if events.len() == 0 {
        s
    } else {
        next_state(run(s, events.drop_last()), events.last())
    }
}

/// The states `a` and `b` differ at most in what the work has changed: the
/// case and its settings are the same.
pub open spec fn same_case(a: ProcessorView, b: ProcessorView) -> bool {
    &&& a.name == b.name
    &&& a.case_number == b.case_number
    &&& a.source_url == b.source_url
    &&& a.tmp_dir == b.tmp_dir
    &&& a.out_dir == b.out_dir
    &&& a.mode == b.mode
    &&& a.should_download == b.should_download
    &&& a.should_run == b.should_run
}

/// Every event is the end of a tool's run.
pub open spec fn all_tool_reports(events: Seq<EventView>) -> bool {
    forall|i: int| 0 <= i < events.len() ==> #[trigger] events[i] is Tool
}

/// Every event is the end of the reading of a file.
pub open spec fn all_file_reads(events: Seq<EventView>) -> bool {
    forall|i: int| 0 <= i < events.len() ==> #[trigger] events[i] is File
}

/// What the tool runs among `events` leave recorded after `diagnostics`.
pub open spec fn tools_recorded(diagnostics: Seq<Seq<char>>, events: Seq<EventView>) -> Seq<
    Seq<char>,
>
    decreases events.len(),
{
    if events.len() == 0 {
        diagnostics
    } else {
        let before = tools_recorded(diagnostics, events.drop_last());
        match events.last() {
            EventView::Tool(report) => recorded(before, tool_diagnostic_of(report)),
            _ => before,
        }
    }
}

/// The texts that were read, in order, where event `i` is the reading of the
/// text of page `i + 1`.
pub open spec fn texts_read(texts: Seq<Seq<char>>, events: Seq<EventView>) -> Seq<Seq<char>>
    decreases events.len(),
{
    if events.len() == 0 {
        texts
    } else {
        let before = texts_read(texts, events.drop_last());
        match events.last() {
            EventView::File(Some(text)) => before.push(text),
            _ => before,
        }
    }
}

/// What the missing texts leave recorded after `diagnostics`, where event `i`
/// is the reading of the text of page `i + 1`.
pub open spec fn misses_recorded(
    diagnostics: Seq<Seq<char>>,
    tmp_dir: Seq<char>,
    name: Seq<char>,
    events: Seq<EventView>,
) -> Seq<Seq<char>>
    decreases events.len(),
{
    if events.len() == 0 {
        diagnostics
    } else {
        let before = misses_recorded(diagnostics, tmp_dir, name, events.drop_last());
        match events.last() {
            EventView::File(None) => before.push(
                missing_artifact_of(page_text_path_of(tmp_dir, name, events.len())),
            ),
            _ => before,
        }
    }
}

/// The stage of the page loop after `done` tool runs: the pages are taken in
/// order, each is cropped and then recognized, and the reading of the texts
/// follows the last page.
pub open spec fn page_loop_stage(done: nat, page_count: usize) -> Stage {
    if done >= 2 * page_count {
        Stage::Joining(1)
    } else if done % 2 == 0 {
        Stage::Extracting(Task::Crop((done / 2 + 1) as usize))
    } else {
        Stage::Extracting(Task::Recognize((done / 2 + 1) as usize))
    }
}

/// The stage of the reading after `done` texts: the pages are taken in order,
/// and the case is done after the last.
pub open spec fn reading_stage(done: nat, page_count: usize) -> Stage {
    if done >= page_count {
        Stage::Done
    } else {
        Stage::Joining((done + 1) as usize)
    }
}

/// A case that has ended stays as it is, whatever is handed in.
pub proof fn lemma_terminal_is_final(s: ProcessorView, events: Seq<EventView>)
    requires
        is_terminal(s.stage),
    ensures
        run(s, events) == s,
    decreases events.len(),
{
    if events.len() > 0 {
        lemma_terminal_is_final(s, events.drop_last());
    }
}

/// A run leads from a well-formed state to a well-formed state.
pub proof fn lemma_run_keeps_well_formed(s: ProcessorView, events: Seq<EventView>)
    requires
        well_formed(s),
    ensures
        well_formed(run(s, events)),
    decreases events.len(),
{
    if events.len() > 0 {
        lemma_run_keeps_well_formed(s, events.drop_last());
    }
}

/// A run never changes the case or its settings.
pub proof fn lemma_settings_are_kept(s: ProcessorView, events: Seq<EventView>)
    ensures
        same_case(s, run(s, events)),
    decreases events.len(),
{
    if events.len() > 0 {
        lemma_settings_are_kept(s, events.drop_last());
    }
}

/// Without a need to fetch, no run asks for a fetch: where the cache may be
/// used and holds the document, the document is never fetched.
pub proof fn lemma_no_fetch_without_need(s: ProcessorView, events: Seq<EventView>)
    requires
        s.stage == Stage::Pending,
        !s.should_download,
    ensures
        run(s, events).stage != Stage::Downloading,
        !(action_of(run(s, events)) is Fetch),
    decreases events.len(),
{
    if events.len() > 0 {
        lemma_no_fetch_without_need(s, events.drop_last());
        let before = run(s, events.drop_last());
        assert(before.should_download == s.should_download) by {
            lemma_settings_are_kept(s, events.drop_last());
        }
    }
}

/// A case that is to run and whose record is complete begins its work: with
/// the fetch where one is needed, whatever the cache holds, and else with the
/// first tool of the extraction.
pub proof fn lemma_run_begins(s: ProcessorView)
    requires
        s.stage == Stage::Pending,
        s.case_number is Some,
        s.source_url is Some,
        s.should_run,
    ensures
        s.should_download ==> next_state(s, EventView::Start).stage == Stage::Downloading,
        s.should_download ==> action_of(next_state(s, EventView::Start)) is Fetch,
        !s.should_download ==> next_state(s, EventView::Start).stage == stage_after_fetch(s.mode),
        !s.should_download ==> action_of(next_state(s, EventView::Start)) is Run,
{
}

/// Where the text exists and no rerun is forced, the extraction is skipped
/// entirely: the case ends at once and no run brings it to do anything.
pub proof fn lemma_existing_text_is_skipped(s: ProcessorView, events: Seq<EventView>)
    requires
        s.stage == Stage::Pending,
        s.case_number is Some,
        !s.should_run,
        events.len() > 0,
        events[0] == EventView::Start,
    ensures
        run(s, events) == (ProcessorView { stage: Stage::SkippedCached, ..s }),
        action_of(run(s, events)) == ActionView::Skip,
    decreases events.len(),
{
    if events.len() == 1 {
        assert(events.drop_last() == Seq::<EventView>::empty());
        assert(run(s, events.drop_last()) == s);
        assert(events.last() == EventView::Start);
    } else {
        assert(events.drop_last()[0] == events[0]);
        lemma_existing_text_is_skipped(s, events.drop_last());
    }
}

/// A case that is to run is never skipped.
pub proof fn lemma_forced_run_is_not_skipped(s: ProcessorView, events: Seq<EventView>)
    requires
        s.stage == Stage::Pending,
        s.should_run,
    ensures
        run(s, events).stage != Stage::SkippedCached,
    decreases events.len(),
{
    if events.len() > 0 {
        lemma_forced_run_is_not_skipped(s, events.drop_last());
        lemma_settings_are_kept(s, events.drop_last());
    }
}

/// Nothing that a tool reports halts the page loop: whatever the runs of the
/// cropper and of the recognizer come to, every page is cropped and
/// recognized in its turn, and what the runs complain of is recorded in
/// order.
pub proof fn lemma_page_loop_never_halts(s: ProcessorView, events: Seq<EventView>)
    requires
        s.stage == Stage::Extracting(Task::Crop(1)),
        1 <= s.page_count,
        all_tool_reports(events),
        events.len() <= 2 * s.page_count,
    ensures
        run(s, events) == (ProcessorView {
            stage: page_loop_stage(events.len(), s.page_count),
            diagnostics: tools_recorded(s.diagnostics, events),
            ..s
        }),
    decreases events.len(),
{
    if events.len() > 0 {
        let earlier = events.drop_last();
        assert forall|i: int| 0 <= i < earlier.len() implies #[trigger] earlier[i] is Tool by {
            assert(earlier[i] == events[i]);
        }
        lemma_page_loop_never_halts(s, earlier);
        assert(events.last() == events[events.len() - 1]);
        assert(events.last() is Tool);
    }
}

/// Nothing that is missing halts the reading: whatever the reading of the
/// pages' texts comes to, every page is read in its turn, the texts that are
/// there are kept in order, and every text that is missing is recorded with
/// its path.
pub proof fn lemma_reading_never_halts(s: ProcessorView, events: Seq<EventView>)
    requires
        s.stage == Stage::Joining(1),
        1 <= s.page_count,
        all_file_reads(events),
        events.len() <= s.page_count,
    ensures
        run(s, events) == (ProcessorView {
            stage: reading_stage(events.len(), s.page_count),
            texts: texts_read(s.texts, events),
            diagnostics: misses_recorded(s.diagnostics, s.tmp_dir, s.name, events),
            ..s
        }),
    decreases events.len(),
{
    if events.len() > 0 {
        let earlier = events.drop_last();
        assert forall|i: int| 0 <= i < earlier.len() implies #[trigger] earlier[i] is File by {
            assert(earlier[i] == events[i]);
        }
        lemma_reading_never_halts(s, earlier);
        assert(events.last() == events[events.len() - 1]);
        assert(events.last() is File);
    }
}

/// A text-layer tool that leaves no text does not end the case in failure:
/// the case is done with an empty text, and the path of the missing file is
/// recorded.
pub proof fn lemma_missing_text_layer_is_recorded(s: ProcessorView)
    requires
        well_formed(s),
        s.stage == Stage::Extracting(Task::ReadTextLayer),
    ensures
        ({
            let path = text_layer_path_of(s.tmp_dir, s.name);
            let after = next_state(s, EventView::File(None));
            &&& after.stage == Stage::Done
            &&& action_of(after) is Persist
            &&& outcome_of(after).joined_text == Seq::<char>::empty()
            &&& after.diagnostics == s.diagnostics.push(missing_artifact_of(path))
            &&& missing_artifact_of(path).subrange(1, 1 + path.len() as int) == path
        }),
{
    reveal_strlit("'");
    let path = text_layer_path_of(s.tmp_dir, s.name);
    assert(missing_artifact_of(path).subrange(1, 1 + path.len() as int) =~= path);
}

/// Running through two stretches of events is running through the one and
/// then through the other.
pub proof fn lemma_run_concat(s: ProcessorView, first: Seq<EventView>, second: Seq<EventView>)
    ensures
        run(s, first + second) == run(run(s, first), second),
    decreases second.len(),
{
    if second.len() == 0 {
        assert(first + second == first);
    } else {
        assert((first + second).drop_last() == first + second.drop_last());
        lemma_run_concat(s, first, second.drop_last());
    }
}

/// A recognition comes to its end whatever the tools report and whatever is
/// missing of their output: after two tool runs and one reading for each page
/// the case is done, with the texts that were there, in the order of the
/// pages, and with what was recorded on the way.
pub proof fn lemma_recognition_comes_to_its_end(
    s: ProcessorView,
    tool_runs: Seq<EventView>,
    readings: Seq<EventView>,
)
    requires
        s.stage == Stage::Extracting(Task::Crop(1)),
        1 <= s.page_count,
        all_tool_reports(tool_runs),
        tool_runs.len() == 2 * s.page_count,
        all_file_reads(readings),
        readings.len() == s.page_count,
    ensures
        run(s, tool_runs + readings) == (ProcessorView {
            stage: Stage::Done,
            texts: texts_read(s.texts, readings),
            diagnostics: misses_recorded(
                tools_recorded(s.diagnostics, tool_runs),
                s.tmp_dir,
                s.name,
                readings,
            ),
            ..s
        }),
{
    lemma_run_concat(s, tool_runs, readings);
    lemma_page_loop_never_halts(s, tool_runs);
    lemma_reading_never_halts(run(s, tool_runs), readings);
}

/// How far the work has come: a number for each stage that grows along the
/// way from `Pending` over `Downloading`, `Counting`, `Extracting` and
/// `Joining` to the end of the case.
pub open spec fn phase(stage: Stage) -> nat {
    match stage {
        Stage::Pending => 0,
        Stage::Downloading => 1,
        Stage::Counting => 2,
        Stage::Extracting(_) => 3,
        Stage::Joining(_) => 4,
        Stage::SkippedCached => 5,
        Stage::Done => 5,
        Stage::Failed(_) => 5,
    }
}

/// The work never goes back to an earlier stage.
pub proof fn lemma_stages_follow_in_order(s: ProcessorView, events: Seq<EventView>)
    ensures
        phase(s.stage) <= phase(run(s, events).stage),
    decreases events.len(),
{
    if events.len() > 0 {
        lemma_stages_follow_in_order(s, events.drop_last());
    }
}

/// How many pieces of outside work a well-formed state has behind it at
/// most, counted so that the end of a case counts more than any state before
/// it.
pub open spec fn progress(s: ProcessorView) -> nat {
    match s.stage {
        Stage::Pending => 0,
        Stage::Downloading => 1,
        Stage::Counting => 2,
        Stage::Extracting(Task::ExtractTextLayer) => 3,
        Stage::Extracting(Task::ReadTextLayer) => 4,
        Stage::Extracting(Task::Rasterize) => 3,
        Stage::Extracting(Task::Crop(page)) => (2 + 2 * page) as nat,
        Stage::Extracting(Task::Recognize(page)) => (3 + 2 * page) as nat,
        Stage::Joining(page) => (4 + 2 * s.page_count + page) as nat,
        Stage::SkippedCached => (6 + 3 * s.page_count) as nat,
        Stage::Done => (6 + 3 * s.page_count) as nat,
        Stage::Failed(_) => (6 + 3 * s.page_count) as nat,
    }
}

/// Every event either changes nothing or brings the case forward: no piece of
/// outside work is asked for twice, and the work on a case ends.
pub proof fn lemma_every_step_is_progress(s: ProcessorView, e: EventView)
    requires
        well_formed(s),
    ensures
        next_state(s, e) == s || progress(s) < progress(next_state(s, e)),
{
}

/// What the tools of the runs among `events` complained of, one message after
/// the other as it came: what a tool wrote to its standard error, or the
/// reason why it could not be started.
pub open spec fn tool_messages(events: Seq<EventView>) -> Seq<char>
    decreases events.len(),
{
    if events.len() == 0 {
        Seq::empty()
    } else {
        tool_messages(events.drop_last()) + match events.last() {
            EventView::Tool(ToolReportView::Exited { stderr, .. }) => stderr,
            EventView::Tool(ToolReportView::Unavailable(message)) => message,
            _ => Seq::empty(),
        }
    }
}

/// With recognition, one more entry is written after the entries before it,
/// as it is.
pub proof fn lemma_entry_is_written_as_it_is(entries: Seq<Seq<char>>, entry: Seq<char>)
    ensures
        rendered(Mode::Ocr, entries.push(entry)) == rendered(Mode::Ocr, entries) + entry,
{
    assert(entries.push(entry).drop_last() == entries);
}

/// With recognition, a single diagnostic is the whole sidecar text, with
/// nothing added to it.
pub proof fn lemma_single_message_is_the_sidecar(message: Seq<char>)
    ensures
        sidecar_of(Mode::Ocr, seq![message]) == Some(message),
{
    let none = Seq::<Seq<char>>::empty();
    assert(seq![message] == none.push(message));
    lemma_entry_is_written_as_it_is(none, message);
    assert(entries_as_they_are(none) + message == message);
}

/// With recognition, the sidecar text grows by the messages of the tools as
/// they came, in the order of the runs: nothing is put between them and
/// nothing is added to them.
pub proof fn lemma_messages_are_written_as_they_came(
    diagnostics: Seq<Seq<char>>,
    events: Seq<EventView>,
)
    ensures
        rendered(Mode::Ocr, tools_recorded(diagnostics, events)) == rendered(
            Mode::Ocr,
            diagnostics,
        ) + tool_messages(events),
    decreases events.len(),
{
    let written = rendered(Mode::Ocr, diagnostics);
    if events.len() == 0 {
        assert(written + tool_messages(events) == written);
    } else {
        let earlier = events.drop_last();
        lemma_messages_are_written_as_they_came(diagnostics, earlier);
        let before = tools_recorded(diagnostics, earlier);
        match events.last() {
            EventView::Tool(report) => {
                match tool_diagnostic_of(report) {
                    Some(text) => {
                        lemma_entry_is_written_as_it_is(before, text);
                        assert(written + tool_messages(earlier) + text == written + (
                        tool_messages(earlier) + text));
                    },
                    None => {
                        assert(tool_messages(events) == tool_messages(earlier) + Seq::<
                            char,
                        >::empty());
                        assert(tool_messages(earlier) + Seq::<char>::empty() == tool_messages(
                            earlier,
                        ));
                    },
                }
            },
            _ => {
                assert(tool_messages(earlier) + Seq::<char>::empty() == tool_messages(earlier));
            },
        }
    }
}

/// After the page loop of a recognition the sidecar text is what it was
/// before the loop and then the messages of the cropper and of the
/// recognizer, page by page, as they came.
pub proof fn lemma_page_loop_writes_messages_as_they_came(
    s: ProcessorView,
    events: Seq<EventView>,
)
    requires
        s.stage == Stage::Extracting(Task::Crop(1)),
        1 <= s.page_count,
        all_tool_reports(events),
        events.len() <= 2 * s.page_count,
    ensures
        rendered(Mode::Ocr, run(s, events).diagnostics) == rendered(Mode::Ocr, s.diagnostics)
            + tool_messages(events),
{
    lemma_page_loop_never_halts(s, events);
    lemma_messages_are_written_as_they_came(s.diagnostics, events);
}

} // verus!
