//! The monitoring state and the decisions taken around one ingestion: the
//! steps between capturing the screen, recognising its text and storing the
//! record. The caller performs each step (capture, recognition, storage,
//! waiting) and hands its result to the function here that decides what
//! comes next.

use vstd::prelude::*;
use vstd::string::StringExecFns;
use crate::record::{prepare_record, derived_from, IngestionRecord, RecordDraft, RecordView};
use crate::clock::{clock_time, read_clock, valid_reading, ClockReading};
use crate::paths::{screenshot_file_name, screenshot_name};
use crate::text::{trim, trimmed};

verus! {

/// Seconds between two ingestions of a running monitor, unless changed.
pub const DEFAULT_INTERVAL_SECONDS: u64 = 60;

/// The time of a screen capture and the file its image is saved to.
#[derive(Debug)]
pub struct CaptureStamp {
    pub captured_at: String,
    pub file_name: String,
}

/// The error reported when the clock gives no usable time.
pub open spec fn clock_message() -> Seq<char> {
    "The system clock does not give a representable time"@
}

/// The stamp of a capture made at the clock reading `reading`: its RFC 3339
/// time and the file name of its compact stamp; an error without a reading.
pub fn stamp_from(reading: Option<ClockReading>) -> (stamp: Result<CaptureStamp, String>)
    ensures
        match reading {
            Some(r) => stamp matches Ok(s) && s.captured_at@ == r.iso@ && s.file_name@ == screenshot_name(r.compact@),
            None => stamp matches Err(e) && e@ == clock_message(),
        },
{
    match reading {
        Some(r) => {
            let file_name = screenshot_file_name(r.compact.as_str());
            Ok(CaptureStamp { captured_at: r.iso, file_name })
        },
        None => Err(String::from_str("The system clock does not give a representable time")),
    }
}

/// Reads the clock for a screen capture: the capture time as RFC 3339 UTC
/// text and the screenshot file name made of a compact stamp of the same
/// instant; an error when the clock gives no usable time.
pub fn capture_stamp() -> (stamp: Result<CaptureStamp, String>)
    ensures
        stamp matches Ok(s) ==> exists|r: ClockReading| valid_reading(r) && s.captured_at@ == r.iso@
            && #[trigger] screenshot_name(r.compact@) == s.file_name@,
        stamp matches Err(e) ==> e@ == clock_message(),
{
    let reading = read_clock();
    let ghost g = reading;
    let stamp = stamp_from(reading);
    proof {
        if g is Some {
            assert(screenshot_name(g->0.compact@) == stamp->Ok_0.file_name@);
        }
    }
    stamp
}

/// The RFC 3339 time of an optional clock reading.
pub open spec fn reading_time(reading: Option<ClockReading>) -> Option<Seq<char>> {
    match reading {
        Some(r) => Some(r.iso@),
        None => None,
    }
}

/// The texts an optional string holds.
pub open spec fn opt_text(o: Option<String>) -> Option<Seq<char>> {
    match o {
        Some(s) => Some(s@),
        None => None,
    }
}

/// The view of an optional record.
pub open spec fn opt_record(o: Option<IngestionRecord>) -> Option<RecordView> {
    match o {
        Some(r) => Some(r@),
        None => None,
    }
}

/// What came of one ingestion.
#[derive(Debug, Clone, PartialEq, Eq)]
pub enum IngestionOutcome {
    /// A record was stored.
    Stored,
    /// The screen looked as it did at the last ingestion; nothing was stored.
    SkippedUnchanged { image_hash: String },
    /// Text recognition found no text; nothing was stored.
    SkippedEmpty { image_hash: String },
}

/// The view of an outcome.
pub enum OutcomeView {
    Stored,
    SkippedUnchanged { image_hash: Seq<char> },
    SkippedEmpty { image_hash: Seq<char> },
}

impl View for IngestionOutcome {
    type V = OutcomeView;

    open spec fn view(&self) -> OutcomeView {
        match self {
            IngestionOutcome::Stored => OutcomeView::Stored,
            IngestionOutcome::SkippedUnchanged { image_hash } => OutcomeView::SkippedUnchanged {
                image_hash: image_hash@,
            },
            IngestionOutcome::SkippedEmpty { image_hash } => OutcomeView::SkippedEmpty {
                image_hash: image_hash@,
            },
        }
    }
}

/// The monitor's state, shared between the commands and the monitoring loop.
#[derive(Debug)]
pub struct MonitorState {
    pub running: bool,
    pub interval_seconds: u64,
    pub last_run_at: Option<String>,
    pub last_ingested_at: Option<String>,
    pub last_error: Option<String>,
    pub total_items: u64,
    pub last_result: Option<IngestionRecord>,
    pub last_image_hash: Option<String>,
}

/// The mathematical content of the monitor's state.
pub struct MonitorView {
    pub running: bool,
    pub interval_seconds: u64,
    pub last_run_at: Option<Seq<char>>,
    pub last_ingested_at: Option<Seq<char>>,
    pub last_error: Option<Seq<char>>,
    pub total_items: u64,
    pub last_result: Option<RecordView>,
    pub last_image_hash: Option<Seq<char>>,
}

impl View for MonitorState {
    type V = MonitorView;

    open spec fn view(&self) -> MonitorView {
        MonitorView {
            running: self.running,
            interval_seconds: self.interval_seconds,
            last_run_at: opt_text(self.last_run_at),
            last_ingested_at: opt_text(self.last_ingested_at),
            last_error: opt_text(self.last_error),
            total_items: self.total_items,
            last_result: opt_record(self.last_result),
            last_image_hash: opt_text(self.last_image_hash),
        }
    }
}

/// The state a monitor starts in: stopped, at the default interval, with
/// nothing ingested.
pub open spec fn initial_state() -> MonitorView {
    MonitorView {
        running: false,
        interval_seconds: DEFAULT_INTERVAL_SECONDS,
        last_run_at: None,
        last_ingested_at: None,
        last_error: None,
        total_items: 0,
        last_result: None,
        last_image_hash: None,
    }
}

/// Starting: a running monitor is left as it is and no loop is to be
/// started; a stopped one runs from now on with its last error cleared, and a
/// loop is to be started.
pub open spec fn start_step(m: MonitorView) -> (MonitorView, bool) {
    if m.running {
        (m, false)
    } else {
        (MonitorView { running: true, last_error: None, ..m }, true)
    }
}

/// Stopping: the monitor no longer runs; nothing else changes.
pub open spec fn stop_step(m: MonitorView) -> MonitorView {
    MonitorView { running: false, ..m }
}

/// A run was started at `now` (`None` when the clock gave no time).
pub open spec fn run_step(m: MonitorView, now: Option<Seq<char>>) -> MonitorView {
    MonitorView { last_run_at: now, ..m }
}

/// One cycle of the monitoring loop at time `now`: a stopped monitor ends the
/// loop (`None`) and is left as it is; a running one notes the run and tells
/// how many seconds to wait after it.
pub open spec fn cycle_step(m: MonitorView, now: Option<Seq<char>>) -> (MonitorView, Option<u64>) {
    if !m.running {
        (m, None)
    } else {
        (run_step(m, now), Some(m.interval_seconds))
    }
}

/// A failed ingestion of the loop leaves its error behind.
pub open spec fn error_step(m: MonitorView, error: Seq<char>) -> MonitorView {
    MonitorView { last_error: Some(error), ..m }
}

/// The message left when the screen did not change.
pub open spec fn unchanged_message() -> Seq<char> {
    "Skipped capture because the screen did not change"@
}

/// The message left when recognition found no text.
pub open spec fn empty_message() -> Seq<char> {
    "Skipped capture because OCR returned no text"@
}

/// What an explicit capture request records of its outcome: a stored record
/// was already recorded; a skip remembers the image and says why it skipped.
pub open spec fn outcome_step(m: MonitorView, outcome: OutcomeView) -> MonitorView {
    match outcome {
        OutcomeView::Stored => m,
        OutcomeView::SkippedUnchanged { image_hash } => MonitorView {
            last_image_hash: Some(image_hash),
            last_error: Some(unchanged_message()),
            ..m
        },
        OutcomeView::SkippedEmpty { image_hash } => MonitorView {
            last_image_hash: Some(image_hash),
            last_error: Some(empty_message()),
            ..m
        },
    }
}

/// Storing a record: the image is remembered; if the store could count its
/// records, the count, the capture time and the record are noted and the last
/// error is cleared; if it could not, the monitor keeps the rest as it was.
pub open spec fn stored_step(
    m: MonitorView,
    image_hash: Seq<char>,
    captured_at: Seq<char>,
    record: RecordView,
    total: Result<u64, Seq<char>>,
) -> MonitorView {
    let noted = MonitorView { last_image_hash: Some(image_hash), ..m };
    match total {
        Ok(n) => MonitorView {
            total_items: n,
            last_ingested_at: Some(captured_at),
            last_result: Some(record),
            last_error: None,
            ..noted
        },
        Err(_) => noted,
    }
}

/// Whether a capture shows the screen as the previous one did: the previous
/// image fingerprint is known and equal to the new one.
pub open spec fn unchanged(previous: Option<Seq<char>>, image_hash: Seq<char>) -> bool {
    previous == Some(image_hash)
}

/// What to do after the screen was captured.
#[derive(Debug, PartialEq, Eq)]
pub enum CaptureDecision {
    /// End the ingestion with this outcome.
    Finish(IngestionOutcome),
    /// Recognise the text of the capture.
    Recognize { image_hash: String },
}

/// What to do after the text was recognised.
#[derive(Debug, PartialEq, Eq)]
pub enum TextDecision {
    /// End the ingestion with this outcome.
    Finish(IngestionOutcome),
    /// Store this record.
    Store(RecordDraft),
}

/// The result of a store count, as a view.
pub open spec fn count_view(total: Result<u64, String>) -> Result<u64, Seq<char>> {
    match total {
        Ok(n) => Ok(n),
        Err(e) => Err(e@),
    }
}

/// Decides, from the fingerprint of the previous capture and that of the new
/// one, whether the ingestion ends here (the screen did not change) or goes
/// on to text recognition.
pub fn decide_after_capture(previous: &Option<String>, image_hash: String) -> (d: CaptureDecision)
    ensures
        unchanged(opt_text(*previous), image_hash@) ==> d == CaptureDecision::Finish(
            (IngestionOutcome::SkippedUnchanged { image_hash }),
        ),
        !unchanged(opt_text(*previous), image_hash@) ==> d == (CaptureDecision::Recognize { image_hash }),
        (d is Finish) <==> (*previous matches Some(p) && p@ == image_hash@),
        (previous is None || (*previous matches Some(p) && p@ != image_hash@)) ==> d == (CaptureDecision::Recognize {
            image_hash,
        }),
{
    let same = match previous {
        Some(p) => *p == image_hash,
        None => false,
    };
    if same {
        CaptureDecision::Finish(IngestionOutcome::SkippedUnchanged { image_hash })
    } else {
        CaptureDecision::Recognize { image_hash }
    }
}

/// Decides, from the recognised text, whether the ingestion ends here (the
/// text is blank) or stores a record derived from it.
pub fn decide_after_recognition(captured_at: &str, image_hash: String, text: &str) -> (d: TextDecision)
    ensures
        trimmed(text@).len() == 0 ==> d == TextDecision::Finish((IngestionOutcome::SkippedEmpty { image_hash })),
        trimmed(text@).len() > 0 ==> (d matches TextDecision::Store(draft) && derived_from(
            draft.with_id(0),
            captured_at@,
            image_hash@,
            text@,
        )),
        trimmed(text@).len() > 0 ==> (d matches TextDecision::Store(draft) && draft.line_count > 0),
{
    if trim(text).is_empty() {
        TextDecision::Finish(IngestionOutcome::SkippedEmpty { image_hash })
    } else {
        TextDecision::Store(prepare_record(captured_at, image_hash.as_str(), text))
    }
}

fn copy_text(o: &Option<String>) -> (c: Option<String>)
    ensures
        c == *o,
{
    match o {
        Some(s) => Some(s.clone()),
        None => None,
    }
}

impl IngestionRecord {
    /// A copy of this record.
    pub fn duplicate(&self) -> (copy: IngestionRecord)
        ensures
            copy@ == self@,
    {
        let mut counts: Vec<u64> = Vec::new();
        let mut i: usize = 0;
        while i < self.term_counts.len()
            invariant
                i <= self.term_counts@.len(),
                counts@ == self.term_counts@.take(i as int),
            decreases self.term_counts@.len() - i,
        {
            counts.push(self.term_counts[i]);
            i = i + 1;
        }
        assert(self.term_counts@.take(i as int) =~= self.term_counts@);
        IngestionRecord {
            id: self.id,
            captured_at: self.captured_at.clone(),
            image_hash: self.image_hash.clone(),
            text_hash: self.text_hash.clone(),
            extracted_text: self.extracted_text.clone(),
            summary: self.summary.clone(),
            term_counts: counts,
            word_count: self.word_count,
            line_count: self.line_count,
        }
    }
}

fn copy_record(o: &Option<IngestionRecord>) -> (c: Option<IngestionRecord>)
    ensures
        opt_record(c) == opt_record(*o),
{
    match o {
        Some(r) => Some(r.duplicate()),
        None => None,
    }
}

/// The status reported to the user interface.
#[derive(Debug, Clone, PartialEq, Eq)]
pub struct MonitoringStatus {
    pub running: bool,
    pub interval_seconds: u64,
    pub last_run_at: Option<String>,
    pub last_ingested_at: Option<String>,
    pub last_error: Option<String>,
    pub total_items: u64,
    pub database_path: String,
    pub last_result: Option<IngestionRecord>,
}

impl MonitorState {
    /// A stopped monitor at the default interval with nothing ingested.
    pub fn new() -> (state: MonitorState)
        ensures
            state@ == initial_state(),
    {
        MonitorState {
            running: false,
            interval_seconds: DEFAULT_INTERVAL_SECONDS,
            last_run_at: None,
            last_ingested_at: None,
            last_error: None,
            total_items: 0,
            last_result: None,
            last_image_hash: None,
        }
    }

    /// Starts monitoring; answers whether a monitoring loop must be started.
    pub fn start(&mut self) -> (spawn: bool)
        ensures
            (final(self)@, spawn) == start_step(old(self)@),
    {
        if self.running {
            false
        } else {
            self.running = true;
            self.last_error = None;
            true
        }
    }

    /// Stops monitoring; a loop that is running ends at its next cycle.
    pub fn stop(&mut self)
        ensures
            final(self)@ == stop_step(old(self)@),
    {
        self.running = false;
    }

    /// Notes that a run starts at the clock reading `reading`; without a
    /// reading the run time is recorded as unknown.
    pub fn note_run(&mut self, reading: Option<ClockReading>)
        ensures
            final(self)@ == run_step(old(self)@, reading_time(reading)),
    {
        self.last_run_at = match reading {
            Some(r) => Some(r.iso),
            None => None,
        };
    }

    /// Notes that a run starts now: the run time is an RFC 3339 UTC time, or
    /// unknown when the clock gives no usable time.
    pub fn mark_run(&mut self)
        ensures
            final(self)@ == run_step(old(self)@, final(self)@.last_run_at),
            final(self)@.last_run_at matches Some(t) ==> clock_time(t),
    {
        let reading = read_clock();
        self.note_run(reading);
    }

    /// One cycle of the monitoring loop at the clock reading `reading`:
    /// `None` when the monitor was stopped (the loop ends), else the seconds
    /// to wait after this cycle's ingestion, with the run noted.
    pub fn cycle(&mut self, reading: Option<ClockReading>) -> (wait: Option<u64>)
        ensures
            (final(self)@, wait) == cycle_step(old(self)@, reading_time(reading)),
    {
        if !self.running {
            None
        } else {
            self.note_run(reading);
            Some(self.interval_seconds)
        }
    }

    /// Begins one cycle of the monitoring loop now: `None` when the monitor
    /// was stopped (the loop ends), else the seconds to wait after this
    /// cycle's ingestion, with the run time (RFC 3339 UTC, or unknown) noted.
    pub fn begin_cycle(&mut self) -> (wait: Option<u64>)
        ensures
            (final(self)@, wait) == cycle_step(old(self)@, final(self)@.last_run_at),
            old(self)@.running ==> (final(self)@.last_run_at matches Some(t) ==> clock_time(t)),
    {
        let reading = read_clock();
        self.cycle(reading)
    }

    /// Sets the number of stored items to what the store counted at start-up.
    pub fn restore_total(&mut self, total: u64)
        ensures
            final(self)@ == (MonitorView { total_items: total, ..old(self)@ }),
    {
        self.total_items = total;
    }

    /// Leaves the error of a failed ingestion of the loop.
    pub fn record_error(&mut self, error: String)
        ensures
            final(self)@ == error_step(old(self)@, error@),
    {
        self.last_error = Some(error);
    }

    /// The fingerprint of the last remembered capture.
    pub fn previous_image_hash(&self) -> (h: Option<String>)
        ensures
            h == self.last_image_hash,
    {
        copy_text(&self.last_image_hash)
    }

    /// Records a stored record: remembers its image, then, given the store's
    /// count of records, notes the count, the capture time and the record and
    /// clears the last error. A failed count is handed back.
    pub fn record_stored(
        &mut self,
        image_hash: String,
        captured_at: String,
        record: IngestionRecord,
        total: Result<u64, String>,
    ) -> (outcome: Result<IngestionOutcome, String>)
        ensures
            final(self)@ == stored_step(old(self)@, image_hash@, captured_at@, record@, count_view(total)),
            match total {
                Ok(_) => outcome == Ok::<IngestionOutcome, String>(IngestionOutcome::Stored),
                Err(e) => outcome == Err::<IngestionOutcome, String>(e),
            },
    {
        self.last_image_hash = Some(image_hash);
        match total {
            Ok(n) => {
                self.total_items = n;
                self.last_ingested_at = Some(captured_at);
                self.last_result = Some(record);
                self.last_error = None;
                Ok(IngestionOutcome::Stored)
            },
            Err(e) => Err(e),
        }
    }

    /// Records the outcome of an explicitly requested capture.
    pub fn apply_outcome(&mut self, outcome: IngestionOutcome)
        ensures
            final(self)@ == outcome_step(old(self)@, outcome@),
    {
        match outcome {
            IngestionOutcome::Stored => {},
            IngestionOutcome::SkippedUnchanged { image_hash } => {
                self.last_image_hash = Some(image_hash);
                self.last_error = Some(String::from_str("Skipped capture because the screen did not change"));
            },
            IngestionOutcome::SkippedEmpty { image_hash } => {
                self.last_image_hash = Some(image_hash);
                self.last_error = Some(String::from_str("Skipped capture because OCR returned no text"));
            },
        }
    }

    /// The status of the monitor, reporting the given database location.
    pub fn status(&self, database_path: String) -> (st: MonitoringStatus)
        ensures
            st.running == self.running,
            st.interval_seconds == self.interval_seconds,
            st.last_run_at == self.last_run_at,
            st.last_ingested_at == self.last_ingested_at,
            st.last_error == self.last_error,
            st.total_items == self.total_items,
            st.database_path == database_path,
            opt_record(st.last_result) == opt_record(self.last_result),
    {
        MonitoringStatus {
            running: self.running,
            interval_seconds: self.interval_seconds,
            last_run_at: copy_text(&self.last_run_at),
            last_ingested_at: copy_text(&self.last_ingested_at),
            last_error: copy_text(&self.last_error),
            total_items: self.total_items,
            database_path,
            last_result: copy_record(&self.last_result),
        }
    }
}

} // verus!
