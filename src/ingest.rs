use vstd::prelude::*;

verus! {

/// Progress of the current or last ingestion run, as readers see it.
pub struct IngestionStatus {
    /// Number of files collected for the run; 0 before collection ends.
    pub total_files: usize,
    /// Number of files whose upload attempt has finished, whatever its outcome.
    pub processed_files: usize,
    /// The file being uploaded now, if any.
    pub current_file: Option<String>,
    /// Whether the run is still wanted; clearing it asks the run to stop.
    pub is_running: bool,
}

impl IngestionStatus {
    /// The status before any run: nothing counted, nothing running.
    pub fn new() -> (r: Self)
        ensures
            r.total_files == 0,
            r.processed_files == 0,
            r.current_file is None,
            !r.is_running,
    {
        IngestionStatus { total_files: 0, processed_files: 0, current_file: None, is_running: false }
    }
}

/// Where a run stands.
#[derive(PartialEq, Eq, Structural, Clone, Copy, Debug)]
pub enum RunPhase {
    /// No run is active.
    Idle,
    /// A run was started and its files are being collected.
    Collecting,
    /// Files are known; the next one has not been handed out yet.
    Processing,
    /// One file has been handed out and its upload has not finished.
    Uploading,
}

/// How one upload attempt ended.
pub enum UploadOutcome {
    /// The backend accepted the file.
    Success,
    /// The backend answered with a status outside the success range.
    Rejected { status: u16, body: String },
    /// The request could not be carried out.
    TransportError(String),
    /// The file could not be read.
    ReadError(String),
}

/// Whether an HTTP status code lies in the success range 200 to 299.
pub open spec fn is_success_status(code: u16) -> bool {
    200 <= code && code <= 299
}

impl UploadOutcome {
    /// The outcome of an answered request: a success status accepts the file,
    /// any other rejects it with the status and the response body.
    pub fn from_response(status: u16, body: String) -> (r: UploadOutcome)
        ensures
            is_success_status(status) ==> r is Success,
            !is_success_status(status) ==> r == (UploadOutcome::Rejected { status, body }),
    {
        if 200 <= status && status <= 299 {
            UploadOutcome::Success
        } else {
            UploadOutcome::Rejected { status, body }
        }
    }

    /// Whether the upload succeeded.
    pub fn is_success(&self) -> (r: bool)
        ensures
            r == (*self is Success),
    {
        match self {
            UploadOutcome::Success => true,
            _ => false,
        }
    }
}

/// What is reported after each file: the progress so far, the file just
/// processed as the current one, and how its upload ended.
pub struct ProgressEvent {
    pub status: IngestionStatus,
    pub outcome: UploadOutcome,
}

/// Why a run could not be started.
#[derive(PartialEq, Eq, Structural, Clone, Copy, Debug)]
pub enum StartError {
    /// Another run is still active.
    AlreadyRunning,
}

impl StartError {
    /// A message for the user.
    pub fn message(&self) -> (r: &'static str)
        ensures
            r@ == "already running"@,
    {
        "already running"
    }
}

/// The abstract state of a run tracker.
pub struct TrackerModel {
    pub phase: RunPhase,
    pub running: bool,
    pub files: Seq<String>,
    pub processed: nat,
}

impl TrackerModel {
    /// The state at process start.
    pub open spec fn initial() -> TrackerModel {
        TrackerModel { phase: RunPhase::Idle, running: false, files: seq![], processed: 0 }
    }

    /// The invariant every reachable state keeps.
    pub open spec fn wf(self) -> bool {
        &&& self.processed <= self.files.len()
        &&& self.phase == RunPhase::Uploading ==> self.processed < self.files.len()
        &&& self.phase == RunPhase::Idle ==> !self.running
        &&& self.phase == RunPhase::Collecting ==> self.files.len() == 0 && self.processed == 0
    }

    /// Number of files of the run.
    pub open spec fn total(self) -> nat {
        self.files.len()
    }

    /// The file being uploaded, if any.
    pub open spec fn current(self) -> Option<String> {
        if self.phase == RunPhase::Uploading {
            Some(self.files[self.processed as int])
        } else {
            None
        }
    }

    /// Whether a run may start now.
    pub open spec fn can_start(self) -> bool {
        self.phase == RunPhase::Idle
    }

    /// After a start request.
    pub open spec fn start(self) -> TrackerModel {
        if self.can_start() {
            TrackerModel { phase: RunPhase::Collecting, running: true, files: seq![], processed: 0 }
        } else {
            self
        }
    }

    /// After a stop request.
    pub open spec fn stop(self) -> TrackerModel {
        TrackerModel { running: false, ..self }
    }

    /// After the collected files are handed over.
    pub open spec fn begin_processing(self, files: Seq<String>) -> TrackerModel {
        if self.phase == RunPhase::Collecting {
            TrackerModel { phase: RunPhase::Processing, files, processed: 0, ..self }
        } else {
            self
        }
    }

    /// Whether the next request for a file hands one out.
    pub open spec fn has_next(self) -> bool {
        self.phase == RunPhase::Processing && self.running && self.processed < self.files.len()
    }

    /// The file that the next request hands out, if any.
    pub open spec fn next_file(self) -> Option<String> {
        if self.has_next() {
            Some(self.files[self.processed as int])
        } else {
            None
        }
    }

    /// After a request for the next file: it is handed out, or the run ends
    /// because the list is exhausted or a stop was asked for.
    pub open spec fn after_next(self) -> TrackerModel {
        if self.has_next() {
            TrackerModel { phase: RunPhase::Uploading, ..self }
        } else if self.phase == RunPhase::Processing {
            TrackerModel { phase: RunPhase::Idle, running: false, ..self }
        } else {
            self
        }
    }

    /// After the upload in flight finishes, whatever its outcome.
    pub open spec fn after_complete(self) -> TrackerModel {
        if self.phase == RunPhase::Uploading {
            TrackerModel { phase: RunPhase::Processing, processed: self.processed + 1, ..self }
        } else {
            self
        }
    }
}

impl TrackerModel {
    /// One file handed out and its upload finished.
    pub open spec fn after_round(self) -> TrackerModel {
        self.after_next().after_complete()
    }

    /// The state after `k` rounds.
    pub open spec fn rounds(self, k: nat) -> TrackerModel
        decreases k,
    {
        if k == 0 {
            self
        } else {
            self.rounds((k - 1) as nat).after_round()
        }
    }
}

/// Every transition keeps the invariant; in particular the processed count
/// never exceeds the total.
pub proof fn lemma_transitions_keep_wf(m: TrackerModel, files: Seq<String>)
    requires
        m.wf(),
    ensures
        m.start().wf(),
        m.stop().wf(),
        m.begin_processing(files).wf(),
        m.after_next().wf(),
        m.after_complete().wf(),
        TrackerModel::initial().wf(),
{
}

proof fn lemma_rounds_count(p: TrackerModel, k: nat)
    requires
        p.phase == RunPhase::Processing,
        p.running,
        p.processed == 0,
        k <= p.files.len(),
    ensures
        p.rounds(k) == (TrackerModel { processed: k, ..p }),
    decreases k,
{
    if k > 0 {
        lemma_rounds_count(p, (k - 1) as nat);
    }
}

/// A run that nobody stops hands out every collected file once, in order, and
/// ends with as many files processed as were collected, whatever the uploads'
/// outcomes (they do not enter the count).
pub proof fn lemma_full_run_counts_every_file(m: TrackerModel, files: Seq<String>)
    requires
        m.wf(),
        m.phase == RunPhase::Collecting,
        m.running,
    ensures
        forall|k: nat|
            k < files.len() ==> #[trigger] m.begin_processing(files).rounds(k).next_file() == Some(
                files[k as int],
            ),
        m.begin_processing(files).rounds(files.len()).next_file() is None,
        m.begin_processing(files).rounds(files.len()).after_next().phase == RunPhase::Idle,
        !m.begin_processing(files).rounds(files.len()).after_next().running,
        m.begin_processing(files).rounds(files.len()).after_next().processed == files.len(),
        m.begin_processing(files).rounds(files.len()).after_next().total() == files.len(),
{
    let p = m.begin_processing(files);
    assert forall|k: nat| k < files.len() implies #[trigger] p.rounds(k).next_file() == Some(
        files[k as int],
    ) by {
        lemma_rounds_count(p, k);
    }
    lemma_rounds_count(p, files.len());
}

impl TrackerModel {
    /// The state once a run that is no longer wanted has wound down: its task
    /// hands over the files it collected (`collected`), lets the upload in
    /// flight finish, and finds at its next request that it must end.
    pub open spec fn wound_down(self, collected: Seq<String>) -> TrackerModel {
        self.begin_processing(collected).after_complete().after_next()
    }
}

/// From any tracker that is not running, once the old run has wound down a
/// new run starts, and if nobody stops it, it ends with every collected file
/// processed, whatever the uploads' outcomes.
pub proof fn lemma_run_after_stop_counts_every_file(
    m: TrackerModel,
    collected: Seq<String>,
    files: Seq<String>,
)
    requires
        m.wf(),
        !m.running,
    ensures
        m.wound_down(collected).phase == RunPhase::Idle,
        m.wound_down(collected).can_start(),
        m.wound_down(collected).start().begin_processing(files).rounds(files.len()).after_next().phase
            == RunPhase::Idle,
        !m.wound_down(collected).start().begin_processing(files).rounds(
            files.len(),
        ).after_next().running,
        m.wound_down(collected).start().begin_processing(files).rounds(
            files.len(),
        ).after_next().processed == files.len(),
        m.wound_down(collected).start().begin_processing(files).rounds(
            files.len(),
        ).after_next().total() == files.len(),
{
    lemma_full_run_counts_every_file(m.wound_down(collected).start(), files);
}

/// After a stop, at most the upload already in flight completes: the next
/// request for a file hands none out, the run ends with no more counted, and
/// nothing further is reported.
pub proof fn lemma_stop_halts_run(m: TrackerModel)
    requires
        m.wf(),
        m.phase == RunPhase::Processing || m.phase == RunPhase::Uploading,
    ensures
        m.stop().after_complete().next_file() is None,
        m.stop().after_complete().after_next().phase == RunPhase::Idle,
        !m.stop().after_complete().after_next().running,
        m.phase == RunPhase::Processing ==> m.stop().after_complete().after_next().processed
            == m.processed,
        m.phase == RunPhase::Uploading ==> m.stop().after_complete().after_next().processed
            == m.processed + 1,
        m.stop().after_complete().after_next().after_complete() == m.stop().after_complete().after_next(),
        m.stop().after_complete().after_next().next_file() is None,
{
}

/// A start while a run is active changes nothing: the run keeps its files,
/// its counts and its phase.
pub proof fn lemma_start_while_active_keeps_run(m: TrackerModel)
    requires
        m.phase != RunPhase::Idle,
    ensures
        m.start() == m,
        !m.can_start(),
{
}

/// A stop asked for while files are still being collected ends the run at its
/// first request for a file, with none processed.
pub proof fn lemma_stop_during_collection(m: TrackerModel, files: Seq<String>)
    requires
        m.wf(),
        m.phase == RunPhase::Collecting,
    ensures
        m.stop().begin_processing(files).next_file() is None,
        m.stop().begin_processing(files).after_next().phase == RunPhase::Idle,
        !m.stop().begin_processing(files).after_next().running,
        m.stop().begin_processing(files).after_next().processed == 0,
{
}

/// The status of a run together with its phase.
struct RunState {
    status: IngestionStatus,
    phase: RunPhase,
}

/// The shared record of a run: its status, its phase and its files.
pub struct StatusTracker {
    state: RunState,
    files: Vec<String>,
}

impl View for StatusTracker {
    type V = TrackerModel;

    closed spec fn view(&self) -> TrackerModel {
        TrackerModel {
            phase: self.state.phase,
            running: self.state.status.is_running,
            files: self.files@,
            processed: self.state.status.processed_files as nat,
        }
    }
}

impl StatusTracker {
    #[verifier::type_invariant]
    spec fn inv(&self) -> bool {
        &&& self@.wf()
        &&& self.state.status.total_files == self.files.len()
        &&& self.state.status.current_file == self@.current()
    }

    /// A tracker with no run yet.
    pub fn new() -> (r: Self)
        ensures
            r@ == TrackerModel::initial(),
    {
        StatusTracker {
            state: RunState { status: IngestionStatus::new(), phase: RunPhase::Idle },
            files: Vec::new(),
        }
    }

    fn current_copy(&self) -> (r: Option<String>)
        ensures
            r == self.state.status.current_file,
    {
        match &self.state.status.current_file {
            Some(f) => Some(f.clone()),
            None => None,
        }
    }

    /// A copy of the status, taken at once.
    pub fn snapshot(&self) -> (r: IngestionStatus)
        ensures
            self@.wf(),
            r.total_files == self@.total(),
            r.processed_files == self@.processed,
            r.current_file == self@.current(),
            r.is_running == self@.running,
    {
        proof {
            use_type_invariant(self);
        }
        IngestionStatus {
            total_files: self.state.status.total_files,
            processed_files: self.state.status.processed_files,
            current_file: self.current_copy(),
            is_running: self.state.status.is_running,
        }
    }

    /// The phase of the run.
    pub fn phase(&self) -> (r: RunPhase)
        ensures
            r == self@.phase,
    {
        self.state.phase
    }

    /// Starts a run unless one is active: the run then collects its files,
    /// is marked running, and its counts start from zero.
    pub fn start_run(&mut self) -> (r: Result<(), StartError>)
        ensures
            final(self)@.wf(),
            final(self)@ == old(self)@.start(),
            r is Ok <==> old(self)@.can_start(),
            r is Err ==> r == Err::<(), StartError>(StartError::AlreadyRunning),
    {
        proof {
            use_type_invariant(&*self);
        }
        if self.state.phase != RunPhase::Idle {
            return Err(StartError::AlreadyRunning);
        }
        let status = IngestionStatus {
            total_files: 0,
            processed_files: 0,
            current_file: None,
            is_running: true,
        };
        *self = StatusTracker {
            state: RunState { status, phase: RunPhase::Collecting },
            files: Vec::new(),
        };
        Ok(())
    }

    /// Asks the run to stop; it halts before the next file. Harmless when no
    /// run is active.
    pub fn stop(&mut self)
        ensures
            final(self)@.wf(),
            final(self)@ == old(self)@.stop(),
    {
        proof {
            use_type_invariant(&*self);
        }
        let status = IngestionStatus {
            total_files: self.state.status.total_files,
            processed_files: self.state.status.processed_files,
            current_file: self.current_copy(),
            is_running: false,
        };
        self.state = RunState { status, phase: self.state.phase };
    }

    /// Hands over the collected files: the total becomes their number and
    /// none is processed yet. Does nothing unless the run is collecting.
    pub fn begin_processing(&mut self, files: Vec<String>)
        ensures
            final(self)@.wf(),
            final(self)@ == old(self)@.begin_processing(files@),
    {
        proof {
            use_type_invariant(&*self);
        }
        if self.state.phase == RunPhase::Collecting {
            let status = IngestionStatus {
                total_files: files.len(),
                processed_files: 0,
                current_file: None,
                is_running: self.state.status.is_running,
            };
            *self = StatusTracker { state: RunState { status, phase: RunPhase::Processing }, files };
        }
    }

    /// The next file to upload, marked as current; or `None`, where the files
    /// are exhausted or a stop was asked for, and the run then ends.
    pub fn next_file(&mut self) -> (r: Option<String>)
        ensures
            final(self)@.wf(),
            final(self)@ == old(self)@.after_next(),
            r == old(self)@.next_file(),
    {
        proof {
            use_type_invariant(&*self);
        }
        if self.state.phase != RunPhase::Processing {
            return None;
        }
        let i = self.state.status.processed_files;
        let total = self.state.status.total_files;
        if self.state.status.is_running && i < self.files.len() {
            let status = IngestionStatus {
                total_files: total,
                processed_files: i,
                current_file: Some(self.files[i].clone()),
                is_running: true,
            };
            self.state = RunState { status, phase: RunPhase::Uploading };
            Some(self.files[i].clone())
        } else {
            let status = IngestionStatus {
                total_files: total,
                processed_files: i,
                current_file: None,
                is_running: false,
            };
            self.state = RunState { status, phase: RunPhase::Idle };
            None
        }
    }

    /// Records that the upload in flight finished, whatever its outcome, and
    /// returns the progress to report; `None` where no upload was in flight.
    pub fn complete_file(&mut self, outcome: UploadOutcome) -> (r: Option<ProgressEvent>)
        ensures
            final(self)@.wf(),
            final(self)@ == old(self)@.after_complete(),
            r is Some <==> old(self)@.phase == RunPhase::Uploading,
            r matches Some(ev) ==> {
                &&& ev.status.total_files == old(self)@.total()
                &&& ev.status.processed_files == final(self)@.processed
                &&& ev.status.current_file == old(self)@.current()
                &&& ev.status.is_running == old(self)@.running
                &&& ev.outcome == outcome
            },
    {
        proof {
            use_type_invariant(&*self);
        }
        if self.state.phase != RunPhase::Uploading {
            return None;
        }
        let done = self.current_copy();
        let total = self.state.status.total_files;
        let processed = self.state.status.processed_files + 1;
        let running = self.state.status.is_running;
        let status = IngestionStatus {
            total_files: total,
            processed_files: processed,
            current_file: None,
            is_running: running,
        };
        self.state = RunState { status, phase: RunPhase::Processing };
        let reported = IngestionStatus {
            total_files: total,
            processed_files: processed,
            current_file: done,
            is_running: running,
        };
        Some(ProgressEvent { status: reported, outcome })
    }
}

} // verus!
