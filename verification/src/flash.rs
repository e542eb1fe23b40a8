//! The decisions of a flash run.
//!
//! Programming a chip is three pieces of outside work in a fixed order:
//! open the probe, attach to the chip, download the image. This module
//! decides, from the state of the run and the result of the last piece of
//! work, what state comes next and what is to be done in it. The caller does
//! the work and reports back.

use vstd::prelude::*;
use crate::model::Firmware;

verus! {

/// How the bytes of an image file are laid out.
#[derive(Clone, Copy, Debug, PartialEq, Eq, Structural)]
pub enum ImageFormat {
    Elf,
    Hex,
    Bin,
}

/// How a piece of outside work ended.
#[derive(Clone, Copy, Debug, PartialEq, Eq, Structural)]
pub enum StepResult {
    Done,
    Failed,
}

/// The piece of work during which a run failed.
#[derive(Clone, Copy, Debug, PartialEq, Eq, Structural)]
pub enum FlashFailure {
    ProbeOpen,
    Attach,
    Download,
}

/// Where a run stands. `Downloaded` and `Failed` are final.
#[derive(Clone, Copy, Debug, PartialEq, Eq, Structural)]
pub enum FlashState {
    Idle,
    ProbeOpened,
    Attached,
    Downloaded,
    Failed(FlashFailure),
}

/// How a finished run ended.
#[derive(Clone, Copy, Debug, PartialEq, Eq, Structural)]
pub enum FlashOutcome {
    Success,
    ProbeOpenFailed,
    AttachFailed,
    DownloadFailed,
}

/// What the caller is to do next.
#[derive(Clone, Copy, Debug, PartialEq, Eq, Structural)]
pub enum FlashAction {
    OpenProbe,
    Attach,
    Download,
    Report(FlashOutcome),
}

/// The state that follows `state` when the work that was due in it ended
/// with `result`. A final state is followed by itself.
pub open spec fn next_state(state: FlashState, result: StepResult) -> FlashState {
    match (state, result) {
        (FlashState::Idle, StepResult::Done) => FlashState::ProbeOpened,
        (FlashState::Idle, StepResult::Failed) => FlashState::Failed(FlashFailure::ProbeOpen),
        (FlashState::ProbeOpened, StepResult::Done) => FlashState::Attached,
        (FlashState::ProbeOpened, StepResult::Failed) => FlashState::Failed(FlashFailure::Attach),
        (FlashState::Attached, StepResult::Done) => FlashState::Downloaded,
        (FlashState::Attached, StepResult::Failed) => FlashState::Failed(FlashFailure::Download),
        (FlashState::Downloaded, _) => FlashState::Downloaded,
        (FlashState::Failed(f), _) => FlashState::Failed(f),
    }
}

/// The outcome that a final state stands for; none while work is due.
pub open spec fn outcome_of(state: FlashState) -> Option<FlashOutcome> {
    match state {
        FlashState::Idle => None,
        FlashState::ProbeOpened => None,
        FlashState::Attached => None,
        FlashState::Downloaded => Some(FlashOutcome::Success),
        FlashState::Failed(FlashFailure::ProbeOpen) => Some(FlashOutcome::ProbeOpenFailed),
        FlashState::Failed(FlashFailure::Attach) => Some(FlashOutcome::AttachFailed),
        FlashState::Failed(FlashFailure::Download) => Some(FlashOutcome::DownloadFailed),
    }
}

/// What is due in `state`: the next piece of work, or the report of the
/// outcome once the run is over.
pub open spec fn action_in(state: FlashState) -> FlashAction {
    match state {
        FlashState::Idle => FlashAction::OpenProbe,
        FlashState::ProbeOpened => FlashAction::Attach,
        FlashState::Attached => FlashAction::Download,
        FlashState::Downloaded => FlashAction::Report(FlashOutcome::Success),
        FlashState::Failed(FlashFailure::ProbeOpen) => FlashAction::Report(
            FlashOutcome::ProbeOpenFailed,
        ),
        FlashState::Failed(FlashFailure::Attach) => FlashAction::Report(FlashOutcome::AttachFailed),
        FlashState::Failed(FlashFailure::Download) => FlashAction::Report(
            FlashOutcome::DownloadFailed,
        ),
    }
}

/// The state of a run that started idle and has seen `results`, oldest
/// first.
pub open spec fn state_after(results: Seq<StepResult>) -> FlashState
    decreases results.len(),
{
    if results.len() == 0 {
        FlashState::Idle
    } else {
        next_state(state_after(results.drop_last()), results.last())
    }
}

impl FlashState {
    /// The state in which every run starts.
    pub fn start() -> (r: FlashState)
        ensures
            r == FlashState::Idle,
    {
        FlashState::Idle
    }

    /// The state that follows when the work due in `self` ended with
    /// `result`.
    pub fn next(self, result: StepResult) -> (r: FlashState)
        ensures
            r == next_state(self, result),
    {
        match self {
            FlashState::Idle => match result {
                StepResult::Done => FlashState::ProbeOpened,
                StepResult::Failed => FlashState::Failed(FlashFailure::ProbeOpen),
            },
            FlashState::ProbeOpened => match result {
                StepResult::Done => FlashState::Attached,
                StepResult::Failed => FlashState::Failed(FlashFailure::Attach),
            },
            FlashState::Attached => match result {
                StepResult::Done => FlashState::Downloaded,
                StepResult::Failed => FlashState::Failed(FlashFailure::Download),
            },
            FlashState::Downloaded => FlashState::Downloaded,
            FlashState::Failed(f) => FlashState::Failed(f),
        }
    }

    /// What the caller is to do in this state.
    pub fn action(self) -> (r: FlashAction)
        ensures
            r == action_in(self),
    {
        match self {
            FlashState::Idle => FlashAction::OpenProbe,
            FlashState::ProbeOpened => FlashAction::Attach,
            FlashState::Attached => FlashAction::Download,
            FlashState::Downloaded => FlashAction::Report(FlashOutcome::Success),
            FlashState::Failed(f) => match f {
                FlashFailure::ProbeOpen => FlashAction::Report(FlashOutcome::ProbeOpenFailed),
                FlashFailure::Attach => FlashAction::Report(FlashOutcome::AttachFailed),
                FlashFailure::Download => FlashAction::Report(FlashOutcome::DownloadFailed),
            },
        }
    }

    /// The outcome of the run, once it is over.
    pub fn outcome(self) -> (r: Option<FlashOutcome>)
        ensures
            r == outcome_of(self),
    {
        match self {
            FlashState::Idle => None,
            FlashState::ProbeOpened => None,
            FlashState::Attached => None,
            FlashState::Downloaded => Some(FlashOutcome::Success),
            FlashState::Failed(f) => match f {
                FlashFailure::ProbeOpen => Some(FlashOutcome::ProbeOpenFailed),
                FlashFailure::Attach => Some(FlashOutcome::AttachFailed),
                FlashFailure::Download => Some(FlashOutcome::DownloadFailed),
            },
        }
    }
}

/// The state of a run that started idle and was told `results` in order.
pub fn replay(results: &Vec<StepResult>) -> (r: FlashState)
    ensures
        r == state_after(results@),
{
    let mut state = FlashState::start();
    let mut i: usize = 0;
    while i < results.len()
        invariant
            i <= results.len(),
            state == state_after(results@.take(i as int)),
        decreases results.len() - i,
    {
        proof {
            assert(results@.take(i + 1).drop_last() =~= results@.take(i as int));
        }
        state = state.next(results[i]);
        i += 1;
    }
    assert(results@.take(results@.len() as int) =~= results@);
    state
}

/// One enumerated debug probe, as far as this crate reads it.
#[derive(Debug, PartialEq, Eq)]
pub struct ProbeDescriptor {
    pub identifier: String,
    pub serial_number: Option<String>,
}

/// The probe at position `index` of the list that was enumerated last.
///
/// The index is taken as it is given: a list that was enumerated again
/// since the index was chosen is not detected.
pub fn select_probe(probes: &Vec<ProbeDescriptor>, index: usize) -> (r: &ProbeDescriptor)
    requires
        index < probes.len(),
    ensures
        *r == probes@[index as int],
{
    &probes[index]
}

/// Everything the outside work of one run is handed.
#[derive(Debug, PartialEq, Eq)]
pub struct FlashRequest {
    /// Position of the probe to open in the enumerated list.
    pub probe_index: usize,
    /// The chip to attach to.
    pub chip_type: String,
    /// The file to download.
    pub fw_path: String,
    /// How that file is to be read.
    pub format: ImageFormat,
}

/// A flash request with its strings as character sequences.
pub struct FlashRequestView {
    pub probe_index: int,
    pub chip_type: Seq<char>,
    pub fw_path: Seq<char>,
    pub format: ImageFormat,
}

impl View for FlashRequest {
    type V = FlashRequestView;

    open spec fn view(&self) -> FlashRequestView {
        FlashRequestView {
            probe_index: self.probe_index as int,
            chip_type: self.chip_type@,
            fw_path: self.fw_path@,
            format: self.format,
        }
    }
}

impl FlashRequest {
    /// The request to program `firmware` through the probe at `probe_index`
    /// of `probes`: the selected probe is the one opened, the attach names
    /// the image's chip type, and the download reads the image's file in the
    /// format the caller gives.
    pub fn new(
        probes: &Vec<ProbeDescriptor>,
        probe_index: usize,
        firmware: &Firmware,
        format: ImageFormat,
    ) -> (r: FlashRequest)
        requires
            probe_index < probes.len(),
        ensures
            r@ == (FlashRequestView {
                probe_index: probe_index as int,
                chip_type: firmware@.chip_type,
                fw_path: firmware@.fw_path,
                format,
            }),
    {
        FlashRequest {
            probe_index,
            chip_type: firmware.chip_type.clone(),
            fw_path: firmware.fw_path.clone(),
            format,
        }
    }
}

/// A final state is never left.
pub proof fn lemma_final_state_stays(state: FlashState, result: StepResult)
    requires
        outcome_of(state) is Some,
    ensures
        next_state(state, result) == state,
{
}

/// Once a run is over it stays over, with the same outcome, whatever it is
/// told afterwards.
pub proof fn lemma_outcome_is_kept(results: Seq<StepResult>, n: int)
    requires
        0 <= n <= results.len(),
        outcome_of(state_after(results.take(n))) is Some,
    ensures
        state_after(results) == state_after(results.take(n)),
    decreases results.len() - n,
{
    if n == results.len() {
        assert(results.take(n) =~= results);
    } else {
        assert(results.take(n + 1).drop_last() =~= results.take(n));
        lemma_outcome_is_kept(results, n + 1);
    }
}

/// A probe that cannot be opened ends the run as `ProbeOpenFailed`, and at
/// no point of the run is an attach or a download due.
pub proof fn lemma_open_failure_ends_run(results: Seq<StepResult>)
    requires
        results.len() >= 1,
        results[0] == StepResult::Failed,
    ensures
        outcome_of(state_after(results)) == Some(FlashOutcome::ProbeOpenFailed),
        forall|n: int|
            0 <= n <= results.len() ==> {
                let due = action_in(#[trigger] state_after(results.take(n)));
                due != FlashAction::Attach && due != FlashAction::Download
            },
{
    let failed = FlashState::Failed(FlashFailure::ProbeOpen);
    assert(results.take(0) =~= Seq::<StepResult>::empty());
    assert(state_after(results.take(0)) == FlashState::Idle);
    assert(results.take(1).drop_last() =~= results.take(0));
    assert(state_after(results.take(1)) == failed);
    lemma_outcome_is_kept(results, 1);
    assert forall|n: int| 0 <= n <= results.len() implies ({
        let due = action_in(#[trigger] state_after(results.take(n)));
        due != FlashAction::Attach && due != FlashAction::Download
    }) by {
        if n >= 1 {
            assert(results.take(n).take(1) =~= results.take(1));
            lemma_outcome_is_kept(results.take(n), 1);
        }
    }
}

/// A chip that cannot be attached to, on a probe that was opened, ends the
/// run as `AttachFailed`, and at no point of the run is a download due.
pub proof fn lemma_attach_failure_ends_run(results: Seq<StepResult>)
    requires
        results.len() >= 2,
        results[0] == StepResult::Done,
        results[1] == StepResult::Failed,
    ensures
        outcome_of(state_after(results)) == Some(FlashOutcome::AttachFailed),
        forall|n: int|
            0 <= n <= results.len() ==> action_in(#[trigger] state_after(results.take(n)))
                != FlashAction::Download,
{
    let failed = FlashState::Failed(FlashFailure::Attach);
    assert(results.take(0) =~= Seq::<StepResult>::empty());
    assert(state_after(results.take(0)) == FlashState::Idle);
    assert(results.take(1).drop_last() =~= results.take(0));
    assert(results.take(2).drop_last() =~= results.take(1));
    assert(state_after(results.take(1)) == FlashState::ProbeOpened);
    assert(state_after(results.take(2)) == failed);
    lemma_outcome_is_kept(results, 2);
    assert forall|n: int| 0 <= n <= results.len() implies action_in(
        #[trigger] state_after(results.take(n)),
    ) != FlashAction::Download by {
        if n == 1 {
            assert(results.take(n) =~= results.take(1));
        } else if n >= 2 {
            assert(results.take(n).take(2) =~= results.take(2));
            lemma_outcome_is_kept(results.take(n), 2);
        }
    }
}

/// Three pieces of work decide a run: it succeeds exactly when all three
/// are done, and after three results it is over in any case.
pub proof fn lemma_three_results_decide(results: Seq<StepResult>)
    requires
        results.len() >= 3,
    ensures
        outcome_of(state_after(results)) is Some,
        outcome_of(state_after(results)) == Some(FlashOutcome::Success) <==> (results[0]
            == StepResult::Done && results[1] == StepResult::Done && results[2]
            == StepResult::Done),
        results[0] == StepResult::Done && results[1] == StepResult::Done && results[2]
            == StepResult::Failed ==> outcome_of(state_after(results)) == Some(
            FlashOutcome::DownloadFailed,
        ),
{
    assert(results.take(0) =~= Seq::<StepResult>::empty());
    assert(state_after(results.take(0)) == FlashState::Idle);
    assert(results.take(1).drop_last() =~= results.take(0));
    assert(results.take(2).drop_last() =~= results.take(1));
    assert(results.take(3).drop_last() =~= results.take(2));
    assert(state_after(results.take(1)) == next_state(FlashState::Idle, results[0]));
    assert(state_after(results.take(2)) == next_state(state_after(results.take(1)), results[1]));
    assert(state_after(results.take(3)) == next_state(state_after(results.take(2)), results[2]));
    lemma_outcome_is_kept(results, 3);
}

} // verus!
