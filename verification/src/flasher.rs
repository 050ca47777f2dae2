//! The bootloader's flashing protocol as a state machine.
//!
//! A [`FlashSession`] knows which exchange with the device comes next. The
//! caller performs the [`Action`] it hands out (send a report, read a
//! response, wait) and reports what happened as an [`Event`]; the session
//! decides whether the protocol goes on or has failed.
//!
//! Initialization: device information request (answered by 0x27), erase
//! (answered by 0x29). Flashing: one write report per 58-byte chunk, each
//! answered by 0x2c; then the finalize report, whose answer is read but not
//! checked; then a pause and three status polls, whose outcome is ignored.

use vstd::prelude::*;
use crate::packets::{
    is_sealed_report, law_all_reports_sealed,
    chunk_count, device_info_request, erase_command, finalize_report, spec_chunk_count,
    spec_device_info_request, spec_erase_command, spec_finalize_report, spec_status_poll,
    spec_write_report, status_poll, write_report, RSP_DEVICE_INFO, RSP_ERASE, RSP_WRITE_DATA,
};

verus! {

/// The part of the protocol an exchange belongs to.
#[derive(Clone, Copy, Debug, PartialEq, Eq, Structural)]
pub enum Stage {
    DeviceInfo,
    Erase,
    /// Write of chunk number `.0`, counted from 0.
    Chunk(usize),
    Finalize,
    StatusPoll,
}

/// Why a procedure stopped.
#[derive(Clone, Copy, Debug, PartialEq, Eq, Structural)]
pub enum FlashError {
    /// Sending the report of this stage failed.
    SendFailed(Stage),
    /// Reading the device's answer in this stage failed.
    ReceiveFailed(Stage),
    /// The device answered this stage with an empty report (`got` is then 0)
    /// or with the response code `got` instead of the expected one.
    Rejected { stage: Stage, got: u8 },
    /// The firmware image holds no byte.
    EmptyFirmware,
}

/// The two procedures of the protocol.
#[derive(Clone, Copy, Debug, PartialEq, Eq, Structural)]
pub enum Procedure {
    /// Device information request and erase.
    Initialize,
    /// Write of the firmware, finalize and status polls.
    Flash,
}

/// The shape of one exchange of a procedure.
#[derive(Clone, Copy, Debug, PartialEq, Eq, Structural)]
pub enum StepShape {
    /// Send a report; a failed send stops the procedure only if `required`.
    Send { stage: Stage, required: bool },
    /// Read an answer; with `expect` set, a failed read or an answer whose
    /// first byte differs stops the procedure, otherwise the answer is ignored.
    Receive { stage: Stage, timeout_ms: i32, expect: Option<u8> },
    /// Wait.
    Sleep { millis: u64 },
}

/// What the caller is asked to do next.
pub enum Action {
    Send { stage: Stage, report: Vec<u8> },
    Receive { stage: Stage, timeout_ms: i32 },
    Sleep { millis: u64 },
    /// The procedure is over, with this outcome.
    Finished(Result<(), FlashError>),
}

/// Mathematical form of an [`Action`].
pub enum ActionView {
    Send { stage: Stage, report: Seq<u8> },
    Receive { stage: Stage, timeout_ms: i32 },
    Sleep { millis: u64 },
    Finished(Result<(), FlashError>),
}

impl View for Action {
    type V = ActionView;

    open spec fn view(&self) -> ActionView {
        match self {
            Action::Send { stage, report } => ActionView::Send { stage: *stage, report: report@ },
            Action::Receive { stage, timeout_ms } => ActionView::Receive {
                stage: *stage,
                timeout_ms: *timeout_ms,
            },
            Action::Sleep { millis } => ActionView::Sleep { millis: *millis },
            Action::Finished(r) => ActionView::Finished(*r),
        }
    }
}

/// What happened when the caller performed an [`Action`].
pub enum Event {
    /// The report was sent.
    Sent,
    /// Sending the report failed.
    SendFailed,
    /// An answer was read; the vector holds the bytes read (possibly none).
    Received(Vec<u8>),
    /// Reading failed.
    ReceiveFailed,
    /// The pause is over.
    Slept,
}

/// Number of exchanges after the last write acknowledgement: finalize, its
/// answer, a pause, and three status polls with their pauses and answers.
pub open spec fn closing_len() -> nat {
    11
}

/// Number of exchanges of a procedure, for a firmware of `len` bytes.
pub open spec fn script_len(procedure: Procedure, len: nat) -> nat {
    match procedure {
        Procedure::Initialize => 4,
        Procedure::Flash => 2 * spec_chunk_count(len) + closing_len(),
    }
}

/// Exchange number `pos` of a procedure, for a firmware of `len` bytes
/// (`None` past the end).
pub open spec fn spec_step_shape(procedure: Procedure, len: nat, pos: int) -> Option<StepShape> {
    match procedure {
        Procedure::Initialize => if pos == 0 {
            Some(StepShape::Send { stage: Stage::DeviceInfo, required: true })
        } else if pos == 1 {
            Some(
                StepShape::Receive {
                    stage: Stage::DeviceInfo,
                    timeout_ms: 5000,
                    expect: Some(RSP_DEVICE_INFO),
                },
            )
        } else if pos == 2 {
            Some(StepShape::Send { stage: Stage::Erase, required: true })
        } else if pos == 3 {
            Some(
                StepShape::Receive { stage: Stage::Erase, timeout_ms: 30000, expect: Some(RSP_ERASE) },
            )
        } else {
            None
        },
        Procedure::Flash => {
            let n = spec_chunk_count(len) as int;
            let k = pos - 2 * n;
            if pos < 0 {
                None
            } else if pos < 2 * n {
                if pos % 2 == 0 {
                    Some(StepShape::Send { stage: Stage::Chunk((pos / 2) as usize), required: true })
                } else {
                    Some(
                        StepShape::Receive {
                            stage: Stage::Chunk((pos / 2) as usize),
                            timeout_ms: 5000,
                            expect: Some(RSP_WRITE_DATA),
                        },
                    )
                }
            } else if k == 0 {
                Some(StepShape::Send { stage: Stage::Finalize, required: true })
            } else if k == 1 {
                Some(StepShape::Receive { stage: Stage::Finalize, timeout_ms: 2000, expect: None })
            } else if k == 2 {
                Some(StepShape::Sleep { millis: 3000 })
            } else if k == 3 || k == 6 || k == 9 {
                Some(StepShape::Send { stage: Stage::StatusPoll, required: false })
            } else if k == 4 || k == 7 {
                Some(StepShape::Sleep { millis: 50 })
            } else if k == 5 || k == 8 {
                Some(StepShape::Receive { stage: Stage::StatusPoll, timeout_ms: 500, expect: None })
            } else if k == 10 {
                Some(StepShape::Sleep { millis: 500 })
            } else {
                None
            }
        },
    }
}

/// The report sent by exchange `pos` of a procedure, when that exchange sends one.
pub open spec fn spec_step_report(procedure: Procedure, fw: Seq<u8>, pos: int) -> Seq<u8> {
    match procedure {
        Procedure::Initialize => if pos == 0 {
            spec_device_info_request()
        } else {
            spec_erase_command()
        },
        Procedure::Flash => {
            let n = spec_chunk_count(fw.len()) as int;
            let k = pos - 2 * n;
            if pos < 2 * n {
                spec_write_report(fw, pos / 2)
            } else if k == 0 {
                spec_finalize_report(fw)
            } else if k == 3 {
                spec_status_poll(0x81)
            } else {
                spec_status_poll(0x82)
            }
        },
    }
}

/// Mathematical state of a session.
pub struct SessionView {
    pub procedure: Procedure,
    pub firmware: Seq<u8>,
    pub position: nat,
    pub failure: Option<FlashError>,
}

impl SessionView {
    pub open spec fn step(self) -> Option<StepShape> {
        spec_step_shape(self.procedure, self.firmware.len(), self.position as int)
    }

    /// The session has nothing left to do: it failed or passed its last exchange.
    pub open spec fn is_finished(self) -> bool {
        self.failure is Some || self.step() is None
    }

    /// The same session one exchange further.
    pub open spec fn next(self) -> SessionView {
        SessionView { position: self.position + 1, ..self }
    }

    /// The same session stopped with `e`.
    pub open spec fn failed(self, e: FlashError) -> SessionView {
        SessionView { failure: Some(e), ..self }
    }
}

/// What a session in state `v` asks the caller to do.
pub open spec fn spec_next_action(v: SessionView) -> ActionView {
    match v.failure {
        Some(e) => ActionView::Finished(Err(e)),
        None => match v.step() {
            None => ActionView::Finished(Ok(())),
            Some(StepShape::Send { stage, required }) => ActionView::Send {
                stage,
                report: spec_step_report(v.procedure, v.firmware, v.position as int),
            },
            Some(StepShape::Receive { stage, timeout_ms, expect }) => ActionView::Receive {
                stage,
                timeout_ms,
            },
            Some(StepShape::Sleep { millis }) => ActionView::Sleep { millis },
        },
    }
}

/// Whether the bytes read are an answer with response code `code`.
pub open spec fn answers_with(bytes: Seq<u8>, code: u8) -> bool {
    bytes.len() >= 1 && bytes[0] == code
}

/// The first byte read, or 0 when nothing was read.
pub open spec fn first_byte_or_zero(bytes: Seq<u8>) -> u8 {
    if bytes.len() > 0 {
        bytes[0]
    } else {
        0
    }
}

/// The state of a session in state `v` after event `e`. An event that does not
/// answer the pending exchange, or any event after the end, changes nothing.
pub open spec fn spec_advance(v: SessionView, e: Event) -> SessionView {
    if v.failure is Some {
        v
    } else {
        match v.step() {
            None => v,
            Some(StepShape::Send { stage, required }) => match e {
                Event::Sent => v.next(),
                Event::SendFailed => if required {
                    v.failed(FlashError::SendFailed(stage))
                } else {
                    v.next()
                },
                _ => v,
            },
            Some(StepShape::Receive { stage, timeout_ms, expect }) => match e {
                Event::Received(bytes) => match expect {
                    Some(code) => if answers_with(bytes@, code) {
                        v.next()
                    } else {
                        v.failed(FlashError::Rejected { stage, got: first_byte_or_zero(bytes@) })
                    },
                    None => v.next(),
                },
                Event::ReceiveFailed => match expect {
                    Some(code) => v.failed(FlashError::ReceiveFailed(stage)),
                    None => v.next(),
                },
                _ => v,
            },
            Some(StepShape::Sleep { millis }) => match e {
                Event::Slept => v.next(),
                _ => v,
            },
        }
    }
}

/// Whether event `e` lets a session pass an exchange of shape `shape`.
pub open spec fn accepts(shape: StepShape, e: Event) -> bool {
    match shape {
        StepShape::Send { stage, required } => match e {
            Event::Sent => true,
            Event::SendFailed => !required,
            _ => false,
        },
        StepShape::Receive { stage, timeout_ms, expect } => match e {
            Event::Received(bytes) => match expect {
                Some(code) => answers_with(bytes@, code),
                None => true,
            },
            Event::ReceiveFailed => expect is None,
            _ => false,
        },
        StepShape::Sleep { millis } => e is Slept,
    }
}

/// The state reached from `v` after the events `evs`, in order.
pub open spec fn spec_run(v: SessionView, evs: Seq<Event>) -> SessionView
    decreases evs.len(),
{
    if evs.len() == 0 {
        v
    } else {
        spec_advance(spec_run(v, evs.drop_last()), evs.last())
    }
}

/// The state in which a procedure starts.
pub open spec fn start_state(procedure: Procedure, fw: Seq<u8>) -> SessionView {
    SessionView { procedure, firmware: fw, position: 0, failure: None }
}

/// A run of one procedure of the protocol.
pub struct FlashSession {
    procedure: Procedure,
    firmware: Vec<u8>,
    position: usize,
    failure: Option<FlashError>,
}

impl View for FlashSession {
    type V = SessionView;

    closed spec fn view(&self) -> SessionView {
        SessionView {
            procedure: self.procedure,
            firmware: self.firmware@,
            position: self.position as nat,
            failure: self.failure,
        }
    }
}

proof fn lemma_script_fits(len: nat)
    requires
        len <= usize::MAX,
    ensures
        2 * spec_chunk_count(len) + closing_len() <= usize::MAX,
{
    assert(2 * ((len + 57) / 58) + 11 <= usize::MAX) by (nonlinear_arith)
        requires
            len <= usize::MAX,
            usize::MAX >= 0xffff_ffff,
    ;
}

impl FlashSession {
    /// A session that initializes the device: device information, then erase.
    pub fn initialize() -> (s: Self)
        ensures
            s@ == (SessionView {
                procedure: Procedure::Initialize,
                firmware: Seq::empty(),
                position: 0,
                failure: None,
            }),
    {
        FlashSession {
            procedure: Procedure::Initialize,
            firmware: Vec::new(),
            position: 0,
            failure: None,
        }
    }

    /// A session that writes `firmware` to the device, then finalizes and polls it.
    pub fn flash_firmware(firmware: Vec<u8>) -> (s: Self)
        ensures
            s@ == (SessionView {
                procedure: Procedure::Flash,
                firmware: firmware@,
                position: 0,
                failure: None,
            }),
    {
        FlashSession { procedure: Procedure::Flash, firmware, position: 0, failure: None }
    }

    /// A session that writes the contents of a firmware file; an empty file is refused.
    pub fn flash_file(contents: Vec<u8>) -> (r: Result<Self, FlashError>)
        ensures
            contents@.len() == 0 <==> r == Err::<Self, FlashError>(FlashError::EmptyFirmware),
            contents@.len() > 0 <==> r is Ok,
            r matches Ok(s) ==> s@ == (SessionView {
                procedure: Procedure::Flash,
                firmware: contents@,
                position: 0,
                failure: None,
            }),
    {
        if contents.len() == 0 {
            Err(FlashError::EmptyFirmware)
        } else {
            Ok(FlashSession::flash_firmware(contents))
        }
    }

    /// The procedure this session runs.
    pub fn procedure(&self) -> (p: Procedure)
        ensures
            p == self@.procedure,
    {
        self.procedure
    }

    /// Number of exchanges already passed.
    pub fn position(&self) -> (p: usize)
        ensures
            p == self@.position,
    {
        self.position
    }

    /// Number of write reports this session sends (0 for an initialization).
    pub fn total_chunks(&self) -> (n: usize)
        ensures
            n == (match self@.procedure {
                Procedure::Initialize => 0,
                Procedure::Flash => spec_chunk_count(self@.firmware.len()),
            }),
    {
        match self.procedure {
            Procedure::Initialize => 0,
            Procedure::Flash => chunk_count(self.firmware.len()),
        }
    }

    /// The pending exchange, if any.
    pub fn step(&self) -> (s: Option<StepShape>)
        ensures
            s == self@.step(),
            s is Some ==> self@.position < usize::MAX,
    {
        let pos = self.position;
        match self.procedure {
            Procedure::Initialize => if pos == 0 {
                Some(StepShape::Send { stage: Stage::DeviceInfo, required: true })
            } else if pos == 1 {
                Some(
                    StepShape::Receive {
                        stage: Stage::DeviceInfo,
                        timeout_ms: 5000,
                        expect: Some(RSP_DEVICE_INFO),
                    },
                )
            } else if pos == 2 {
                Some(StepShape::Send { stage: Stage::Erase, required: true })
            } else if pos == 3 {
                Some(
                    StepShape::Receive {
                        stage: Stage::Erase,
                        timeout_ms: 30000,
                        expect: Some(RSP_ERASE),
                    },
                )
            } else {
                None
            },
            Procedure::Flash => {
                let n = chunk_count(self.firmware.len());
                proof {
                    lemma_script_fits(self.firmware@.len());
                }
                if pos < 2 * n {
                    if pos % 2 == 0 {
                        Some(StepShape::Send { stage: Stage::Chunk(pos / 2), required: true })
                    } else {
                        Some(
                            StepShape::Receive {
                                stage: Stage::Chunk(pos / 2),
                                timeout_ms: 5000,
                                expect: Some(RSP_WRITE_DATA),
                            },
                        )
                    }
                } else {
                    let k = pos - 2 * n;
                    if k == 0 {
                        Some(StepShape::Send { stage: Stage::Finalize, required: true })
                    } else if k == 1 {
                        Some(
                            StepShape::Receive {
                                stage: Stage::Finalize,
                                timeout_ms: 2000,
                                expect: None,
                            },
                        )
                    } else if k == 2 {
                        Some(StepShape::Sleep { millis: 3000 })
                    } else if k == 3 || k == 6 || k == 9 {
                        Some(StepShape::Send { stage: Stage::StatusPoll, required: false })
                    } else if k == 4 || k == 7 {
                        Some(StepShape::Sleep { millis: 50 })
                    } else if k == 5 || k == 8 {
                        Some(
                            StepShape::Receive {
                                stage: Stage::StatusPoll,
                                timeout_ms: 500,
                                expect: None,
                            },
                        )
                    } else if k == 10 {
                        Some(StepShape::Sleep { millis: 500 })
                    } else {
                        None
                    }
                }
            },
        }
    }

    fn report_at(&self) -> (r: Vec<u8>)
        requires
            self@.step() matches Some(StepShape::Send { .. }),
        ensures
            r@ == spec_step_report(self@.procedure, self@.firmware, self@.position as int),
    {
        let pos = self.position;
        match self.procedure {
            Procedure::Initialize => if pos == 0 {
                device_info_request()
            } else {
                erase_command()
            },
            Procedure::Flash => {
                let n = chunk_count(self.firmware.len());
                proof {
                    lemma_script_fits(self.firmware@.len());
                }
                if pos < 2 * n {
                    write_report(self.firmware.as_slice(), pos / 2)
                } else if pos - 2 * n == 0 {
                    finalize_report(self.firmware.as_slice())
                } else if pos - 2 * n == 3 {
                    status_poll(0x81)
                } else {
                    status_poll(0x82)
                }
            },
        }
    }

    /// Whether the session has nothing left to do.
    pub fn is_finished(&self) -> (b: bool)
        ensures
            b == self@.is_finished(),
    {
        self.failure.is_some() || self.step().is_none()
    }

    /// What the caller has to do next.
    pub fn next_action(&self) -> (a: Action)
        ensures
            a@ == spec_next_action(self@),
    {
        match self.failure {
            Some(e) => Action::Finished(Err(e)),
            None => match self.step() {
                None => Action::Finished(Ok(())),
                Some(StepShape::Send { stage, required }) => Action::Send {
                    stage,
                    report: self.report_at(),
                },
                Some(StepShape::Receive { stage, timeout_ms, expect }) => Action::Receive {
                    stage,
                    timeout_ms,
                },
                Some(StepShape::Sleep { millis }) => Action::Sleep { millis },
            },
        }
    }

    /// Records what happened when the caller performed the pending action.
    pub fn advance(&mut self, event: Event)
        ensures
            final(self)@ == spec_advance(old(self)@, event),
    {
        if self.failure.is_some() {
            return ;
        }
        match self.step() {
            None => {},
            Some(StepShape::Send { stage, required }) => match event {
                Event::Sent => {
                    self.position = self.position + 1;
                },
                Event::SendFailed => {
                    if required {
                        self.failure = Some(FlashError::SendFailed(stage));
                    } else {
                        self.position = self.position + 1;
                    }
                },
                _ => {},
            },
            Some(StepShape::Receive { stage, timeout_ms, expect }) => match event {
                Event::Received(bytes) => match expect {
                    Some(code) => {
                        if bytes.len() >= 1 && bytes[0] == code {
                            self.position = self.position + 1;
                        } else {
                            let got = if bytes.len() > 0 {
                                bytes[0]
                            } else {
                                0
                            };
                            self.failure = Some(FlashError::Rejected { stage, got });
                        }
                    },
                    None => {
                        self.position = self.position + 1;
                    },
                },
                Event::ReceiveFailed => match expect {
                    Some(code) => {
                        self.failure = Some(FlashError::ReceiveFailed(stage));
                    },
                    None => {
                        self.position = self.position + 1;
                    },
                },
                _ => {},
            },
            Some(StepShape::Sleep { millis }) => match event {
                Event::Slept => {
                    self.position = self.position + 1;
                },
                _ => {},
            },
        }
    }
}

/// Every report a session asks to send is a sealed 64-byte report.
pub proof fn law_sent_reports_are_sealed(v: SessionView)
    ensures
        spec_next_action(v) matches ActionView::Send { report, .. } ==> is_sealed_report(report),
{
    if let ActionView::Send { stage, report } = spec_next_action(v) {
        let n = spec_chunk_count(v.firmware.len()) as int;
        let pos = v.position as int;
        if v.procedure == Procedure::Flash && pos < 2 * n {
            law_all_reports_sealed(v.firmware, pos / 2, 0x81);
        } else if v.procedure == Procedure::Flash && pos - 2 * n == 3 {
            law_all_reports_sealed(v.firmware, -1, 0x81);
        } else {
            law_all_reports_sealed(v.firmware, -1, 0x82);
        }
    }
}

/// The flashing procedure writes chunk `i` at exchange `2 * i` with the write
/// report of chunk `i`, and waits for its acknowledgement (0x2c) at exchange
/// `2 * i + 1`; after the last chunk comes the finalize report.
pub proof fn law_flash_writes_chunks_in_order(fw: Seq<u8>, i: int)
    requires
        0 <= i < spec_chunk_count(fw.len()),
    ensures
        spec_step_shape(Procedure::Flash, fw.len(), 2 * i) == Some(
            StepShape::Send { stage: Stage::Chunk(i as usize), required: true },
        ),
        spec_step_report(Procedure::Flash, fw, 2 * i) == spec_write_report(fw, i),
        spec_step_shape(Procedure::Flash, fw.len(), 2 * i + 1) == Some(
            StepShape::Receive {
                stage: Stage::Chunk(i as usize),
                timeout_ms: 5000,
                expect: Some(RSP_WRITE_DATA),
            },
        ),
        spec_step_shape(Procedure::Flash, fw.len(), 2 * (spec_chunk_count(fw.len()) as int)) == Some(
            StepShape::Send { stage: Stage::Finalize, required: true },
        ),
        spec_step_report(Procedure::Flash, fw, 2 * (spec_chunk_count(fw.len()) as int))
            == spec_finalize_report(fw),
{
    assert((2 * i) / 2 == i);
    assert((2 * i + 1) / 2 == i);
    assert((2 * i) % 2 == 0);
    assert((2 * i + 1) % 2 == 1);
}

/// A procedure has exactly `script_len` exchanges.
pub proof fn law_script_length(procedure: Procedure, len: nat, pos: int)
    requires
        0 <= pos,
    ensures
        spec_step_shape(procedure, len, pos) is Some <==> pos < script_len(procedure, len),
{
}

/// A finished session stays as it is, whatever happens.
pub proof fn law_finished_is_final(v: SessionView, e: Event)
    requires
        v.is_finished(),
    ensures
        spec_advance(v, e) == v,
        spec_next_action(v) is Finished,
{
}

/// An event either leaves the session unchanged, or passes exactly the pending
/// exchange (when it accepts it), or stops the session where it stands.
pub proof fn law_advance_moves_one_step(v: SessionView, e: Event)
    ensures
        ({
            let w = spec_advance(v, e);
            ||| w == v
            ||| (v.failure is None && v.step() is Some && accepts(v.step()->0, e) && w == v.next())
            ||| (v.failure is None && v.step() is Some && !accepts(v.step()->0, e) && w.failure
                is Some && w.position == v.position)
        }),
{
}

proof fn lemma_run_passes_through(v: SessionView, evs: Seq<Event>, p: int)
    requires
        v.position <= p < spec_run(v, evs).position,
    ensures
        exists|j: int|
            0 <= j < evs.len() && #[trigger] spec_run(v, evs.take(j)).position == p && spec_run(
                v,
                evs.take(j),
            ).failure is None && spec_run(v, evs.take(j)).step() is Some && accepts(
                spec_run(v, evs.take(j)).step()->0,
                evs[j],
            ),
    decreases evs.len(),
{
    let last = evs.len() - 1;
    let w = spec_run(v, evs.drop_last());
    law_advance_moves_one_step(w, evs.last());
    assert(evs.drop_last() =~= evs.take(last));
    if p < w.position {
        lemma_run_passes_through(v, evs.drop_last(), p);
        let j = choose|j: int|
            0 <= j < evs.drop_last().len() && #[trigger] spec_run(
                v,
                evs.drop_last().take(j),
            ).position == p && spec_run(v, evs.drop_last().take(j)).failure is None && spec_run(
                v,
                evs.drop_last().take(j),
            ).step() is Some && accepts(
                spec_run(v, evs.drop_last().take(j)).step()->0,
                evs.drop_last()[j],
            );
        assert(evs.drop_last().take(j) =~= evs.take(j));
    } else {
        assert(spec_run(v, evs.take(last)).position == p);
    }
}

proof fn lemma_run_stays_in_script(v: SessionView, evs: Seq<Event>)
    requires
        v.position <= script_len(v.procedure, v.firmware.len()),
    ensures
        spec_run(v, evs).position <= script_len(v.procedure, v.firmware.len()),
        spec_run(v, evs).position >= v.position,
        spec_run(v, evs).procedure == v.procedure,
        spec_run(v, evs).firmware == v.firmware,
        spec_run(v, evs).failure is None ==> v.failure is None,
    decreases evs.len(),
{
    if evs.len() > 0 {
        lemma_run_stays_in_script(v, evs.drop_last());
        let w = spec_run(v, evs.drop_last());
        law_script_length(w.procedure, w.firmware.len(), w.position as int);
    }
}

/// A flashing session that ends in success has had each of its write reports
/// acknowledged: for every chunk `i`, one of the events was an answer whose
/// first byte is 0x2c, given while the session waited for chunk `i`.
pub proof fn law_flash_success_means_every_chunk_acknowledged(fw: Seq<u8>, evs: Seq<Event>, i: int)
    requires
        0 <= i < spec_chunk_count(fw.len()),
        spec_next_action(spec_run(start_state(Procedure::Flash, fw), evs)) == ActionView::Finished(
            Ok(()),
        ),
    ensures
        exists|j: int|
            0 <= j < evs.len() && (#[trigger] evs[j] matches Event::Received(bytes) && bytes@.len() > 0
                && bytes@[0] == RSP_WRITE_DATA) && spec_run(start_state(Procedure::Flash, fw), evs.take(j)).step() == Some(
                StepShape::Receive {
                    stage: Stage::Chunk(i as usize),
                    timeout_ms: 5000,
                    expect: Some(RSP_WRITE_DATA),
                },
            ),
{
    let v = start_state(Procedure::Flash, fw);
    let fin = spec_run(v, evs);
    lemma_run_stays_in_script(v, evs);
    law_script_length(Procedure::Flash, fw.len(), fin.position as int);
    law_flash_writes_chunks_in_order(fw, i);
    lemma_run_passes_through(v, evs, 2 * i + 1);
    let j = choose|j: int|
        0 <= j < evs.len() && #[trigger] spec_run(v, evs.take(j)).position == 2 * i + 1
            && spec_run(v, evs.take(j)).failure is None && spec_run(v, evs.take(j)).step() is Some
            && accepts(spec_run(v, evs.take(j)).step()->0, evs[j]);
    assert(spec_run(v, evs.take(j)).procedure == Procedure::Flash) by {
        lemma_run_stays_in_script(v, evs.take(j));
    }
    assert(spec_run(v, evs.take(j)).firmware == fw) by {
        lemma_run_stays_in_script(v, evs.take(j));
    }
}

/// An initialization that ends in success has seen the device answer the
/// information request with 0x27 and the erase with 0x29.
pub proof fn law_initialize_success_means_device_answered(evs: Seq<Event>)
    requires
        spec_next_action(spec_run(start_state(Procedure::Initialize, Seq::empty()), evs))
            == ActionView::Finished(Ok(())),
    ensures
        exists|j: int|
            0 <= j < evs.len() && (#[trigger] evs[j] matches Event::Received(bytes) && bytes@.len() > 0
                && bytes@[0] == RSP_DEVICE_INFO),
        exists|j: int|
            0 <= j < evs.len() && (#[trigger] evs[j] matches Event::Received(bytes) && bytes@.len() > 0
                && bytes@[0] == RSP_ERASE),
{
    let v = start_state(Procedure::Initialize, Seq::empty());
    let fin = spec_run(v, evs);
    lemma_run_stays_in_script(v, evs);
    law_script_length(Procedure::Initialize, 0, fin.position as int);
    lemma_run_passes_through(v, evs, 1);
    let j1 = choose|j: int|
        0 <= j < evs.len() && #[trigger] spec_run(v, evs.take(j)).position == 1 && spec_run(
            v,
            evs.take(j),
        ).failure is None && spec_run(v, evs.take(j)).step() is Some && accepts(
            spec_run(v, evs.take(j)).step()->0,
            evs[j],
        );
    lemma_run_stays_in_script(v, evs.take(j1));
    lemma_run_passes_through(v, evs, 3);
    let j3 = choose|j: int|
        0 <= j < evs.len() && #[trigger] spec_run(v, evs.take(j)).position == 3 && spec_run(
            v,
            evs.take(j),
        ).failure is None && spec_run(v, evs.take(j)).step() is Some && accepts(
            spec_run(v, evs.take(j)).step()->0,
            evs[j],
        );
    lemma_run_stays_in_script(v, evs.take(j3));
}

/// A read that expects response code `c` is passed only by an answer whose
/// first byte is `c`; any other answer, whatever its later bytes hold, stops
/// the session with `Rejected`, carrying the first byte read (0 for an empty
/// answer). A failed read stops it too. A read that expects nothing is passed
/// by any answer and by a failed read.
pub proof fn law_receive_checks_first_byte(v: SessionView, bytes: Vec<u8>)
    requires
        v.failure is None,
        v.step() matches Some(StepShape::Receive { .. }),
    ensures
        ({
            let stage = v.step()->0->Receive_stage;
            let expect = v.step()->0->Receive_expect;
            let w = spec_advance(v, Event::Received(bytes));
            &&& expect matches Some(c) ==> (bytes@.len() > 0 && bytes@[0] == c ==> w.position
                == v.position + 1 && w.failure is None)
            &&& expect matches Some(c) ==> (!(bytes@.len() > 0 && bytes@[0] == c) ==> w.position
                == v.position && w.failure == Some(
                FlashError::Rejected {
                    stage,
                    got: if bytes@.len() > 0 {
                        bytes@[0]
                    } else {
                        0u8
                    },
                },
            ))
            &&& expect is None ==> w.position == v.position + 1 && w.failure is None
            &&& expect is Some ==> spec_advance(v, Event::ReceiveFailed).failure == Some(
                FlashError::ReceiveFailed(stage),
            )
        }),
{
}

} // verus!
