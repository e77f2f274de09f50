//! Decisions of the register-memory event handler: what a write to the
//! timestamp latch or to the stream interface control register does to the
//! watched registers, which signals it emits, and which acknowledgement the
//! drained batch of events answers with.
use vstd::prelude::*;

verus! {

/// Status carried by an error acknowledgement.
#[derive(Debug, Clone, Copy, PartialEq, Eq, Structural)]
pub enum AckStatus {
    /// Generic failure of the control protocol.
    GenericError,
    /// The stream interface registers hold an inconsistent configuration.
    InvalidSiState,
}

/// Kind of the command that a write event answers.
#[derive(Debug, Clone, Copy, PartialEq, Eq, Structural)]
pub enum ScdKind {
    ReadMem,
    WriteMem,
    ReadMemStacked,
    WriteMemStacked,
}

/// An error acknowledgement sent back for a command.
#[derive(Debug, Clone, Copy, PartialEq, Eq, Structural)]
pub struct ErrorAck {
    pub status: AckStatus,
    pub scd_kind: ScdKind,
}

impl ErrorAck {
    pub fn new(status: AckStatus, scd_kind: ScdKind) -> (r: ErrorAck)
        ensures
            r == (ErrorAck { status, scd_kind }),
    {
        ErrorAck { status, scd_kind }
    }
}

/// The streaming interface registers that the enable path checks.
#[derive(Debug, Clone, Copy, PartialEq, Eq, Structural)]
pub struct SirmRegisters {
    pub maximum_leader_size: u32,
    pub maximum_trailer_size: u32,
    pub payload_transfer_size: u32,
    pub payload_transfer_count: u32,
    pub payload_final_transfer_size1: u32,
    pub payload_final_transfer_size2: u32,
    pub required_leader_size: u32,
    pub required_trailer_size: u32,
    pub required_payload_size: u64,
}

/// The registers that the event handler reads and writes.
#[derive(Debug, Clone, Copy, PartialEq, Eq, Structural)]
pub struct WatchedRegisters {
    pub timestamp_latch: u32,
    pub timestamp: u64,
    pub si_control: u32,
    pub sirm: SirmRegisters,
}

/// A signal sent to another module of the device.
#[derive(Debug, Clone, Copy, PartialEq, Eq, Structural)]
pub enum Signal {
    /// To the event module: the timestamp register now holds this value.
    UpdateTimestamp(u64),
    /// To the stream module: start streaming.
    StreamEnable,
    /// To the stream module: stop streaming; the sender awaits completion.
    StreamDisable,
}

/// A write to a watched register.
#[derive(Debug, Clone, Copy, PartialEq, Eq, Structural)]
pub enum MemoryEvent {
    TimestampLatch,
    SiControl,
}

/// Every configurable size is a multiple of the alignment.
pub open spec fn sizes_aligned(s: SirmRegisters, alignment: u32) -> bool {
    &&& s.maximum_leader_size % alignment == 0
    &&& s.payload_transfer_size % alignment == 0
    &&& s.payload_final_transfer_size1 % alignment == 0
    &&& s.payload_final_transfer_size2 % alignment == 0
    &&& s.maximum_trailer_size % alignment == 0
}

/// The payload size that the transfer registers describe.
pub open spec fn specified_payload_size(s: SirmRegisters) -> int {
    s.payload_transfer_size as int * s.payload_transfer_count as int
        + s.payload_final_transfer_size1 as int + s.payload_final_transfer_size2 as int
}

/// Leader, trailer and payload are at least as large as the device requires.
pub open spec fn sizes_sufficient(s: SirmRegisters) -> bool {
    &&& s.maximum_leader_size >= s.required_leader_size
    &&& s.maximum_trailer_size >= s.required_trailer_size
    &&& specified_payload_size(s) >= s.required_payload_size
}

pub open spec fn invalid_si_state(scd_kind: ScdKind) -> Result<(), ErrorAck> {
    Err(ErrorAck { status: AckStatus::InvalidSiState, scd_kind })
}

pub open spec fn generic_error(scd_kind: ScdKind) -> Result<(), ErrorAck> {
    Err(ErrorAck { status: AckStatus::GenericError, scd_kind })
}

/// What handling a write to the timestamp latch does, given the device clock.
pub open spec fn timestamp_latch_outcome(r: WatchedRegisters, now_ns: u64, scd_kind: ScdKind) -> (
    WatchedRegisters,
    Seq<Signal>,
    Result<(), ErrorAck>,
) {
    if r.timestamp_latch == 1 {
        (WatchedRegisters { timestamp: now_ns, ..r }, seq![Signal::UpdateTimestamp(now_ns)], Ok(()))
    } else {
        (r, seq![], generic_error(scd_kind))
    }
}

/// What handling a write to the stream interface control register does.
pub open spec fn si_control_outcome(r: WatchedRegisters, alignment: u32, scd_kind: ScdKind) -> (
    WatchedRegisters,
    Seq<Signal>,
    Result<(), ErrorAck>,
) {
    if r.si_control == 1 {
        if sizes_aligned(r.sirm, alignment) && sizes_sufficient(r.sirm) {
            (r, seq![Signal::StreamEnable], Ok(()))
        } else {
            (WatchedRegisters { si_control: 0, ..r }, seq![], invalid_si_state(scd_kind))
        }
    } else if r.si_control == 0 {
        (r, seq![Signal::StreamDisable], Ok(()))
    } else {
        (r, seq![], generic_error(scd_kind))
    }
}

pub open spec fn event_outcome(
    e: MemoryEvent,
    r: WatchedRegisters,
    now_ns: u64,
    alignment: u32,
    scd_kind: ScdKind,
) -> (WatchedRegisters, Seq<Signal>, Result<(), ErrorAck>) {
    match e {
        MemoryEvent::TimestampLatch => timestamp_latch_outcome(r, now_ns, scd_kind),
        MemoryEvent::SiControl => si_control_outcome(r, alignment, scd_kind),
    }
}

/// The first error of two acknowledgements in order, or `Ok`.
pub open spec fn first_error(a: Result<(), ErrorAck>, b: Result<(), ErrorAck>) -> Result<
    (),
    ErrorAck,
> {
    if a is Err {
        a
    } else {
        b
    }
}

/// Handling `events` in order: the registers after the last one, the signals
/// of all of them in order, and the first error.
pub open spec fn drain_outcome(
    events: Seq<MemoryEvent>,
    r: WatchedRegisters,
    now_ns: u64,
    alignment: u32,
    scd_kind: ScdKind,
) -> (WatchedRegisters, Seq<Signal>, Result<(), ErrorAck>)
    decreases events.len(),
{
    if events.len() == 0 {
        (r, seq![], Ok(()))
    } else {
        let (r1, s1, a1) = drain_outcome(events.drop_last(), r, now_ns, alignment, scd_kind);
        let (r2, s2, a2) = event_outcome(events.last(), r1, now_ns, alignment, scd_kind);
        (r2, s1 + s2, first_error(a1, a2))
    }
}

/// The acknowledgement of each event of `events`, each handled on the
/// registers that the events before it left.
pub open spec fn event_results(
    events: Seq<MemoryEvent>,
    r: WatchedRegisters,
    now_ns: u64,
    alignment: u32,
    scd_kind: ScdKind,
) -> Seq<Result<(), ErrorAck>>
    decreases events.len(),
{
    if events.len() == 0 {
        seq![]
    } else {
        let r1 = drain_outcome(events.drop_last(), r, now_ns, alignment, scd_kind).0;
        event_results(events.drop_last(), r, now_ns, alignment, scd_kind).push(
            event_outcome(events.last(), r1, now_ns, alignment, scd_kind).2,
        )
    }
}

/// Checks that each configurable size is a multiple of `alignment`.
pub fn verify_alignment(sirm: &SirmRegisters, alignment: u32, scd_kind: ScdKind) -> (r: Result<
    (),
    ErrorAck,
>)
    requires
        alignment > 0,
    ensures
        r == (if sizes_aligned(*sirm, alignment) {
            Ok(())
        } else {
            invalid_si_state(scd_kind)
        }),
{
    if sirm.maximum_leader_size % alignment != 0 || sirm.payload_transfer_size % alignment != 0
        || sirm.payload_final_transfer_size1 % alignment != 0
        || sirm.payload_final_transfer_size2 % alignment != 0 || sirm.maximum_trailer_size
        % alignment != 0 {
        Err(ErrorAck::new(AckStatus::InvalidSiState, scd_kind))
    } else {
        Ok(())
    }
}

/// Checks that leader, trailer and payload sizes cover what the device requires.
pub fn verify_size(sirm: &SirmRegisters, scd_kind: ScdKind) -> (r: Result<(), ErrorAck>)
    ensures
        r == (if sizes_sufficient(*sirm) {
            Ok(())
        } else {
            invalid_si_state(scd_kind)
        }),
{
    if sirm.maximum_leader_size < sirm.required_leader_size {
        return Err(ErrorAck::new(AckStatus::InvalidSiState, scd_kind));
    }
    if sirm.maximum_trailer_size < sirm.required_trailer_size {
        return Err(ErrorAck::new(AckStatus::InvalidSiState, scd_kind));
    }
    let pts = sirm.payload_transfer_size as u64;
    let ptc = sirm.payload_transfer_count as u64;
    assert(pts * ptc <= 0xffff_ffff * 0xffff_ffff) by (nonlinear_arith)
        requires
            pts <= 0xffff_ffff,
            ptc <= 0xffff_ffff,
    ;
    let specified = pts * ptc + sirm.payload_final_transfer_size1 as u64
        + sirm.payload_final_transfer_size2 as u64;
    if specified < sirm.required_payload_size {
        return Err(ErrorAck::new(AckStatus::InvalidSiState, scd_kind));
    }
    Ok(())
}

/// Handles a write to the timestamp latch: only `1` is accepted, and it
/// copies the device clock into the timestamp register and announces it.
pub fn handle_timestamp_latch(
    regs: &mut WatchedRegisters,
    now_ns: u64,
    scd_kind: ScdKind,
    signals: &mut Vec<Signal>,
) -> (r: Result<(), ErrorAck>)
    ensures
        (*final(regs), final(signals)@, r) == ({
            let (r1, s1, a1) = timestamp_latch_outcome(*old(regs), now_ns, scd_kind);
            (r1, old(signals)@ + s1, a1)
        }),
{
    if regs.timestamp_latch != 1 {
        assert(old(signals)@ + seq![] =~= old(signals)@);
        return Err(ErrorAck::new(AckStatus::GenericError, scd_kind));
    }
    regs.timestamp = now_ns;
    signals.push(Signal::UpdateTimestamp(now_ns));
    assert(final(signals)@ =~= old(signals)@ + seq![Signal::UpdateTimestamp(now_ns)]);
    Ok(())
}

/// Handles a write to the stream interface control register: `1` enables
/// streaming once the sizes are aligned and sufficient, else resets the
/// register to `0`; `0` disables streaming; any other value is an error.
pub fn handle_si_control(
    regs: &mut WatchedRegisters,
    alignment: u32,
    scd_kind: ScdKind,
    signals: &mut Vec<Signal>,
) -> (r: Result<(), ErrorAck>)
    requires
        alignment > 0,
    ensures
        (*final(regs), final(signals)@, r) == ({
            let (r1, s1, a1) = si_control_outcome(*old(regs), alignment, scd_kind);
            (r1, old(signals)@ + s1, a1)
        }),
{
    assert(old(signals)@ + seq![] =~= old(signals)@);
    if regs.si_control == 1 {
        let aligned = verify_alignment(&regs.sirm, alignment, scd_kind);
        let res = if aligned.is_err() {
            aligned
        } else {
            verify_size(&regs.sirm, scd_kind)
        };
        if res.is_err() {
            regs.si_control = 0;
            return res;
        }
        signals.push(Signal::StreamEnable);
        assert(final(signals)@ =~= old(signals)@ + seq![Signal::StreamEnable]);
        Ok(())
    } else if regs.si_control == 0 {
        signals.push(Signal::StreamDisable);
        assert(final(signals)@ =~= old(signals)@ + seq![Signal::StreamDisable]);
        Ok(())
    } else {
        Err(ErrorAck::new(AckStatus::GenericError, scd_kind))
    }
}

impl MemoryEvent {
    /// Handles one event on the watched registers.
    pub fn process(
        self,
        regs: &mut WatchedRegisters,
        now_ns: u64,
        alignment: u32,
        scd_kind: ScdKind,
        signals: &mut Vec<Signal>,
    ) -> (r: Result<(), ErrorAck>)
        requires
            alignment > 0,
        ensures
            (*final(regs), final(signals)@, r) == ({
                let (r1, s1, a1) = event_outcome(self, *old(regs), now_ns, alignment, scd_kind);
                (r1, old(signals)@ + s1, a1)
            }),
    {
        match self {
            MemoryEvent::TimestampLatch => handle_timestamp_latch(regs, now_ns, scd_kind, signals),
            MemoryEvent::SiControl => handle_si_control(regs, alignment, scd_kind, signals),
        }
    }
}

/// Handles every event of `events` in order. All of them take effect; the
/// result is the first error among them, or `Ok`.
pub fn handle_events(
    events: &[MemoryEvent],
    regs: &mut WatchedRegisters,
    now_ns: u64,
    alignment: u32,
    scd_kind: ScdKind,
    signals: &mut Vec<Signal>,
) -> (r: Result<(), ErrorAck>)
    requires
        alignment > 0,
    ensures
        (*final(regs), final(signals)@, r) == ({
            let (r1, s1, a1) = drain_outcome(events@, *old(regs), now_ns, alignment, scd_kind);
            (r1, old(signals)@ + s1, a1)
        }),
{
    let mut error_ack: Result<(), ErrorAck> = Ok(());
    let mut i: usize = 0;
    assert(events@.subrange(0, 0) =~= Seq::<MemoryEvent>::empty());
    assert(old(signals)@ + seq![] =~= old(signals)@);
    while i < events.len()
        invariant
            alignment > 0,
            i <= events@.len(),
            (*regs, signals@, error_ack) == ({
                let (r1, s1, a1) = drain_outcome(
                    events@.subrange(0, i as int),
                    *old(regs),
                    now_ns,
                    alignment,
                    scd_kind,
                );
                (r1, old(signals)@ + s1, a1)
            }),
        decreases events@.len() - i,
    {
        let ack = events[i].process(regs, now_ns, alignment, scd_kind, signals);
        if error_ack.is_ok() {
            error_ack = ack;
        }
        proof {
            let pre = events@.subrange(0, i + 1);
            assert(pre.drop_last() =~= events@.subrange(0, i as int));
            let s1 = drain_outcome(events@.subrange(0, i as int), *old(regs), now_ns, alignment, scd_kind).1;
            let s2 = event_outcome(events@[i as int], drain_outcome(events@.subrange(0, i as int), *old(regs), now_ns, alignment, scd_kind).0, now_ns, alignment, scd_kind).1;
            assert(old(signals)@ + s1 + s2 =~= old(signals)@ + (s1 + s2));
        }
        i = i + 1;
    }
    assert(events@.subrange(0, events@.len() as int) =~= events@);
    error_ack
}

/// Enabling streaming with a misaligned size leaves the control register at
/// `0`, answers `InvalidSiState` and sends no enable signal.
pub proof fn lemma_misaligned_enable_rejected(r: WatchedRegisters, alignment: u32, scd_kind: ScdKind)
    requires
        alignment > 0,
        r.si_control == 1,
        !sizes_aligned(r.sirm, alignment),
    ensures
        si_control_outcome(r, alignment, scd_kind).0.si_control == 0,
        si_control_outcome(r, alignment, scd_kind).2 == invalid_si_state(scd_kind),
        !si_control_outcome(r, alignment, scd_kind).1.contains(Signal::StreamEnable),
{
}

/// Draining handles the events in order, and answers with the error of the
/// first event that failed, or `Ok` when none did.
pub proof fn lemma_drain_first_error_wins(
    events: Seq<MemoryEvent>,
    r: WatchedRegisters,
    now_ns: u64,
    alignment: u32,
    scd_kind: ScdKind,
)
    ensures
        event_results(events, r, now_ns, alignment, scd_kind).len() == events.len(),
        (forall|k: int|
            0 <= k < events.len() ==> #[trigger] event_results(
                events,
                r,
                now_ns,
                alignment,
                scd_kind,
            )[k] is Ok) ==> drain_outcome(events, r, now_ns, alignment, scd_kind).2 is Ok,
        forall|k: int|
            0 <= k < events.len() && #[trigger] event_results(events, r, now_ns, alignment, scd_kind)[k] is Err
                && (forall|j: int|
                0 <= j < k ==> event_results(events, r, now_ns, alignment, scd_kind)[j] is Ok)
                ==> drain_outcome(events, r, now_ns, alignment, scd_kind).2 == event_results(
                events,
                r,
                now_ns,
                alignment,
                scd_kind,
            )[k],
    decreases events.len(),
{
    if events.len() > 0 {
        let pre = events.drop_last();
        lemma_drain_first_error_wins(pre, r, now_ns, alignment, scd_kind);
        let res = event_results(events, r, now_ns, alignment, scd_kind);
        let pres = event_results(pre, r, now_ns, alignment, scd_kind);
        assert(forall|j: int| 0 <= j < pre.len() ==> res[j] == pres[j]);
        if forall|k: int| 0 <= k < events.len() ==> #[trigger] res[k] is Ok {
            assert forall|k: int| 0 <= k < pre.len() implies #[trigger] pres[k] is Ok by {
                assert(res[k] is Ok);
            }
            assert(res[pre.len() as int] is Ok);
        }
    }
}

} // verus!
