use cameleon_genapi::memory_event::{
    handle_events, handle_si_control, handle_timestamp_latch, verify_alignment, verify_size,
    AckStatus, ErrorAck, MemoryEvent, ScdKind, Signal, SirmRegisters, WatchedRegisters,
};

fn sirm() -> SirmRegisters {
    SirmRegisters {
        maximum_leader_size: 1024,
        maximum_trailer_size: 1024,
        payload_transfer_size: 4096,
        payload_transfer_count: 10,
        payload_final_transfer_size1: 0,
        payload_final_transfer_size2: 0,
        required_leader_size: 64,
        required_trailer_size: 64,
        required_payload_size: 40960,
    }
}

fn regs() -> WatchedRegisters {
    WatchedRegisters { timestamp_latch: 0, timestamp: 0, si_control: 0, sirm: sirm() }
}

const ALIGNMENT: u32 = 4;

#[test]
fn timestamp_latch_copies_clock() {
    let mut r = regs();
    r.timestamp_latch = 1;
    let mut signals = Vec::new();
    let res = handle_events(&[MemoryEvent::TimestampLatch], &mut r, 123_000, ALIGNMENT, ScdKind::WriteMem, &mut signals);
    assert_eq!(res, Ok(()));
    assert_eq!(r.timestamp, 123_000);
    assert_eq!(signals, vec![Signal::UpdateTimestamp(123_000)]);
}

#[test]
fn timestamp_latch_rejects_other_values() {
    let mut r = regs();
    r.timestamp_latch = 2;
    let mut signals = Vec::new();
    let res = handle_events(&[MemoryEvent::TimestampLatch], &mut r, 123_000, ALIGNMENT, ScdKind::WriteMem, &mut signals);
    assert_eq!(res, Err(ErrorAck { status: AckStatus::GenericError, scd_kind: ScdKind::WriteMem }));
    assert!(signals.is_empty());
    assert_eq!(r.timestamp, 0);
}

#[test]
fn enable_with_valid_sizes() {
    let mut r = regs();
    r.si_control = 1;
    let mut signals = Vec::new();
    let res = handle_si_control(&mut r, ALIGNMENT, ScdKind::WriteMem, &mut signals);
    assert_eq!(res, Ok(()));
    assert_eq!(signals, vec![Signal::StreamEnable]);
    assert_eq!(r.si_control, 1);
}

#[test]
fn enable_with_misaligned_size() {
    let mut r = regs();
    r.si_control = 1;
    r.sirm.payload_transfer_size = 4097;
    let mut signals = Vec::new();
    let res = handle_si_control(&mut r, ALIGNMENT, ScdKind::WriteMem, &mut signals);
    assert_eq!(res, Err(ErrorAck { status: AckStatus::InvalidSiState, scd_kind: ScdKind::WriteMem }));
    assert_eq!(r.si_control, 0);
    assert!(!signals.contains(&Signal::StreamEnable));
}

#[test]
fn enable_with_short_payload() {
    let mut s = sirm();
    s.payload_transfer_count = 9;
    assert_eq!(verify_alignment(&s, ALIGNMENT, ScdKind::ReadMem), Ok(()));
    assert_eq!(
        verify_size(&s, ScdKind::ReadMem),
        Err(ErrorAck { status: AckStatus::InvalidSiState, scd_kind: ScdKind::ReadMem })
    );
    s.payload_final_transfer_size1 = 4096;
    assert_eq!(verify_size(&s, ScdKind::ReadMem), Ok(()));
    s.required_trailer_size = 2048;
    assert!(verify_size(&s, ScdKind::ReadMem).is_err());
}

#[test]
fn disable_and_bad_control_values() {
    let mut r = regs();
    let mut signals = Vec::new();
    assert_eq!(handle_si_control(&mut r, ALIGNMENT, ScdKind::WriteMem, &mut signals), Ok(()));
    assert_eq!(signals, vec![Signal::StreamDisable]);
    r.si_control = 5;
    let res = handle_si_control(&mut r, ALIGNMENT, ScdKind::WriteMem, &mut signals);
    assert_eq!(res, Err(ErrorAck { status: AckStatus::GenericError, scd_kind: ScdKind::WriteMem }));
    assert_eq!(signals.len(), 1);
}

#[test]
fn drain_runs_all_and_keeps_first_error() {
    let mut r = regs();
    r.timestamp_latch = 3;
    r.si_control = 1;
    r.sirm.maximum_leader_size = 1023;
    let mut signals = Vec::new();
    let events = [MemoryEvent::SiControl, MemoryEvent::TimestampLatch, MemoryEvent::SiControl];
    let res = handle_events(&events, &mut r, 1, ALIGNMENT, ScdKind::WriteMem, &mut signals);
    assert_eq!(res, Err(ErrorAck { status: AckStatus::InvalidSiState, scd_kind: ScdKind::WriteMem }));
    assert_eq!(r.si_control, 0);
    assert_eq!(signals, vec![Signal::StreamDisable]);
}

#[test]
fn drain_without_failure_is_ok() {
    let mut r = regs();
    r.timestamp_latch = 1;
    let mut signals = Vec::new();
    let events = [MemoryEvent::TimestampLatch, MemoryEvent::SiControl, MemoryEvent::TimestampLatch];
    let res = handle_events(&events, &mut r, 7, ALIGNMENT, ScdKind::WriteMem, &mut signals);
    assert_eq!(res, Ok(()));
    assert_eq!(
        signals,
        vec![Signal::UpdateTimestamp(7), Signal::StreamDisable, Signal::UpdateTimestamp(7)]
    );
}

#[test]
fn single_timestamp_handler() {
    let mut r = regs();
    r.timestamp_latch = 1;
    let mut signals = Vec::new();
    assert_eq!(handle_timestamp_latch(&mut r, 99, ScdKind::WriteMemStacked, &mut signals), Ok(()));
    assert_eq!(r.timestamp, 99);
}
