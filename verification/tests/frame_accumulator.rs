use dronecan::can_id::CanId;
use dronecan::dronecan_frame::DroneCanFrame;
use dronecan::frame_accumulator::{ReceptionError, ReceptionManager};

fn frame(tail: u8) -> DroneCanFrame {
    DroneCanFrame::new(CanId::Extended(0x18FF_0001), &[1, 2, 3, 4, 5, 6, 7, tail]).unwrap()
}

#[test]
fn multi_frame_transfer_completes() {
    let mut m = ReceptionManager::new();
    let key = (1, 0xFF00, 5);
    assert_eq!(m.on_frame(key, frame(0x80 | 5), 10), Ok(()));
    assert_eq!(m.on_frame(key, frame(0x20 | 5), 11), Ok(()));
    assert_eq!(m.on_frame(key, frame(0x40 | 5), 12), Ok(()));
    // the transfer is complete: a middle frame for the same key is now a wrong start
    assert_eq!(m.on_frame(key, frame(0x20 | 5), 13), Err(ReceptionError::WrongStartFrame));
}

#[test]
fn first_frame_must_start_the_transfer() {
    let mut m = ReceptionManager::new();
    assert_eq!(m.on_frame((1, 1, 1), frame(0x00), 0), Err(ReceptionError::WrongStartFrame));
    assert_eq!(m.on_frame((1, 1, 1), frame(0x40), 0), Err(ReceptionError::WrongStartFrame));
    // the refused transfer stays registered but empty; a start frame is then accepted
    assert_eq!(m.on_frame((1, 1, 1), frame(0x80), 0), Ok(()));
}

#[test]
fn repeated_toggle_is_refused() {
    let mut m = ReceptionManager::new();
    let key = (2, 3, 4);
    assert_eq!(m.on_frame(key, frame(0x80), 0), Ok(()));
    assert_eq!(m.on_frame(key, frame(0x00), 0), Err(ReceptionError::ToggleBitError));
    assert_eq!(m.on_frame(key, frame(0x20), 0), Ok(()));
    assert_eq!(m.on_frame(key, frame(0x20), 0), Err(ReceptionError::ToggleBitError));
}

#[test]
fn single_frame_transfer_leaves_nothing_pending() {
    let mut m = ReceptionManager::new();
    for k in 0..40u8 {
        assert_eq!(m.on_frame((k, 0, 0), frame(0xC0), 0), Ok(()));
    }
}

#[test]
fn table_full_after_sixteen_transfers() {
    let mut m = ReceptionManager::new();
    for k in 0..16u8 {
        assert_eq!(m.on_frame((k, 0, 0), frame(0x80), 0), Ok(()));
    }
    assert_eq!(m.on_frame((16, 0, 0), frame(0x80), 0), Err(ReceptionError::TableFull));
    // an existing transfer still accepts frames
    assert_eq!(m.on_frame((3, 0, 0), frame(0x20), 0), Ok(()));
    // completing one frees a place
    assert_eq!(m.on_frame((3, 0, 0), frame(0x40), 0), Ok(()));
    assert_eq!(m.on_frame((16, 0, 0), frame(0x80), 0), Ok(()));
}

#[test]
fn transfer_longer_than_sixteen_frames_is_refused() {
    let mut m = ReceptionManager::new();
    let key = (9, 9, 9);
    assert_eq!(m.on_frame(key, frame(0x80), 0), Ok(()));
    for i in 1..16u8 {
        let toggle = if i % 2 == 1 { 0x20 } else { 0x00 };
        assert_eq!(m.on_frame(key, frame(toggle), 0), Ok(()));
    }
    assert_eq!(m.on_frame(key, frame(0x00), 0), Err(ReceptionError::MessageTooLarge));
    assert_eq!(m.on_frame(key, frame(0x40), 0), Err(ReceptionError::MessageTooLarge));
}

#[test]
fn short_end_frame_completes_transfer() {
    let mut m = ReceptionManager::new();
    let key = (4, 4, 4);
    let start = DroneCanFrame::new(CanId::Extended(0x18FF_0001), &[1, 2, 3, 4, 5, 6, 7, 0x80]).unwrap();
    let end = DroneCanFrame::new(CanId::Extended(0x18FF_0001), &[8, 9, 0x60]).unwrap();
    assert_eq!(m.on_frame(key, start, 0), Ok(()));
    assert_eq!(m.on_frame(key, end, 0), Ok(()));
    // the transfer is complete
    assert_eq!(m.on_frame(key, frame(0x20), 0), Err(ReceptionError::WrongStartFrame));
}
