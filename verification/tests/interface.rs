use redstone_fpga::interface::{
    BinaryIterator, DeviceStatus, Exchange, ExchangeStage, FPGACommand, SerialAction, SerialEvent,
};

#[test]
fn frames_of_the_plain_commands() {
    assert_eq!(FPGACommand::Reset.frame(), vec![0xC0, 0, 0, 0, 0, 0xA5]);
    assert_eq!(FPGACommand::Ping.frame(), vec![0xC1, 0, 0, 0, 0, 0xA5]);
    assert_eq!(FPGACommand::GetOutupts.frame(), vec![0xC2, 0, 0, 0, 0, 0xA5]);
    assert_eq!(FPGACommand::Capture.frame(), vec![0xC3, 0, 0, 0, 0, 0xA5]);
    assert_eq!(FPGACommand::DebugLED.frame(), vec![0xC7, 0, 0, 0, 0, 0xA5]);
    assert_eq!(FPGACommand::FailAck.frame(), vec![0xC8, 0, 0, 0, 0, 0xA5]);
}

#[test]
fn frames_with_payload() {
    assert_eq!(FPGACommand::SetInputs(0x123456, 1, 0x0F).frame(), vec![0xC4, 0x12, 0x34, 0x56, 0x8F, 0xA5]);
    assert_eq!(FPGACommand::SetInputs(0xFF000001, 0, 0xF3).frame(), vec![0xC4, 0x00, 0x00, 0x01, 0x03, 0xA5]);
    assert_eq!(FPGACommand::SetInputs(0, 0, 1).frame(), vec![0xC4, 0, 0, 0, 1, 0xA5]);
    assert_eq!(FPGACommand::SetRTPS(10).frame(), vec![0xC5, 0, 0, 0, 10, 0xA5]);
    assert_eq!(FPGACommand::SetRTPS(0x01020304).frame(), vec![0xC5, 1, 2, 3, 4, 0xA5]);
    assert_eq!(FPGACommand::LoadROM(0xABCDEF, 0x7E).frame(), vec![0xC6, 0xAB, 0xCD, 0xEF, 0x7E, 0xA5]);
}

fn run(exchange: &mut Exchange, events: Vec<SerialEvent>) -> Vec<SerialAction> {
    let mut actions = vec![exchange.action()];
    for event in events {
        exchange.advance(event);
        actions.push(exchange.action());
    }
    actions
}

#[test]
fn ping_succeeds_on_its_echo() {
    let mut exchange = Exchange::begin(FPGACommand::Ping, 3);
    let actions = run(
        &mut exchange,
        vec![
            SerialEvent::Cleared(true),
            SerialEvent::Written(true),
            SerialEvent::Received(Some(vec![0xC1, 0, 0, 0, 0, 0xA5])),
        ],
    );
    assert_eq!(
        actions,
        vec![
            SerialAction::ClearInput,
            SerialAction::Write(vec![0xC1, 0, 0, 0, 0, 0xA5]),
            SerialAction::Read(6),
            SerialAction::Finish(true),
        ]
    );
    assert!(exchange.is_finished());
}

#[test]
fn serial_echo_mismatch() {
    let mut exchange = Exchange::begin(FPGACommand::Ping, 3);
    let actions = run(
        &mut exchange,
        vec![
            SerialEvent::Cleared(true),
            SerialEvent::Written(true),
            SerialEvent::Received(Some(vec![0xC1, 0, 0, 0x01, 0, 0xA5])),
        ],
    );
    assert_eq!(actions[3], SerialAction::Finish(false));
    assert_eq!(exchange.stage, ExchangeStage::Failed);
    assert!(exchange.is_finished());
    // nothing is read after the failure, whatever arrives
    exchange.advance(SerialEvent::Received(Some(vec![1, 2, 3])));
    assert_eq!(exchange.action(), SerialAction::Finish(false));
    assert!(exchange.outputs.is_empty());
}

#[test]
fn echo_mismatch_of_get_outputs_reads_no_data() {
    let mut exchange = Exchange::begin(FPGACommand::GetOutupts, 2);
    let actions = run(
        &mut exchange,
        vec![
            SerialEvent::Cleared(false),
            SerialEvent::Written(false),
            SerialEvent::Received(Some(vec![0xC2, 0, 0, 0, 0, 0xA4])),
        ],
    );
    assert_eq!(actions[3], SerialAction::Finish(false));
}

#[test]
fn get_outputs_reads_the_output_bytes() {
    let mut exchange = Exchange::begin(FPGACommand::GetOutupts, 2);
    let actions = run(
        &mut exchange,
        vec![
            SerialEvent::Cleared(true),
            SerialEvent::Written(true),
            SerialEvent::Received(Some(vec![0xC2, 0, 0, 0, 0, 0xA5])),
            SerialEvent::Received(Some(vec![0x53, 0x01])),
        ],
    );
    assert_eq!(actions[3], SerialAction::Read(2));
    assert_eq!(actions[4], SerialAction::Finish(true));
    assert_eq!(exchange.outputs, vec![0x53, 0x01]);
}

#[test]
fn timeouts_fail_the_exchange() {
    let mut exchange = Exchange::begin(FPGACommand::Capture, 0);
    let actions = run(
        &mut exchange,
        vec![SerialEvent::Cleared(true), SerialEvent::Written(true), SerialEvent::Received(None)],
    );
    assert_eq!(actions[3], SerialAction::Finish(false));
    let mut exchange = Exchange::begin(FPGACommand::GetOutupts, 2);
    let actions = run(
        &mut exchange,
        vec![
            SerialEvent::Cleared(true),
            SerialEvent::Written(true),
            SerialEvent::Received(Some(vec![0xC2, 0, 0, 0, 0, 0xA5])),
            SerialEvent::Received(None),
        ],
    );
    assert_eq!(actions[4], SerialAction::Finish(false));
    let mut exchange = Exchange::begin(FPGACommand::GetOutupts, 2);
    let actions = run(
        &mut exchange,
        vec![
            SerialEvent::Cleared(true),
            SerialEvent::Written(true),
            SerialEvent::Received(Some(vec![0xC2, 0, 0, 0, 0, 0xA5])),
            SerialEvent::Received(Some(vec![0x53])),
        ],
    );
    assert_eq!(actions[4], SerialAction::Finish(false));
    assert!(exchange.outputs.is_empty());
}

#[test]
fn binary_iterator_takes_bits_lowest_first() {
    let mut bits = BinaryIterator::new(vec![0b1010011, 0b00000001]);
    assert_eq!(bits.next(1), Some(1));
    assert_eq!(bits.next(1), Some(1));
    assert_eq!(bits.next(1), Some(0));
    assert_eq!(bits.next(4), Some(0b1010));
    assert_eq!(bits.index(), 7);
    // two bits across the byte boundary
    assert_eq!(bits.next(2), Some(0b10));
    assert_eq!(bits.next(0), Some(0));
    assert_eq!(bits.next(8), None);
    assert_eq!(bits.index(), 17);
    assert_eq!(bits.next(1), None);
}

#[test]
fn binary_iterator_whole_bytes() {
    let mut bits = BinaryIterator::new(vec![0xA7, 0xFF]);
    assert_eq!(bits.next(8), Some(0xA7));
    assert_eq!(bits.next(8), Some(0xFF));
    assert_eq!(bits.next(1), None);
    let mut empty = BinaryIterator::new(Vec::new());
    assert_eq!(empty.next(1), None);
    assert_eq!(empty.index(), 1);
}

#[test]
fn device_status_labels() {
    assert_eq!(DeviceStatus::Inactive.to_str(), "&cInactive");
    assert_eq!(DeviceStatus::Programming.to_str(), "&9Programming");
    assert_eq!(DeviceStatus::Connected.to_str(), "&aConnected");
    assert_eq!(DeviceStatus::Disconnected.to_str(), "&cDisconnected");
    assert_eq!(DeviceStatus::Failed.to_str(), "&cStopped");
    assert_eq!(DeviceStatus::default(), DeviceStatus::Inactive);
}
