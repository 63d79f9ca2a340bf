use tinymesh_cc_tool::device_config_parser::MkDeviceConfig;
use tinymesh_cc_tool::framer::LineReader;
use tinymesh_cc_tool::mk_module_description::MkDeviceCell;
use tinymesh_cc_tool::mk_module_description::MkModuleDescription;
use tinymesh_cc_tool::tinymesh_comm::analog_request_plan;
use tinymesh_cc_tool::tinymesh_comm::config_request_plan;
use tinymesh_cc_tool::tinymesh_comm::extract_send_recv_seq;
use tinymesh_cc_tool::tinymesh_comm::factory_reset_plan;
use tinymesh_cc_tool::tinymesh_comm::get_bytes_to_send_for_config_change;
use tinymesh_cc_tool::tinymesh_comm::mode_sequence_plan;
use tinymesh_cc_tool::tinymesh_comm::rssi_request_plan;
use tinymesh_cc_tool::tinymesh_comm::rssi_tenths_dbm;
use tinymesh_cc_tool::tinymesh_comm::set_config_plan;
use tinymesh_cc_tool::tinymesh_comm::sweep_range;
use tinymesh_cc_tool::tinymesh_comm::switch_channel_plan;
use tinymesh_cc_tool::tinymesh_comm::temperature_celsius;
use tinymesh_cc_tool::tinymesh_comm::voltage_millivolts;
use tinymesh_cc_tool::tinymesh_comm::CommError;
use tinymesh_cc_tool::tinymesh_comm::DeviceSession;
use tinymesh_cc_tool::tinymesh_comm::Expect;
use tinymesh_cc_tool::tinymesh_comm::ExchangeRunner;
use tinymesh_cc_tool::tinymesh_comm::PollAction;
use tinymesh_cc_tool::tinymesh_comm::PollTask;
use tinymesh_cc_tool::tinymesh_comm::ReadMode;
use tinymesh_cc_tool::tinymesh_comm::RssiSample;
use tinymesh_cc_tool::tinymesh_comm::RssiSweep;
use tinymesh_cc_tool::tinymesh_comm::RunnerAction;
use tinymesh_cc_tool::tinymesh_comm::SweepAction;
use tinymesh_cc_tool::tinymesh_comm::TelemetryKind;

fn cell(address: usize, value: u8) -> MkDeviceCell {
    let mut c = MkDeviceCell::default();
    c.address = address;
    c.current_value = value;
    c
}

fn config_with_values(values: &[u8]) -> MkDeviceConfig {
    MkDeviceConfig {
        model: String::from("RF TM4070"),
        hw_version: String::from("1.00"),
        firmware_version: String::from("1.53"),
        cells: values.iter().enumerate().map(|(i, v)| cell(i, *v)).collect(),
        test_modes: Vec::new(),
        quick_modes: Vec::new(),
    }
}

#[test]
fn test_write_diff_pairs_and_sentinel() {
    let cached = config_with_values(&[10, 20, 30]);
    let desired = vec![cell(0, 10), cell(1, 99), cell(2, 31)];
    let bytes = get_bytes_to_send_for_config_change(&cached, &desired);
    assert_eq!(bytes, vec![1, 99, 2, 31, 0xff]);
}

#[test]
fn test_write_diff_empty_when_nothing_changed() {
    let cached = config_with_values(&[10, 20, 30]);
    let desired = vec![cell(0, 10), cell(1, 20), cell(2, 30)];
    let bytes = get_bytes_to_send_for_config_change(&cached, &desired);
    assert!(bytes.is_empty());
}

#[test]
fn test_set_config_with_empty_diff_fails_without_any_exchange() {
    let cached = config_with_values(&[10, 20]);
    let desired = vec![cell(0, 10), cell(1, 20)];
    let r = set_config_plan(&cached, &desired);
    assert_eq!(r.unwrap_err(), CommError::NoChangeRequested);
}

#[test]
fn test_set_config_plan_is_a_two_phase_handshake() {
    let cached = config_with_values(&[10]);
    let desired = vec![cell(0, 11)];
    let plan = set_config_plan(&cached, &desired).unwrap();
    assert_eq!(plan.len(), 2);
    assert_eq!(plan[0].request, vec![b'M']);
    assert!(matches!(plan[0].expect, Expect::AckEmpty));
    assert_eq!(plan[1].request, vec![0, 11, 0xff]);
    assert!(matches!(plan[1].expect, Expect::AckEmpty));
}

#[test]
fn test_simple_plans() {
    let p = config_request_plan();
    assert_eq!(p[0].request, vec![0x30]);
    assert!(matches!(p[0].expect, Expect::AnyReply));
    let p = factory_reset_plan();
    assert_eq!(p[0].request, vec![b'@', b'T', b'M']);
    assert!(matches!(p[0].expect, Expect::AckEmpty));
    let p = rssi_request_plan();
    assert_eq!(p[0].request, vec![b'S']);
    assert!(matches!(p[0].expect, Expect::ScalarLen));
    let p = analog_request_plan();
    assert_eq!(p[0].request, vec![b'A']);
    assert!(matches!(p[0].expect, Expect::VectorLen));
    let p = switch_channel_plan(9);
    assert_eq!(p.len(), 2);
    assert_eq!(p[0].request, vec![b'C']);
    assert_eq!(p[1].request, vec![9]);
}

#[test]
fn test_runner_runs_a_config_write_to_success() {
    let cached = config_with_values(&[10]);
    let desired = vec![cell(0, 11)];
    let plan = set_config_plan(&cached, &desired).unwrap();
    let mut runner = ExchangeRunner::new(plan);
    // Exchange one: clear, send 'M', empty ack.
    assert!(matches!(runner.next_action(), RunnerAction::Clear));
    runner.on_clear_result(true);
    match runner.next_action() {
        RunnerAction::Send(v) => assert_eq!(v, vec![b'M']),
        other => panic!("unexpected action {:?}", other),
    }
    runner.on_send_result(true);
    assert!(matches!(runner.next_action(), RunnerAction::ReadTerminated));
    runner.on_reply(Vec::new());
    // Exchange two: clear (result ignored), send the diff, empty ack.
    assert!(matches!(runner.next_action(), RunnerAction::Clear));
    runner.on_clear_result(false);
    match runner.next_action() {
        RunnerAction::Send(v) => assert_eq!(v, vec![0, 11, 0xff]),
        other => panic!("unexpected action {:?}", other),
    }
    runner.on_send_result(true);
    assert!(matches!(runner.next_action(), RunnerAction::ReadTerminated));
    runner.on_reply(Vec::new());
    assert!(matches!(runner.next_action(), RunnerAction::Finished));
    assert!(runner.outcome().is_ok());
}

#[test]
fn test_runner_aborts_on_non_empty_ack() {
    let plan = factory_reset_plan();
    let mut runner = ExchangeRunner::new(plan);
    assert!(matches!(runner.next_action(), RunnerAction::Clear));
    runner.on_clear_result(true);
    match runner.next_action() {
        RunnerAction::Send(_) => (),
        other => panic!("unexpected action {:?}", other),
    }
    runner.on_send_result(true);
    runner.on_reply(vec![b'?']);
    assert!(matches!(runner.next_action(), RunnerAction::Finished));
    assert_eq!(runner.outcome().unwrap_err(), CommError::ProtocolNack);
}

#[test]
fn test_runner_aborts_on_wrong_scalar_length() {
    let mut runner = ExchangeRunner::new(rssi_request_plan());
    runner.on_clear_result(true);
    runner.on_send_result(true);
    runner.on_reply(vec![1, 2]);
    assert_eq!(runner.outcome().unwrap_err(), CommError::MalformedResponse);
}

#[test]
fn test_runner_aborts_on_send_failure_and_timeout() {
    let mut runner = ExchangeRunner::new(rssi_request_plan());
    runner.on_clear_result(true);
    runner.on_send_result(false);
    assert_eq!(runner.outcome().unwrap_err(), CommError::TransportIo);

    let mut runner = ExchangeRunner::new(rssi_request_plan());
    runner.on_clear_result(true);
    runner.on_send_result(true);
    runner.on_reply_timeout();
    assert_eq!(runner.outcome().unwrap_err(), CommError::Timeout);
}

#[test]
fn test_runner_keeps_the_reply_for_decoding() {
    let mut runner = ExchangeRunner::new(config_request_plan());
    runner.on_clear_result(true);
    runner.on_send_result(true);
    runner.on_reply(vec![1, 2, 3]);
    assert!(runner.outcome().is_ok());
    assert_eq!(runner.last_reply().unwrap(), &vec![1, 2, 3]);
}

#[test]
fn test_line_reader_strips_terminator() {
    let mut lr = LineReader::new(3);
    assert!(!lr.on_byte(b'O'));
    assert!(!lr.on_byte(b'K'));
    assert!(lr.on_byte(0x3e));
    assert_eq!(lr.finish().unwrap(), vec![b'O', b'K']);
}

#[test]
fn test_line_reader_times_out_after_budget() {
    let mut lr = LineReader::new(2);
    assert!(!lr.on_read_error());
    assert!(!lr.on_read_error());
    assert!(lr.on_read_error());
    assert_eq!(lr.finish().unwrap_err(), CommError::Timeout);
}

#[test]
fn test_extract_send_recv_seq() {
    let (send, recv) = extract_send_recv_seq("aG #>").unwrap();
    assert_eq!(send, vec![b'G']);
    assert_eq!(recv, vec![b'>']);
    let (send, recv) = extract_send_recv_seq("  aaGO  ##OK  ").unwrap();
    assert_eq!(send, vec![b'G', b'O']);
    assert_eq!(recv, vec![b'O', b'K']);
    assert!(extract_send_recv_seq("only_one").is_none());
    assert!(extract_send_recv_seq("one two three").is_none());
}

#[test]
fn test_mode_sequence_plan_modes() {
    // A terminator-delimited expectation: read to the terminator and
    // require the reply without it.
    let plan = mode_sequence_plan("aG #>").unwrap();
    assert_eq!(plan[0].request, vec![b'G']);
    assert!(matches!(plan[0].read, ReadMode::UntilTerminator));
    match &plan[0].expect {
        Expect::ExactBytes(b) => assert!(b.is_empty()),
        other => panic!("unexpected expectation {:?}", other),
    }
    // An exact-echo expectation: drain and compare byte for byte.
    let plan = mode_sequence_plan("aGO #OK").unwrap();
    assert!(matches!(plan[0].read, ReadMode::DrainAvailable));
    match &plan[0].expect {
        Expect::ExactBytes(b) => assert_eq!(b, &vec![b'O', b'K']),
        other => panic!("unexpected expectation {:?}", other),
    }
    assert!(mode_sequence_plan("nonsense").is_none());
}

#[test]
fn test_telemetry_transforms() {
    // Raw 200 reports -100.0 dBm.
    assert_eq!(rssi_tenths_dbm(200), -1000);
    assert_eq!(rssi_tenths_dbm(200) as f64 / 10.0, -100.0);
    // Raw 148 reports 20 degrees Celsius.
    assert_eq!(temperature_celsius(148), 20);
    // Raw 100 reports 3.00 V.
    assert_eq!(voltage_millivolts(100), 3000);
    assert_eq!(voltage_millivolts(100) as f64 / 1000.0, 3.00);
}

#[test]
fn test_sweep_range_from_named_cell() {
    let mut config = config_with_values(&[0, 0]);
    config.cells[1].name = String::from("RF Channel");
    config.cells[1].min_value = 2;
    config.cells[1].max_value = 7;
    assert_eq!(sweep_range(&config), (2, 7));
    let plain = config_with_values(&[0, 0]);
    assert_eq!(sweep_range(&plain), (0, 0));
}

#[test]
fn test_sweep_emits_and_wraps() {
    let mut sweep = RssiSweep::new(1, 2);
    assert!(matches!(sweep.next_action(), SweepAction::CheckFlag));
    sweep.on_flag(true);
    assert!(matches!(sweep.next_action(), SweepAction::RunChannel(1)));
    let emitted = sweep.on_channel_step(Some(200));
    assert_eq!(emitted, Some(RssiSample { raw: 200, channel: 1 }));
    sweep.on_flag(true);
    assert!(matches!(sweep.next_action(), SweepAction::RunChannel(2)));
    // A failed channel step emits nothing and moves on.
    assert_eq!(sweep.on_channel_step(None), None);
    sweep.on_flag(true);
    // The range wraps back to its bottom.
    assert!(matches!(sweep.next_action(), SweepAction::RunChannel(1)));
}

#[test]
fn test_sweep_cancellation_stops_before_the_next_channel() {
    let mut sweep = RssiSweep::new(0, 255);
    sweep.on_flag(true);
    sweep.on_channel_step(Some(1));
    // The flag is observed false at the next check: no further channel
    // step is issued, ever.
    sweep.on_flag(false);
    assert!(matches!(sweep.next_action(), SweepAction::Stopped));
    assert!(matches!(sweep.next_action(), SweepAction::Stopped));
}

#[test]
fn test_poll_task_stops_on_cleared_flag() {
    let mut poll = PollTask::new();
    assert!(matches!(poll.on_tick(true), PollAction::Poll));
    assert!(matches!(poll.on_tick(true), PollAction::Poll));
    assert!(matches!(poll.on_tick(false), PollAction::Stopped));
    // Once stopped it stays stopped, whatever the flag reads.
    assert!(matches!(poll.on_tick(true), PollAction::Stopped));
}

#[test]
fn test_session_refuses_operations_while_disconnected() {
    let session = DeviceSession::new();
    assert_eq!(session.begin_config_fetch().unwrap_err(), CommError::NotConnected);
    assert_eq!(session.begin_config_write(&[]).unwrap_err(), CommError::NotConnected);
}

#[test]
fn test_session_gates_every_operation_on_connection() {
    let session = DeviceSession::new();
    assert_eq!(
        session.begin_telemetry(TelemetryKind::Rssi).unwrap_err(),
        CommError::NotConnected
    );
    assert_eq!(session.begin_factory_reset().unwrap_err(), CommError::NotConnected);
    assert_eq!(session.begin_channel_switch(3).unwrap_err(), CommError::NotConnected);
    assert_eq!(session.begin_mode_sequence("aG #>").unwrap_err(), CommError::NotConnected);
}

#[test]
fn test_session_telemetry_plans() {
    let mut session = DeviceSession::new();
    session.on_connect();
    let p = session.begin_telemetry(TelemetryKind::Temperature).unwrap();
    assert_eq!(p[0].request, vec![b'U']);
    assert!(matches!(p[0].expect, Expect::ScalarLen));
    let p = session.begin_telemetry(TelemetryKind::Analog).unwrap();
    assert_eq!(p[0].request, vec![b'A']);
    assert!(matches!(p[0].expect, Expect::VectorLen));
    let p = session.begin_channel_switch(4).unwrap();
    assert_eq!(p[1].request, vec![4]);
    // A malformed sequence string is a description error, not a plan.
    assert_eq!(
        session.begin_mode_sequence("justone").unwrap_err(),
        CommError::DescriptionParseError
    );
}

#[test]
fn test_session_write_needs_a_cached_configuration() {
    let mut session = DeviceSession::new();
    session.on_connect();
    assert_eq!(session.begin_config_write(&[]).unwrap_err(), CommError::NoChangeRequested);
}

#[test]
fn test_session_fetch_write_cycle() {
    let mut session = DeviceSession::new();
    session.on_connect();
    let plan = session.begin_config_fetch().unwrap();
    assert_eq!(plan[0].request, vec![0x30]);
    // The dump the device would answer with: two cell bytes, then the
    // identity header at offset 60.
    let mut dump = vec![0u8; 60];
    dump[0] = 10;
    dump[1] = 20;
    dump.extend_from_slice(b"RF TM4070,1.00,1.53");
    dump.push(0xff);
    let description = MkModuleDescription::new("[M 0x01 NAME]\nPower\n").unwrap();
    let config = session.finish_config_fetch(&dump, description).unwrap();
    assert_eq!(config.model, "RF TM4070");
    assert_eq!(config.cells[1].name, "Power");
    // An unchanged write is refused; a changed one yields the handshake.
    let unchanged = config.cells.iter().map(|c| c.clone()).collect::<Vec<_>>();
    assert_eq!(session.begin_config_write(&unchanged).unwrap_err(), CommError::NoChangeRequested);
    let mut desired = unchanged;
    desired[1].current_value = 99;
    let plan = session.begin_config_write(&desired).unwrap();
    assert_eq!(plan.len(), 2);
    assert_eq!(plan[1].request, vec![1, 99, 0xff]);
    // A malformed dump leaves the cache alone.
    let bad = session.finish_config_fetch(&[0u8; 10], MkModuleDescription::new("").unwrap());
    assert_eq!(bad.unwrap_err(), CommError::MalformedResponse);
    assert!(session.cached_config.is_some());
    session.reset();
    assert!(!session.connected);
    assert!(session.cached_config.is_none());
}

#[test]
fn test_description_parse_feeds_the_sweep() {
    let text = "[M 0x00 NAME]\nRF Channel\n[M 0x00 MIN_MAX]\n1 3\n";
    let md = MkModuleDescription::new(text).unwrap();
    let config = MkDeviceConfig {
        model: String::from("RF TM4070"),
        hw_version: String::from("1.00"),
        firmware_version: String::from("1.53"),
        cells: md.cells,
        test_modes: Vec::new(),
        quick_modes: Vec::new(),
    };
    assert_eq!(sweep_range(&config), (1, 3));
}
