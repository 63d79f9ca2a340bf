use tinymesh_cc_tool::device_calibration_parser;
use tinymesh_cc_tool::device_config_parser::get_device_information;
use tinymesh_cc_tool::device_config_parser::parse_device_config;
use tinymesh_cc_tool::device_config_parser::read_unlocked_cells;
use tinymesh_cc_tool::mk_module_description::MkModuleDescription;

/// A dump whose header region carries the given identity text and whose
/// first bytes are the given cell values.
fn make_dump(cells: &[u8], identity: &str) -> Vec<u8> {
    let mut data = vec![0u8; 60];
    for (i, b) in cells.iter().enumerate() {
        data[i] = *b;
    }
    data.extend_from_slice(identity.as_bytes());
    data.push(0xff);
    data
}

#[test]
fn test_device_information() {
    let config_response = make_dump(&[], "RF TM4070,1.00,1.53");
    let (model, hw_version, firmware_version) = get_device_information(&config_response).unwrap();
    assert_eq!(model, "RF TM4070");
    assert_eq!(hw_version, "1.00");
    assert_eq!(firmware_version, "1.53");
}

#[test]
fn test_device_information_firmware_truncated_to_four_bytes() {
    let data = make_dump(&[], "M,HW,1.53.99");
    let (model, hw, fw) = get_device_information(&data).unwrap();
    assert_eq!(model, "M");
    assert_eq!(hw, "HW");
    assert_eq!(fw, "1.53");
}

#[test]
fn test_device_information_short_firmware_ends_at_non_ascii() {
    let data = make_dump(&[], "M,HW,9");
    let (_, _, fw) = get_device_information(&data).unwrap();
    assert_eq!(fw, "9");
}

#[test]
fn test_device_information_errors() {
    // Too short to reach the header offset.
    assert!(get_device_information(&[0u8; 60]).is_err());
    // No comma after the offset.
    assert!(get_device_information(&make_dump(&[], "NOCOMMA")).is_err());
    // Only one comma.
    assert!(get_device_information(&make_dump(&[], "M,HW")).is_err());
    // Commas but no non-ASCII byte ends the firmware.
    let mut data = vec![0u8; 60];
    data.extend_from_slice(b"M,HW,1.00");
    assert!(get_device_information(&data).is_err());
}

#[test]
fn test_calibration_information_matches_config_decoder() {
    let data = make_dump(&[], "RF TM4070,1.00,1.53");
    let (model, hw, fw) = device_calibration_parser::get_device_information(&data).unwrap();
    assert_eq!(model, "RF TM4070");
    assert_eq!(hw, "1.00");
    assert_eq!(fw, "1.53");
}

#[test]
fn test_read_unlocked_cells_skips_locked_addresses() {
    let text = "[LOCKED_CELLS]\n1\n[M 0x00 NAME]\nZero\n[M 0x02 NAME]\nTwo\n";
    let md = MkModuleDescription::new(text).unwrap();
    let data = [10u8, 20, 30];
    let cells = read_unlocked_cells(&data, &md);
    assert_eq!(cells.len(), 2);
    assert_eq!(cells[0].address, 0);
    assert_eq!(cells[0].current_value, 10);
    assert_eq!(cells[0].name, "Zero");
    assert_eq!(cells[1].address, 2);
    assert_eq!(cells[1].current_value, 30);
    assert_eq!(cells[1].name, "Two");
    // No cell carries the locked address.
    assert!(cells.iter().all(|c| c.address != 1));
}

#[test]
fn test_parse_device_config_whole_dump() {
    let text = "[TESTMODE NUMBER]\n1\n[TESTMODE 1 NAME]\nEcho\n[M 0x00 NAME]\nRF Channel\n";
    let md = MkModuleDescription::new(text).unwrap();
    let data = make_dump(&[42, 7], "RF TM4070,1.00,1.53");
    let config = parse_device_config(&data, md).unwrap();
    assert_eq!(config.model, "RF TM4070");
    assert_eq!(config.hw_version, "1.00");
    assert_eq!(config.firmware_version, "1.53");
    // One cell per buffer index, none locked here.
    assert_eq!(config.cells.len(), data.len());
    assert_eq!(config.cells[0].current_value, 42);
    assert_eq!(config.cells[0].name, "RF Channel");
    assert_eq!(config.cells[1].current_value, 7);
    assert_eq!(config.test_modes.len(), 1);
    assert_eq!(config.test_modes[0].name, "Echo");
}

#[test]
fn test_parse_device_config_rejects_bad_header() {
    let md = MkModuleDescription::new("").unwrap();
    assert!(parse_device_config(&[0u8; 10], md).is_err());
}

#[test]
fn test_parse_device_calib_whole_dump() {
    let text = "[C 0x00 NAME]\nGain\n[LOCKED_CELLS]\n1\n";
    let md = MkModuleDescription::new(text).unwrap();
    let data = make_dump(&[5, 6, 7], "RF TM4070,1.00,1.53");
    let calib = device_calibration_parser::parse_device_calib(&data, md).unwrap();
    assert_eq!(calib.model, "RF TM4070");
    assert_eq!(calib.calibration_cells[0].name, "Gain");
    assert_eq!(calib.calibration_cells[0].current_value, 5);
    assert!(calib.calibration_cells.iter().all(|c| c.address != 1));
}
