//! Binary decoding of a calibration dump into typed device calibration
//! data.
//!
//! A calibration dump shares the configuration dump's layout: the
//! identity header from offset 60 on, and one byte per cell address.
//! Only the template table differs: cells come from the description's
//! calibration table.

use vstd::prelude::*;

use crate::device_config_parser::spec_device_information;
use crate::device_config_parser::spec_read_unlocked;
use crate::mk_module_description::cells_view;
use crate::mk_module_description::modes_view;
use crate::mk_module_description::quick_modes_view;
use crate::mk_module_description::CellModel;
use crate::mk_module_description::MkDeviceCell;
use crate::mk_module_description::MkDeviceQuickMode;
use crate::mk_module_description::MkDeviceTestMode;
use crate::mk_module_description::MkModuleDescription;
use crate::mk_module_description::ModeModel;

verus! {

/// The decoded device calibration fetched from a device.
#[derive(Debug)]
pub struct MkDeviceCalib {
    pub model: String,
    pub hw_version: String,
    pub firmware_version: String,
    pub calibration_cells: Vec<MkDeviceCell>,
    pub test_modes: Vec<MkDeviceTestMode>,
    pub quick_modes: Vec<MkDeviceQuickMode>,
}

/// Mathematical model of a decoded calibration.
#[verifier::ext_equal]
pub struct CalibModel {
    pub model: Seq<char>,
    pub hw_version: Seq<char>,
    pub firmware_version: Seq<char>,
    pub calibration_cells: Seq<CellModel>,
    pub test_modes: Seq<ModeModel>,
    pub quick_modes: Seq<ModeModel>,
}

impl View for MkDeviceCalib {
    type V = CalibModel;

    open spec fn view(&self) -> CalibModel {
        CalibModel {
            model: self.model@,
            hw_version: self.hw_version@,
            firmware_version: self.firmware_version@,
            calibration_cells: cells_view(self.calibration_cells@),
            test_modes: modes_view(self.test_modes@),
            quick_modes: quick_modes_view(self.quick_modes@),
        }
    }
}

/// Extracts the model, hardware version and firmware version from a dump.
///
/// A calibration dump carries the identity at the same offset as a
/// configuration dump, so the decoder and its contract are shared.
pub fn get_device_information(data: &[u8]) -> (r: Result<(String, String, String), String>)
    ensures
        ({
            match spec_device_information(data@) {
                Some(t) => r matches Ok(v) && v.0@ == t.0 && v.1@ == t.1 && v.2@ == t.2,
                None => r is Err,
            }
        }),
{
    crate::device_config_parser::get_device_information(data)
}

/// Clones the calibration template of every unlocked buffer index,
/// overwriting its address with the index and its current value with the
/// byte there.
pub fn read_unlocked_cells(data: &[u8], module_description: &MkModuleDescription) -> (r: Vec<
    MkDeviceCell,
>)
    requires
        data@.len() <= module_description.calibration_cells@.len(),
    ensures
        cells_view(r@) == spec_read_unlocked(
            data@,
            cells_view(module_description.calibration_cells@),
            module_description.locked_cells@,
        ),
{
    let ghost cm = cells_view(module_description.calibration_cells@);
    let ghost locked = module_description.locked_cells@;
    let mut r: Vec<MkDeviceCell> = Vec::new();
    let n = data.len();
    let mut i: usize = 0;
    proof {
        assert(cells_view(r@) =~= Seq::<CellModel>::empty());
    }
    while i < n
        invariant
            i <= n,
            n == data@.len(),
            n <= module_description.calibration_cells@.len(),
            spec_read_unlocked(data@, cm, locked)
                == crate::device_config_parser::spec_unlocked_cells(
                data@,
                cm,
                locked,
                i as int,
                cells_view(r@),
            ),
        decreases n - i,
    {
        let ghost v0 = cells_view(r@);
        if !crate::device_config_parser::contains_usize(&module_description.locked_cells, i) {
            let mut cell = module_description.calibration_cells[i].clone();
            cell.address = i;
            cell.current_value = data[i];
            r.push(cell);
            proof {
                assert(cells_view(r@) =~~= v0.push(
                    CellModel { address: i as int, current_value: data@[i as int], ..cm[i as int] },
                ));
            }
        }
        i = i + 1;
    }
    r
}

/// Decodes a calibration dump against a module description.
///
/// Succeeds exactly when the identity header decodes and the buffer is no
/// longer than the description's calibration table; the cells are then
/// the unlocked subset, and the mode tables are carried over unchanged.
pub fn parse_device_calib(data: &[u8], module_description: MkModuleDescription) -> (r: Result<
    MkDeviceCalib,
    String,
>)
    ensures
        ({
            match r {
                Ok(cal) => {
                    &&& spec_device_information(data@) matches Some(t) && cal.model@ == t.0
                        && cal.hw_version@ == t.1 && cal.firmware_version@ == t.2
                    &&& data@.len() <= module_description.calibration_cells@.len()
                    &&& cells_view(cal.calibration_cells@) == spec_read_unlocked(
                        data@,
                        cells_view(module_description.calibration_cells@),
                        module_description.locked_cells@,
                    )
                    &&& modes_view(cal.test_modes@) == modes_view(module_description.testmodes@)
                    &&& quick_modes_view(cal.quick_modes@) == quick_modes_view(
                        module_description.quickmodes@,
                    )
                },
                Err(_) => spec_device_information(data@) is None || data@.len()
                    > module_description.calibration_cells@.len(),
            }
        }),
{
    let info = get_device_information(data);
    let (model, hw_version, firmware_version) = match info {
        Ok(t) => t,
        Err(e) => {
            return Err(e);
        },
    };
    if data.len() > module_description.calibration_cells.len() {
        return Err(String::from_str("Invalid data format. Cell data exceeds the cell table"));
    }
    let calibration_cells = read_unlocked_cells(data, &module_description);
    let test_modes = module_description.testmodes;
    let quick_modes = module_description.quickmodes;
    let result = MkDeviceCalib {
        model,
        hw_version,
        firmware_version,
        calibration_cells,
        test_modes,
        quick_modes,
    };
    Ok(result)
}

} // verus!
