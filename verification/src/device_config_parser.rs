//! Binary decoding of a configuration dump into a typed device
//! configuration.
//!
//! A dump carries `"<model>,<hw_version>,<firmware_version...>"` in ASCII
//! from offset 60 on; apart from that header region, the buffer is a flat
//! array in which the byte at index `a` is the current value of the cell
//! at address `a`.

use vstd::prelude::*;

use crate::mk_module_description::cells_view;
use crate::mk_module_description::modes_view;
use crate::mk_module_description::quick_modes_view;
use crate::mk_module_description::CellModel;
use crate::mk_module_description::MkDeviceCell;
use crate::mk_module_description::MkDeviceQuickMode;
use crate::mk_module_description::MkDeviceTestMode;
use crate::mk_module_description::MkModuleDescription;
use crate::mk_module_description::ModeModel;
use crate::strutil::find_byte_from;
use crate::strutil::find_non_ascii_from;
use crate::strutil::first_non_ascii_from;
use crate::strutil::lemma_first_non_ascii_from_props;
use crate::strutil::lemma_first_non_ascii_from_unique;
use crate::strutil::lemma_seq_index_of_from_props;
use crate::strutil::lemma_seq_index_of_from_unique;
use crate::strutil::push_char;
use crate::strutil::seq_index_of_from;

verus! {

/// The decoded device configuration fetched from a device.
#[derive(Debug)]
pub struct MkDeviceConfig {
    pub model: String,
    pub hw_version: String,
    pub firmware_version: String,
    pub cells: Vec<MkDeviceCell>,
    pub test_modes: Vec<MkDeviceTestMode>,
    pub quick_modes: Vec<MkDeviceQuickMode>,
}

/// Mathematical model of a decoded configuration.
#[verifier::ext_equal]
pub struct ConfigModel {
    pub model: Seq<char>,
    pub hw_version: Seq<char>,
    pub firmware_version: Seq<char>,
    pub cells: Seq<CellModel>,
    pub test_modes: Seq<ModeModel>,
    pub quick_modes: Seq<ModeModel>,
}

impl View for MkDeviceConfig {
    type V = ConfigModel;

    open spec fn view(&self) -> ConfigModel {
        ConfigModel {
            model: self.model@,
            hw_version: self.hw_version@,
            firmware_version: self.firmware_version@,
            cells: cells_view(self.cells@),
            test_modes: modes_view(self.test_modes@),
            quick_modes: quick_modes_view(self.quick_modes@),
        }
    }
}

fn clone_cell_vec(v: &Vec<MkDeviceCell>) -> (r: Vec<MkDeviceCell>)
    ensures
        cells_view(r@) == cells_view(v@),
{
    let n = v.len();
    let mut r: Vec<MkDeviceCell> = Vec::new();
    let mut i: usize = 0;
    proof {
        assert(cells_view(r@) =~= cells_view(v@.take(0)));
    }
    while i < n
        invariant
            i <= n,
            n == v@.len(),
            cells_view(r@) == cells_view(v@.take(i as int)),
        decreases n - i,
    {
        let c = v[i].clone();
        let ghost cv = c@;
        r.push(c);
        proof {
            assert forall|j: int| 0 <= j < i + 1 implies cells_view(r@)[j] == cells_view(v@.take(i + 1))[j] by {
                assert(v@.take(i + 1)[j] == v@[j]);
                if j < i {
                    assert(cells_view(r@)[j] == cells_view(v@.take(i as int))[j]);
                    assert(cells_view(v@.take(i as int))[j] == v@.take(i as int)[j]@);
                    assert(v@.take(i as int)[j] == v@[j]);
                } else {
                    assert(cells_view(r@)[j] == cv);
                    assert(cv == v@[i as int]@);
                }
            }
            assert(cells_view(r@) =~~= cells_view(v@.take(i + 1)));
        }
        i = i + 1;
    }
    proof {
        assert(cells_view(v@.take(n as int)) =~= cells_view(v@));
    }
    r
}

fn clone_test_modes(v: &Vec<MkDeviceTestMode>) -> (r: Vec<MkDeviceTestMode>)
    ensures
        modes_view(r@) == modes_view(v@),
{
    let n = v.len();
    let mut r: Vec<MkDeviceTestMode> = Vec::new();
    let mut i: usize = 0;
    proof {
        assert(modes_view(r@) =~= modes_view(v@.take(0)));
    }
    while i < n
        invariant
            i <= n,
            n == v@.len(),
            modes_view(r@) == modes_view(v@.take(i as int)),
        decreases n - i,
    {
        let c = v[i].clone();
        let ghost cv = c@;
        r.push(c);
        proof {
            assert forall|j: int| 0 <= j < i + 1 implies modes_view(r@)[j] == modes_view(v@.take(i + 1))[j] by {
                assert(v@.take(i + 1)[j] == v@[j]);
                if j < i {
                    assert(modes_view(r@)[j] == modes_view(v@.take(i as int))[j]);
                    assert(modes_view(v@.take(i as int))[j] == v@.take(i as int)[j]@);
                    assert(v@.take(i as int)[j] == v@[j]);
                } else {
                    assert(modes_view(r@)[j] == cv);
                    assert(cv == v@[i as int]@);
                }
            }
            assert(modes_view(r@) =~~= modes_view(v@.take(i + 1)));
        }
        i = i + 1;
    }
    proof {
        assert(modes_view(v@.take(n as int)) =~= modes_view(v@));
    }
    r
}

fn clone_quick_modes(v: &Vec<MkDeviceQuickMode>) -> (r: Vec<MkDeviceQuickMode>)
    ensures
        quick_modes_view(r@) == quick_modes_view(v@),
{
    let n = v.len();
    let mut r: Vec<MkDeviceQuickMode> = Vec::new();
    let mut i: usize = 0;
    proof {
        assert(quick_modes_view(r@) =~= quick_modes_view(v@.take(0)));
    }
    while i < n
        invariant
            i <= n,
            n == v@.len(),
            quick_modes_view(r@) == quick_modes_view(v@.take(i as int)),
        decreases n - i,
    {
        let c = v[i].clone();
        let ghost cv = c@;
        r.push(c);
        proof {
            assert forall|j: int| 0 <= j < i + 1 implies quick_modes_view(r@)[j] == quick_modes_view(v@.take(i + 1))[j] by {
                assert(v@.take(i + 1)[j] == v@[j]);
                if j < i {
                    assert(quick_modes_view(r@)[j] == quick_modes_view(v@.take(i as int))[j]);
                    assert(quick_modes_view(v@.take(i as int))[j] == v@.take(i as int)[j]@);
                    assert(v@.take(i as int)[j] == v@[j]);
                } else {
                    assert(quick_modes_view(r@)[j] == cv);
                    assert(cv == v@[i as int]@);
                }
            }
            assert(quick_modes_view(r@) =~~= quick_modes_view(v@.take(i + 1)));
        }
        i = i + 1;
    }
    proof {
        assert(quick_modes_view(v@.take(n as int)) =~= quick_modes_view(v@));
    }
    r
}

impl Clone for MkDeviceConfig {
    fn clone(&self) -> (res: Self)
        ensures
            res@ == self@,
    {
        let res = MkDeviceConfig {
            model: self.model.clone(),
            hw_version: self.hw_version.clone(),
            firmware_version: self.firmware_version.clone(),
            cells: clone_cell_vec(&self.cells),
            test_modes: clone_test_modes(&self.test_modes),
            quick_modes: clone_quick_modes(&self.quick_modes),
        };
        res
    }
}

/// The characters the header bytes denote, one character per byte.
pub open spec fn chars_of_bytes(bs: Seq<u8>) -> Seq<char> {
    bs.map_values(|b: u8| b as char)
}

/// The identity a dump decodes to: the text from offset 60 to the first
/// comma is the model, from there to the next comma the hardware version,
/// and from there the firmware version, cut at the first non-ASCII byte
/// and at four bytes, whichever is shorter.  `None` when the buffer ends
/// before offset 60, a comma is missing, or no non-ASCII byte follows.
pub open spec fn spec_device_information(data: Seq<u8>) -> Option<(Seq<char>, Seq<char>, Seq<char>)> {
    if data.len() <= 60 {
        None
    } else {
        let p1 = seq_index_of_from(data, 60, 44u8);
        if p1 == data.len() {
            None
        } else {
            let p2 = seq_index_of_from(data, p1 + 1, 44u8);
            if p2 == data.len() {
                None
            } else {
                let p3 = first_non_ascii_from(data, p2 + 1);
                if p3 == data.len() {
                    None
                } else {
                    let fw_end = if p3 > p2 + 5 {
                        p2 + 5
                    } else {
                        p3
                    };
                    Some(
                        (
                            chars_of_bytes(data.subrange(60, p1)),
                            chars_of_bytes(data.subrange(p1 + 1, p2)),
                            chars_of_bytes(data.subrange(p2 + 1, fw_end)),
                        ),
                    )
                }
            }
        }
    }
}

/// Copies a byte range into a string, one character per byte.
fn bytes_to_string(data: &[u8], from: usize, to: usize) -> (r: String)
    requires
        from <= to <= data@.len(),
    ensures
        r@ == chars_of_bytes(data@.subrange(from as int, to as int)),
{
    let mut s = String::new();
    let mut i = from;
    while i < to
        invariant
            from <= i <= to,
            s@ == chars_of_bytes(data@.subrange(from as int, i as int)),
        decreases to - i,
    {
        let c = data[i] as char;
        push_char(&mut s, c);
        proof {
            assert(data@.subrange(from as int, i + 1).drop_last() =~= data@.subrange(
                from as int,
                i as int,
            ));
            assert(data@.subrange(from as int, i + 1).last() == data@[i as int]);
            assert(s@ =~= chars_of_bytes(data@.subrange(from as int, i + 1)));
        }
        i = i + 1;
    }
    s
}

/// Extracts the model, hardware version and firmware version from a dump.
///
/// Succeeds exactly when the buffer reaches past offset 60, holds two
/// commas from there on, and a non-ASCII byte after the second; the three
/// fields are then the regions [`spec_device_information`] names.
pub fn get_device_information(data: &[u8]) -> (r: Result<(String, String, String), String>)
    ensures
        ({
            match spec_device_information(data@) {
                Some(t) => r matches Ok(v) && v.0@ == t.0 && v.1@ == t.1 && v.2@ == t.2,
                None => r is Err,
            }
        }),
{
    let len = data.len();
    if len <= 60 {
        return Err(String::from_str("Invalid data format"));
    }
    let p1 = find_byte_from(data, 60, 44);
    proof {
        lemma_seq_index_of_from_props(data@, 60, 44u8);
    }
    if p1 >= len {
        return Err(String::from_str("Invalid data format. Could not find model end"));
    }
    let p2 = find_byte_from(data, p1 + 1, 44);
    proof {
        lemma_seq_index_of_from_props(data@, p1 + 1, 44u8);
    }
    if p2 >= len {
        return Err(String::from_str("Invalid data format. Could not find hw end"));
    }
    let p3 = find_non_ascii_from(data, p2 + 1);
    proof {
        lemma_first_non_ascii_from_props(data@, p2 + 1);
    }
    if p3 >= len {
        return Err(String::from_str("Invalid data format. Could not find fw end"));
    }
    let rel = p3 - (p2 + 1);
    let fw_end = if rel > 4 {
        p2 + 1 + 4
    } else {
        p3
    };
    let model = bytes_to_string(data, 60, p1);
    let hw_version = bytes_to_string(data, p1 + 1, p2);
    let firmware_version = bytes_to_string(data, p2 + 1, fw_end);
    Ok((model, hw_version, firmware_version))
}

/// The identity split, named at its witness positions: if `p1 < p2` are
/// the first commas at or after offset 60 and `p3` the first non-ASCII
/// byte after `p2`, the decoder returns exactly the text between 60 and
/// `p1`, between the commas, and after `p2` cut at four bytes or at `p3`,
/// whichever comes first.
pub proof fn lemma_device_information_split(data: Seq<u8>, p1: int, p2: int, p3: int)
    requires
        60 <= p1 < p2 < p3 < data.len(),
        data[p1] == 44u8,
        data[p2] == 44u8,
        data[p3] >= 128,
        forall|i: int| 60 <= i < p1 ==> data[i] != 44u8,
        forall|i: int| p1 + 1 <= i < p2 ==> data[i] != 44u8,
        forall|i: int| p2 + 1 <= i < p3 ==> data[i] < 128,
    ensures
        spec_device_information(data) == Some(
            (
                chars_of_bytes(data.subrange(60, p1)),
                chars_of_bytes(data.subrange(p1 + 1, p2)),
                chars_of_bytes(
                    data.subrange(
                        p2 + 1,
                        if p3 > p2 + 5 {
                            p2 + 5
                        } else {
                            p3
                        },
                    ),
                ),
            ),
        ),
{
    lemma_seq_index_of_from_unique(data, 60, 44u8, p1);
    lemma_seq_index_of_from_unique(data, p1 + 1, 44u8, p2);
    lemma_first_non_ascii_from_unique(data, p2 + 1, p3);
}

/// The configuration cells a dump and a description yield: one cell per
/// unlocked buffer index, cloned from the template at that address with
/// the address and the current value overwritten.
pub open spec fn spec_unlocked_cells(
    data: Seq<u8>,
    cells: Seq<CellModel>,
    locked: Seq<usize>,
    i: int,
    acc: Seq<CellModel>,
) -> Seq<CellModel>
    decreases data.len() - i,
{
    if i < 0 || i >= data.len() {
        acc
    } else {
        if locked.contains(i as usize) {
            spec_unlocked_cells(data, cells, locked, i + 1, acc)
        } else {
            spec_unlocked_cells(
                data,
                cells,
                locked,
                i + 1,
                acc.push(CellModel { address: i, current_value: data[i], ..cells[i] }),
            )
        }
    }
}

pub open spec fn spec_read_unlocked(data: Seq<u8>, cells: Seq<CellModel>, locked: Seq<usize>) -> Seq<
    CellModel,
> {
    spec_unlocked_cells(data, cells, locked, 0, Seq::empty())
}

/// Decides whether an address is in a lock list.
pub fn contains_usize(v: &Vec<usize>, x: usize) -> (r: bool)
    ensures
        r == v@.contains(x),
{
    let n = v.len();
    let mut i: usize = 0;
    while i < n
        invariant
            i <= n,
            forall|j: int| 0 <= j < i ==> v@[j] != x,
        decreases n - i,
    {
        if v[i] == x {
            return true;
        }
        i = i + 1;
    }
    proof {
        if v@.contains(x) {
            let w = choose|w: int| 0 <= w < v@.len() && v@[w] == x;
        }
    }
    false
}

/// Clones the template cell of every unlocked buffer index, overwriting
/// its address with the index and its current value with the byte there.
pub fn read_unlocked_cells(data: &[u8], module_description: &MkModuleDescription) -> (r: Vec<
    MkDeviceCell,
>)
    requires
        data@.len() <= module_description.cells@.len(),
    ensures
        cells_view(r@) == spec_read_unlocked(
            data@,
            cells_view(module_description.cells@),
            module_description.locked_cells@,
        ),
{
    let ghost cm = cells_view(module_description.cells@);
    let ghost locked = module_description.locked_cells@;
    let mut r: Vec<MkDeviceCell> = Vec::new();
    let n = data.len();
    let mut i: usize = 0;
    proof {
        assert(cells_view(r@) =~= Seq::<CellModel>::empty());
    }
    while i < n
        invariant
            i <= n,
            n == data@.len(),
            n <= module_description.cells@.len(),
            spec_read_unlocked(data@, cm, locked) == spec_unlocked_cells(
                data@,
                cm,
                locked,
                i as int,
                cells_view(r@),
            ),
        decreases n - i,
    {
        let ghost v0 = cells_view(r@);
        if !contains_usize(&module_description.locked_cells, i) {
            let mut cell = module_description.cells[i].clone();
            cell.address = i;
            cell.current_value = data[i];
            r.push(cell);
            proof {
                assert(cells_view(r@) =~~= v0.push(
                    CellModel { address: i as int, current_value: data@[i as int], ..cm[i as int] },
                ));
            }
        }
        i = i + 1;
    }
    r
}

/// Properties of the unlocked-cell fold, stated from position `i` on.
proof fn lemma_unlocked_cells_props(
    data: Seq<u8>,
    cells: Seq<CellModel>,
    locked: Seq<usize>,
    i: int,
    acc: Seq<CellModel>,
)
    requires
        0 <= i <= data.len(),
    ensures
        ({
            let out = spec_unlocked_cells(data, cells, locked, i, acc);
            &&& out.len() >= acc.len()
            &&& forall|j: int| 0 <= j < acc.len() ==> out[j] == acc[j]
            &&& forall|j: int|
                acc.len() <= j < out.len() ==> i <= (#[trigger] out[j]).address < data.len()
                    && !locked.contains(out[j].address as usize) && out[j].current_value
                    == data[out[j].address]
            &&& forall|a: int|
                i <= a < data.len() && !(#[trigger] locked.contains(a as usize)) ==> exists|j: int|
                    acc.len() <= j < out.len() && (#[trigger] out[j]).address == a
            &&& forall|j: int, k: int|
                acc.len() <= j < k < out.len() ==> (#[trigger] out[j]).address < (
                #[trigger] out[k]).address
        }),
    decreases data.len() - i,
{
    if i < data.len() {
        let out = spec_unlocked_cells(data, cells, locked, i, acc);
        if locked.contains(i as usize) {
            lemma_unlocked_cells_props(data, cells, locked, i + 1, acc);
            assert forall|a: int|
                i <= a < data.len() && !(#[trigger] locked.contains(a as usize)) implies exists|
                j: int,
            |
                acc.len() <= j < out.len() && (#[trigger] out[j]).address == a by {
                assert(a != i);
            }
        } else {
            let c = CellModel { address: i, current_value: data[i], ..cells[i] };
            let acc2 = acc.push(c);
            lemma_unlocked_cells_props(data, cells, locked, i + 1, acc2);
            let out2 = spec_unlocked_cells(data, cells, locked, i + 1, acc2);
            assert(out == out2);
            assert(out[acc.len() as int] == acc2[acc.len() as int]);
            assert(acc2[acc.len() as int] == c);
            assert forall|a: int|
                i <= a < data.len() && !(#[trigger] locked.contains(a as usize)) implies exists|
                j: int,
            |
                acc.len() <= j < out.len() && (#[trigger] out[j]).address == a by {
                if a == i {
                    assert(out[acc.len() as int].address == i);
                } else {
                    let w = choose|j: int|
                        acc2.len() <= j < out.len() && (#[trigger] out[j]).address == a;
                    assert(out[w].address == a);
                }
            }
        }
    }
}

/// Locked addresses never appear in the output; every unlocked address in
/// the buffer appears exactly once, carrying the byte at that address.
pub proof fn lemma_read_unlocked_cells_addresses(
    data: Seq<u8>,
    cells: Seq<CellModel>,
    locked: Seq<usize>,
    a: usize,
)
    requires
        (a as int) < data.len(),
    ensures
        ({
            let out = spec_read_unlocked(data, cells, locked);
            &&& locked.contains(a) ==> forall|j: int|
                0 <= j < out.len() ==> (#[trigger] out[j]).address != a
            &&& !locked.contains(a) ==> exists|j: int|
                0 <= j < out.len() && (#[trigger] out[j]).address == a && out[j].current_value
                    == data[a as int]
            &&& forall|j: int, k: int|
                0 <= j < k < out.len() ==> (#[trigger] out[j]).address != (#[trigger] out[k]).address
        }),
{
    lemma_unlocked_cells_props(data, cells, locked, 0, Seq::empty());
    let out = spec_read_unlocked(data, cells, locked);
    assert(Seq::<CellModel>::empty().len() == 0);
    if !locked.contains(a) {
        assert(!locked.contains(((a as int) as usize)));
        assert(exists|j: int| 0 <= j < out.len() && (#[trigger] out[j]).address == a as int);
        let w = choose|j: int| 0 <= j < out.len() && (#[trigger] out[j]).address == a as int;
        assert(out[w].current_value == data[out[w].address]);
        assert(0 <= w < out.len() && out[w].address == a && out[w].current_value == data[a as int]);
    }
}

/// Decodes a configuration dump against a module description.
///
/// Succeeds exactly when the identity header decodes and the buffer is no
/// longer than the description's cell table; the cells are then the
/// unlocked subset, and the mode tables are carried over unchanged.
pub fn parse_device_config(data: &[u8], module_description: MkModuleDescription) -> (r: Result<
    MkDeviceConfig,
    String,
>)
    ensures
        ({
            match r {
                Ok(cfg) => {
                    &&& spec_device_information(data@) matches Some(t) && cfg.model@ == t.0
                        && cfg.hw_version@ == t.1 && cfg.firmware_version@ == t.2
                    &&& data@.len() <= module_description.cells@.len()
                    &&& cells_view(cfg.cells@) == spec_read_unlocked(
                        data@,
                        cells_view(module_description.cells@),
                        module_description.locked_cells@,
                    )
                    &&& modes_view(cfg.test_modes@) == modes_view(module_description.testmodes@)
                    &&& quick_modes_view(cfg.quick_modes@) == quick_modes_view(
                        module_description.quickmodes@,
                    )
                },
                Err(_) => spec_device_information(data@) is None || data@.len()
                    > module_description.cells@.len(),
            }
        }),
{
    let info = get_device_information(data);
    let (model, hw_version, firmware_version) = match info {
        Ok(t) => t,
        Err(e) => {
            return Err(e);
        },
    };
    if data.len() > module_description.cells.len() {
        return Err(String::from_str("Invalid data format. Cell data exceeds the cell table"));
    }
    let cells = read_unlocked_cells(data, &module_description);
    let test_modes = module_description.testmodes;
    let quick_modes = module_description.quickmodes;
    let result = MkDeviceConfig { model, hw_version, firmware_version, cells, test_modes, quick_modes };
    Ok(result)
}

} // verus!
