//! Typed module-description data: cells, test modes, quick modes and the
//! description table extracted from a parsed section map.

use vstd::prelude::*;

use crate::module_description_parser::find_key_from;
use crate::module_description_parser::SectionMap;
use crate::strutil::spec_parse_dec;
use crate::strutil::spec_parse_hex;
use crate::strutil::split_ws;
use crate::strutil::split_ws_str;
use crate::strutil::starts_with;
use crate::strutil::strip_0x;
use crate::strutil::strip_0x_prefixes;
use crate::strutil::parse_dec_u8;
use vstd::pervasive::VecAdditionalExecFns;
use crate::strutil::parse_dec_usize;
use crate::strutil::parse_hex_usize;
use crate::strutil::push_char;
use crate::strutil::usize_to_dec_string;

verus! {

/// One test mode declared by a module description.
#[derive(Debug)]
pub struct MkDeviceTestMode {
    pub testmode_id: usize,
    pub name: String,
    pub description: String,
    pub sequence_on: String,
    pub sequence_off: String,
}

/// One quick mode declared by a module description.
#[derive(Debug)]
pub struct MkDeviceQuickMode {
    pub testmode_id: usize,
    pub name: String,
    pub description: String,
    pub sequence_on: String,
    pub sequence_off: String,
}

/// One addressable configuration or calibration cell.
#[derive(Debug)]
pub struct MkDeviceCell {
    pub address: usize,
    pub name: String,
    pub description: String,
    pub min_value: u8,
    pub max_value: u8,
    pub allowed_values: Vec<u8>,
    pub default_value: u8,
    pub current_value: u8,
}

/// Mathematical model of a cell: every text field as a character sequence.
#[verifier::ext_equal]
pub struct CellModel {
    pub address: int,
    pub name: Seq<char>,
    pub description: Seq<char>,
    pub min_value: u8,
    pub max_value: u8,
    pub allowed_values: Seq<u8>,
    pub default_value: u8,
    pub current_value: u8,
}

impl View for MkDeviceCell {
    type V = CellModel;

    open spec fn view(&self) -> CellModel {
        CellModel {
            address: self.address as int,
            name: self.name@,
            description: self.description@,
            min_value: self.min_value,
            max_value: self.max_value,
            allowed_values: self.allowed_values@,
            default_value: self.default_value,
            current_value: self.current_value,
        }
    }
}

/// Mathematical model of a test or quick mode.
#[verifier::ext_equal]
pub struct ModeModel {
    pub testmode_id: int,
    pub name: Seq<char>,
    pub description: Seq<char>,
    pub sequence_on: Seq<char>,
    pub sequence_off: Seq<char>,
}

impl View for MkDeviceTestMode {
    type V = ModeModel;

    open spec fn view(&self) -> ModeModel {
        ModeModel {
            testmode_id: self.testmode_id as int,
            name: self.name@,
            description: self.description@,
            sequence_on: self.sequence_on@,
            sequence_off: self.sequence_off@,
        }
    }
}

impl View for MkDeviceQuickMode {
    type V = ModeModel;

    open spec fn view(&self) -> ModeModel {
        ModeModel {
            testmode_id: self.testmode_id as int,
            name: self.name@,
            description: self.description@,
            sequence_on: self.sequence_on@,
            sequence_off: self.sequence_off@,
        }
    }
}

impl Clone for MkDeviceCell {
    fn clone(&self) -> (res: Self)
        ensures
            res@ == self@,
    {
        let res = MkDeviceCell {
            address: self.address,
            name: self.name.clone(),
            description: self.description.clone(),
            min_value: self.min_value,
            max_value: self.max_value,
            allowed_values: self.allowed_values.clone(),
            default_value: self.default_value,
            current_value: self.current_value,
        };
        proof {
            assert(res.allowed_values@ =~= self.allowed_values@);
        }
        res
    }
}

impl Clone for MkDeviceTestMode {
    fn clone(&self) -> (res: Self)
        ensures
            res@ == self@,
    {
        MkDeviceTestMode {
            testmode_id: self.testmode_id,
            name: self.name.clone(),
            description: self.description.clone(),
            sequence_on: self.sequence_on.clone(),
            sequence_off: self.sequence_off.clone(),
        }
    }
}

impl Clone for MkDeviceQuickMode {
    fn clone(&self) -> (res: Self)
        ensures
            res@ == self@,
    {
        MkDeviceQuickMode {
            testmode_id: self.testmode_id,
            name: self.name.clone(),
            description: self.description.clone(),
            sequence_on: self.sequence_on.clone(),
            sequence_off: self.sequence_off.clone(),
        }
    }
}

/// The all-zero cell that fills table slots no description key touches.
pub open spec fn default_cell_model() -> CellModel {
    CellModel {
        address: 0,
        name: Seq::empty(),
        description: Seq::empty(),
        min_value: 0,
        max_value: 0,
        allowed_values: Seq::empty(),
        default_value: 0,
        current_value: 0,
    }
}

impl Default for MkDeviceCell {
    fn default() -> (res: Self)
        ensures
            res@ == default_cell_model(),
    {
        let res = MkDeviceCell {
            address: 0,
            name: String::new(),
            description: String::new(),
            min_value: 0,
            max_value: 0,
            allowed_values: Vec::new(),
            default_value: 0,
            current_value: 0,
        };
        res
    }
}

/// A fatal description error: a count, default, bound or allowed value
/// that is not a well-formed integer of the required size.
#[derive(Clone, Copy, Debug, PartialEq, Eq, Structural)]
pub enum ParseError {
    BadInteger,
}

/// All the data a module description declares for one device model.
#[derive(Debug)]
pub struct MkModuleDescription {
    pub device_model: String,
    pub number_of_testmodes: usize,
    pub testmodes: Vec<MkDeviceTestMode>,
    pub number_of_quickmodes: usize,
    pub quickmodes: Vec<MkDeviceQuickMode>,
    pub cells: Vec<MkDeviceCell>,
    pub calibration_cells: Vec<MkDeviceCell>,
    pub editable_cells: Vec<usize>,
    pub locked_cells: Vec<usize>,
    pub unknown_data: SectionMap,
}

/// The cell models of a cell table.
pub open spec fn cells_view(cs: Seq<MkDeviceCell>) -> Seq<CellModel> {
    cs.map_values(|c: MkDeviceCell| c@)
}

/// The mode models of a mode table.
pub open spec fn modes_view(ms: Seq<MkDeviceTestMode>) -> Seq<ModeModel> {
    ms.map_values(|m: MkDeviceTestMode| m@)
}

pub open spec fn quick_modes_view(ms: Seq<MkDeviceQuickMode>) -> Seq<ModeModel> {
    ms.map_values(|m: MkDeviceQuickMode| m@)
}

/// Every field but the residual section map agrees.
pub open spec fn same_except_unknown(a: MkModuleDescription, b: MkModuleDescription) -> bool {
    &&& a.device_model == b.device_model
    &&& a.number_of_testmodes == b.number_of_testmodes
    &&& a.testmodes == b.testmodes
    &&& a.number_of_quickmodes == b.number_of_quickmodes
    &&& a.quickmodes == b.quickmodes
    &&& a.cells == b.cells
    &&& a.calibration_cells == b.calibration_cells
    &&& a.editable_cells == b.editable_cells
    &&& a.locked_cells == b.locked_cells
}

/// The address a cell-list token denotes: hexadecimal after a `0x` prefix,
/// decimal otherwise; `None` when it does not parse.
pub open spec fn spec_addr_of_token(tok: Seq<char>) -> Option<usize> {
    if tok.len() >= 2 && tok[0] == '0' && tok[1] == 'x' {
        match spec_parse_hex(strip_0x(tok), usize::MAX as int) {
            Some(v) => Some(v as usize),
            None => None,
        }
    } else {
        match spec_parse_dec(tok, usize::MAX as int) {
            Some(v) => Some(v as usize),
            None => None,
        }
    }
}

/// The addresses of the tokens that parse; tokens that do not are skipped.
pub open spec fn spec_addr_list(toks: Seq<Seq<char>>, i: int, acc: Seq<usize>) -> Seq<usize>
    decreases toks.len() - i,
{
    if i < 0 || i >= toks.len() {
        acc
    } else {
        match spec_addr_of_token(toks[i]) {
            Some(v) => spec_addr_list(toks, i + 1, acc.push(v)),
            None => spec_addr_list(toks, i + 1, acc),
        }
    }
}

/// The address set a `EDITABLE_CELLS` / `LOCKED_CELLS` body denotes.
pub open spec fn spec_cell_addresses(body: Seq<char>) -> Seq<usize> {
    spec_addr_list(split_ws(body), 0, Seq::empty())
}

/// Parses one cell-list token into an address.
fn parse_cell_token(s: &str) -> (r: Option<usize>)
    ensures
        r == spec_addr_of_token(s@),
{
    let len = s.unicode_len();
    if len >= 2 && s.get_char(0) == '0' && s.get_char(1) == 'x' {
        let stripped = strip_0x_prefixes(s);
        parse_hex_usize(stripped)
    } else {
        parse_dec_usize(s)
    }
}

/// Parses a whitespace-separated address list, skipping bad tokens.
fn parse_address_list(s: &str) -> (r: Vec<usize>)
    ensures
        r@ == spec_cell_addresses(s@),
{
    let toks = split_ws_str(s);
    let ghost tv = toks@.map_values(|t: String| t@);
    let mut r: Vec<usize> = Vec::new();
    let n = toks.len();
    let mut i: usize = 0;
    proof {
        assert(r@ =~= Seq::<usize>::empty());
    }
    while i < n
        invariant
            i <= n,
            n == toks@.len(),
            spec_cell_addresses(s@) == spec_addr_list(tv, i as int, r@),
        decreases n - i,
    {
        proof {
            assert(tv[i as int] == toks@[i as int]@);
        }
        match parse_cell_token(toks[i].as_str()) {
            Some(v) => r.push(v),
            None => (),
        }
        i = i + 1;
    }
    r
}

/// Extracts the `EDITABLE_CELLS` address list, removing the key.
pub fn get_editable_cells_and_remove_from_unknown(
    module_description: &mut MkModuleDescription,
) -> (r: Vec<usize>)
    requires
        old(module_description).unknown_data.wf(),
    ensures
        same_except_unknown(*old(module_description), *final(module_description)),
        final(module_description).unknown_data.wf(),
        ({
            let m = old(module_description).unknown_data@;
            let j = find_key_from(m, 0, "EDITABLE_CELLS"@);
            if j < m.len() {
                r@ == spec_cell_addresses(m[j].1) && final(module_description).unknown_data@
                    == m.remove(j)
            } else {
                r@ == Seq::<usize>::empty() && final(module_description).unknown_data@ == m
            }
        }),
{
    match module_description.unknown_data.remove_entry("EDITABLE_CELLS") {
        Some(body) => parse_address_list(body.as_str()),
        None => Vec::new(),
    }
}

/// Extracts the `LOCKED_CELLS` address list, removing the key.
pub fn get_locked_cells_and_remove_from_unknown(
    module_description: &mut MkModuleDescription,
) -> (r: Vec<usize>)
    requires
        old(module_description).unknown_data.wf(),
    ensures
        same_except_unknown(*old(module_description), *final(module_description)),
        final(module_description).unknown_data.wf(),
        ({
            let m = old(module_description).unknown_data@;
            let j = find_key_from(m, 0, "LOCKED_CELLS"@);
            if j < m.len() {
                r@ == spec_cell_addresses(m[j].1) && final(module_description).unknown_data@
                    == m.remove(j)
            } else {
                r@ == Seq::<usize>::empty() && final(module_description).unknown_data@ == m
            }
        }),
{
    match module_description.unknown_data.remove_entry("LOCKED_CELLS") {
        Some(body) => parse_address_list(body.as_str()),
        None => Vec::new(),
    }
}

/// Extracts the `DEVICE_MODEL` string, removing the key.
pub fn get_device_model_and_remove_from_unknown(
    module_description: &mut MkModuleDescription,
) -> (r: String)
    requires
        old(module_description).unknown_data.wf(),
    ensures
        same_except_unknown(*old(module_description), *final(module_description)),
        final(module_description).unknown_data.wf(),
        ({
            let m = old(module_description).unknown_data@;
            let j = find_key_from(m, 0, "DEVICE_MODEL"@);
            if j < m.len() {
                r@ == m[j].1 && final(module_description).unknown_data@ == m.remove(j)
            } else {
                r@ == Seq::<char>::empty() && final(module_description).unknown_data@ == m
            }
        }),
{
    match module_description.unknown_data.remove_entry("DEVICE_MODEL") {
        Some(device_model) => device_model,
        None => String::new(),
    }
}

/// What a mode-count body yields: zero when the key is absent, the parsed
/// count when it parses, and a fatal error otherwise.
pub open spec fn spec_count_of(m: Seq<(Seq<char>, Seq<char>)>, key: Seq<char>) -> Result<
    usize,
    ParseError,
> {
    let j = find_key_from(m, 0, key);
    if j < m.len() {
        match spec_parse_dec(m[j].1, usize::MAX as int) {
            Some(v) => Ok(v as usize),
            None => Err(ParseError::BadInteger),
        }
    } else {
        Ok(0)
    }
}

/// Extracts the `TESTMODE NUMBER` count, removing the key.
pub fn get_number_of_testmodes_and_remove_from_unknown(
    module_description: &mut MkModuleDescription,
) -> (r: Result<usize, ParseError>)
    requires
        old(module_description).unknown_data.wf(),
    ensures
        same_except_unknown(*old(module_description), *final(module_description)),
        final(module_description).unknown_data.wf(),
        r == spec_count_of(old(module_description).unknown_data@, "TESTMODE NUMBER"@),
        ({
            let m = old(module_description).unknown_data@;
            let j = find_key_from(m, 0, "TESTMODE NUMBER"@);
            final(module_description).unknown_data@ == if j < m.len() {
                m.remove(j)
            } else {
                m
            }
        }),
{
    match module_description.unknown_data.remove_entry("TESTMODE NUMBER") {
        Some(number_of_testmodes) => match parse_dec_usize(number_of_testmodes.as_str()) {
            Some(v) => Ok(v),
            None => Err(ParseError::BadInteger),
        },
        None => Ok(0),
    }
}

/// Extracts the `QUICKMODE NUMBER` count, removing the key.
pub fn get_number_of_quickmodes_and_remove_from_unknown(
    module_description: &mut MkModuleDescription,
) -> (r: Result<usize, ParseError>)
    requires
        old(module_description).unknown_data.wf(),
    ensures
        same_except_unknown(*old(module_description), *final(module_description)),
        final(module_description).unknown_data.wf(),
        r == spec_count_of(old(module_description).unknown_data@, "QUICKMODE NUMBER"@),
        ({
            let m = old(module_description).unknown_data@;
            let j = find_key_from(m, 0, "QUICKMODE NUMBER"@);
            final(module_description).unknown_data@ == if j < m.len() {
                m.remove(j)
            } else {
                m
            }
        }),
{
    match module_description.unknown_data.remove_entry("QUICKMODE NUMBER") {
        Some(number_of_quickmodes) => match parse_dec_usize(number_of_quickmodes.as_str()) {
            Some(v) => Ok(v),
            None => Err(ParseError::BadInteger),
        },
        None => Ok(0),
    }
}

/// Whether `input` reads `"<class> 0x<hex> <field>"`, and the decoded
/// address and field name when it does.
pub open spec fn spec_check_cell_key(class: Seq<char>, input: Seq<char>) -> Option<
    (usize, Seq<char>),
> {
    let toks = split_ws(input);
    if toks.len() == 3 && toks[0] == class && toks[1].len() >= 2 && toks[1][0] == '0'
        && toks[1][1] == 'x' {
        match spec_parse_hex(strip_0x(toks[1]), usize::MAX as int) {
            Some(v) => Some((v as usize, toks[2])),
            None => None,
        }
    } else {
        None
    }
}

/// Splits a three-token cell key `"<class> 0x<hex> <field>"` into the cell
/// address and the field name.
pub fn check_cell_key(starting_str: &str, input: &str) -> (r: Result<(usize, String), ()>)
    ensures
        ({
            match r {
                Ok((a, f)) => spec_check_cell_key(starting_str@, input@) matches Some(p) && p.0
                    == a && p.1 == f@,
                Err(_) => spec_check_cell_key(starting_str@, input@) is None,
            }
        }),
{
    let parts = split_ws_str(input);
    let ghost tv = parts@.map_values(|t: String| t@);
    if parts.len() == 3 {
        proof {
            assert(tv[0] == parts@[0]@);
            assert(tv[1] == parts@[1]@);
            assert(tv[2] == parts@[2]@);
        }
        let p1len = parts[1].as_str().unicode_len();
        if crate::strutil::str_eq(parts[0].as_str(), starting_str) && p1len >= 2 && parts[1]
            .as_str()
            .get_char(0) == '0' && parts[1].as_str().get_char(1) == 'x' {
            let stripped = strip_0x_prefixes(parts[1].as_str());
            match parse_hex_usize(stripped) {
                Some(hex_number) => {
                    let f = parts[2].clone();
                    Ok((hex_number, f))
                },
                None => Err(()),
            }
        } else {
            Err(())
        }
    } else {
        Err(())
    }
}

/// A fresh table slot: all fields zero but the address.
pub open spec fn spec_default_cell_at(addr: int) -> CellModel {
    CellModel { address: addr, ..default_cell_model() }
}

/// The initial cell table: 256 fresh slots, each knowing its own address.
pub open spec fn spec_default_table() -> Seq<CellModel> {
    Seq::new(256, |i: int| spec_default_cell_at(i))
}

/// Extends the table to cover `addr`.  New slots are all-zero; only the
/// slot at `addr` itself learns its address.
pub open spec fn spec_grow_table(table: Seq<CellModel>, addr: int) -> Seq<CellModel> {
    if addr < table.len() {
        table
    } else {
        (table + Seq::new((addr + 1 - table.len()) as nat, |k: int| default_cell_model())).update(
            addr,
            spec_default_cell_at(addr),
        )
    }
}

/// The byte values of an `ALLOW` list; `None` when a token is no byte.
pub open spec fn spec_parse_u8_list(toks: Seq<Seq<char>>, i: int, acc: Seq<u8>) -> Option<Seq<u8>>
    decreases toks.len() - i,
{
    if i < 0 || i >= toks.len() {
        Some(acc)
    } else {
        match spec_parse_dec(toks[i], 255) {
            Some(v) => spec_parse_u8_list(toks, i + 1, acc.push(v as u8)),
            None => None,
        }
    }
}

/// What one `<Field>` key does to its cell: `NAME` and `HINT` set the text
/// fields, `DEF` sets both default and current value, `MIN_MAX` sets the
/// bounds from two space-separated bytes, `ALLOW` sets the allowed list;
/// an unknown field changes nothing, and a bad integer is fatal.
pub open spec fn spec_apply_cell_field(cell: CellModel, field: Seq<char>, value: Seq<char>) -> Option<
    CellModel,
> {
    if field == "NAME"@ {
        Some(CellModel { name: value, ..cell })
    } else if field == "HINT"@ {
        Some(CellModel { description: value, ..cell })
    } else if field == "DEF"@ {
        match spec_parse_dec(value, 255) {
            Some(v) => Some(CellModel { default_value: v as u8, current_value: v as u8, ..cell }),
            None => None,
        }
    } else if field == "MIN_MAX"@ {
        let sp = crate::strutil::seq_index_of_from(value, 0, ' ');
        if sp == value.len() {
            None
        } else {
            if spec_parse_dec(value.take(sp), 255) is Some && spec_parse_dec(
                value.skip(sp + 1),
                255,
            ) is Some {
                Some(
                    CellModel {
                        min_value: spec_parse_dec(value.take(sp), 255)->0 as u8,
                        max_value: spec_parse_dec(value.skip(sp + 1), 255)->0 as u8,
                        ..cell
                    },
                )
            } else {
                None
            }
        }
    } else if field == "ALLOW"@ {
        match spec_parse_u8_list(split_ws(value), 0, Seq::empty()) {
            Some(vs) => Some(CellModel { allowed_values: vs, ..cell }),
            None => None,
        }
    } else {
        Some(cell)
    }
}

/// Folds the section-map entries whose keys match `class` into the table.
pub open spec fn spec_cells_fold(
    entries: Seq<(Seq<char>, Seq<char>)>,
    class: Seq<char>,
    i: int,
    table: Seq<CellModel>,
) -> Option<Seq<CellModel>>
    decreases entries.len() - i,
{
    if i < 0 || i >= entries.len() {
        Some(table)
    } else {
        match spec_check_cell_key(class, entries[i].0) {
            Some(af) => {
                let t2 = spec_grow_table(table, af.0 as int);
                match spec_apply_cell_field(t2[af.0 as int], af.1, entries[i].1) {
                    Some(c) => spec_cells_fold(entries, class, i + 1, t2.update(af.0 as int, c)),
                    None => None,
                }
            },
            None => spec_cells_fold(entries, class, i + 1, table),
        }
    }
}

/// The cell table a section map declares for `class`.
pub open spec fn spec_cells_table(entries: Seq<(Seq<char>, Seq<char>)>, class: Seq<char>) -> Option<
    Seq<CellModel>,
> {
    spec_cells_fold(entries, class, 0, spec_default_table())
}

/// Builds the 256 fresh table slots.
fn make_default_table() -> (r: Vec<MkDeviceCell>)
    ensures
        cells_view(r@) == spec_default_table(),
{
    let mut result: Vec<MkDeviceCell> = Vec::new();
    let mut i: usize = 0;
    while i < 256
        invariant
            i <= 256,
            cells_view(result@) == Seq::new(i as nat, |k: int| spec_default_cell_at(k)),
        decreases 256 - i,
    {
        let ghost v0 = cells_view(result@);
        let mut c = MkDeviceCell::default();
        c.address = i;
        result.push(c);
        proof {
            assert(result@.len() == i + 1);
            assert(c@ =~~= spec_default_cell_at(i as int));
            assert(cells_view(result@)[i as int] == c@);
            assert forall|k: int| 0 <= k < i implies cells_view(result@)[k] == spec_default_cell_at(
                k,
            ) by {
                assert(cells_view(result@)[k] == v0[k]);
            }
            assert(cells_view(result@) =~~= Seq::new((i + 1) as nat, |k: int| spec_default_cell_at(k)));
        }
        i = i + 1;
    }
    proof {
        assert(cells_view(result@) =~~= spec_default_table());
    }
    result
}

/// Extends the table so that `address` is a valid slot.
fn grow_table(table: &mut Vec<MkDeviceCell>, address: usize)
    ensures
        cells_view(final(table)@) == spec_grow_table(cells_view(old(table)@), address as int),
        final(table)@.len() > address,
{
    if address < table.len() {
        return ;
    }
    let ghost t0 = cells_view(table@);
    while table.len() <= address
        invariant
            t0.len() <= cells_view(table@).len() <= address + 1,
            forall|k: int| 0 <= k < t0.len() ==> cells_view(table@)[k] == t0[k],
            forall|k: int|
                t0.len() <= k < cells_view(table@).len() ==> cells_view(table@)[k]
                    == default_cell_model(),
        decreases address + 1 - table@.len(),
    {
        let ghost v0 = cells_view(table@);
        let filler = MkDeviceCell::default();
        table.push(filler);
        proof {
            assert(table@.len() == v0.len() + 1);
            assert(cells_view(table@)[v0.len() as int] == default_cell_model());
            assert forall|k: int| 0 <= k < v0.len() implies cells_view(table@)[k] == v0[k] by {}
            assert forall|k: int| 0 <= k < t0.len() implies cells_view(table@)[k] == t0[k] by {
                assert(cells_view(table@)[k] == v0[k]);
            }
            assert forall|k: int|
                t0.len() <= k < cells_view(table@).len() implies cells_view(table@)[k]
                    == default_cell_model() by {
                if k < v0.len() {
                    assert(cells_view(table@)[k] == v0[k]);
                }
            }
        }
    }
    let ghost vfull = cells_view(table@);
    let mut c = MkDeviceCell::default();
    c.address = address;
    table.set(address, c);
    proof {
        let grown = t0 + Seq::new((address + 1 - t0.len()) as nat, |k: int| default_cell_model());
        let target = grown.update(address as int, spec_default_cell_at(address as int));
        assert(cells_view(table@).len() == address + 1);
        assert forall|k: int| 0 <= k < address + 1 implies cells_view(table@)[k] == target[k] by {
            if k == address {
                assert(cells_view(table@)[k] == c@);
                assert(c@ =~~= spec_default_cell_at(address as int));
            } else {
                assert(cells_view(table@)[k] == vfull[k]);
                if k < t0.len() {
                    assert(vfull[k] == t0[k]);
                    assert(grown[k] == t0[k]);
                } else {
                    assert(vfull[k] == default_cell_model());
                    assert(grown[k] == default_cell_model());
                }
            }
        }
        assert(cells_view(table@) =~~= spec_grow_table(t0, address as int));
    }
}

/// Applies one `<Field>` key to the table slot at `address`.
fn apply_cell_field(table: &mut Vec<MkDeviceCell>, address: usize, field: &str, value: &str) -> (r:
    Result<(), ParseError>)
    requires
        address < old(table)@.len(),
    ensures
        ({
            let c0 = cells_view(old(table)@)[address as int];
            match r {
                Ok(_) => spec_apply_cell_field(c0, field@, value@) matches Some(c)
                    && cells_view(final(table)@) == cells_view(old(table)@).update(
                    address as int,
                    c,
                ),
                Err(_) => spec_apply_cell_field(c0, field@, value@) is None && *final(table)
                    == *old(table),
            }
        }),
{
    let ghost t0 = cells_view(table@);
    if crate::strutil::str_eq(field, "NAME") {
        let mut c = table[address].clone();
        c.name = String::from_str(value);
        table.set(address, c);
        proof {
            assert(cells_view(table@) =~~= t0.update(
                address as int,
                spec_apply_cell_field(t0[address as int], field@, value@)->0,
            ));
        }
        Ok(())
    } else if crate::strutil::str_eq(field, "HINT") {
        let mut c = table[address].clone();
        c.description = String::from_str(value);
        table.set(address, c);
        proof {
            assert(cells_view(table@) =~~= t0.update(
                address as int,
                spec_apply_cell_field(t0[address as int], field@, value@)->0,
            ));
        }
        Ok(())
    } else if crate::strutil::str_eq(field, "DEF") {
        match parse_dec_u8(value) {
            Some(v) => {
                let mut c = table[address].clone();
                c.default_value = v;
                c.current_value = v;
                table.set(address, c);
                proof {
                    assert(cells_view(table@) =~~= t0.update(
                        address as int,
                        spec_apply_cell_field(t0[address as int], field@, value@)->0,
                    ));
                }
                Ok(())
            },
            None => Err(ParseError::BadInteger),
        }
    } else if crate::strutil::str_eq(field, "MIN_MAX") {
        let vlen = value.unicode_len();
        let sp = crate::strutil::find_char_from(value, 0, ' ');
        proof {
            crate::strutil::lemma_seq_index_of_from_props(value@, 0, ' ');
        }
        if sp >= vlen {
            return Err(ParseError::BadInteger);
        }
        proof {
            assert(value@.subrange(0, sp as int) =~= value@.take(sp as int));
            assert(value@.subrange(sp + 1, vlen as int) =~= value@.skip(sp + 1));
        }
        let left = value.substring_char(0, sp);
        let right = value.substring_char(sp + 1, vlen);
        match (parse_dec_u8(left), parse_dec_u8(right)) {
            (Some(mn), Some(mx)) => {
                let mut c = table[address].clone();
                c.min_value = mn;
                c.max_value = mx;
                table.set(address, c);
                proof {
                    assert(cells_view(table@) =~~= t0.update(
                        address as int,
                        spec_apply_cell_field(t0[address as int], field@, value@)->0,
                    ));
                }
                Ok(())
            },
            _ => Err(ParseError::BadInteger),
        }
    } else if crate::strutil::str_eq(field, "ALLOW") {
        match parse_u8_list(value) {
            Some(vs) => {
                let mut c = table[address].clone();
                c.allowed_values = vs;
                table.set(address, c);
                proof {
                    assert(cells_view(table@) =~~= t0.update(
                        address as int,
                        spec_apply_cell_field(t0[address as int], field@, value@)->0,
                    ));
                }
                Ok(())
            },
            None => Err(ParseError::BadInteger),
        }
    } else {
        proof {
            assert(cells_view(table@) =~~= t0.update(address as int, t0[address as int]));
        }
        Ok(())
    }
}

/// Parses a whitespace-separated list of decimal bytes; `None` if any token
/// is no byte.
fn parse_u8_list(s: &str) -> (r: Option<Vec<u8>>)
    ensures
        match r {
            Some(vs) => spec_parse_u8_list(split_ws(s@), 0, Seq::empty()) == Some(vs@),
            None => spec_parse_u8_list(split_ws(s@), 0, Seq::empty()) is None,
        },
{
    let toks = split_ws_str(s);
    let ghost tv = toks@.map_values(|t: String| t@);
    let mut vs: Vec<u8> = Vec::new();
    let n = toks.len();
    let mut i: usize = 0;
    proof {
        assert(vs@ =~= Seq::<u8>::empty());
    }
    while i < n
        invariant
            i <= n,
            n == toks@.len(),
            spec_parse_u8_list(tv, 0, Seq::empty()) == spec_parse_u8_list(tv, i as int, vs@),
        decreases n - i,
    {
        proof {
            assert(tv[i as int] == toks@[i as int]@);
        }
        match parse_dec_u8(toks[i].as_str()) {
            Some(v) => vs.push(v),
            None => {
                return None;
            },
        }
        i = i + 1;
    }
    Some(vs)
}

/// Populates the configuration-cell table from the `"M 0x<hex> <Field>"`
/// keys and removes those keys from the residual map.
pub fn get_cells_and_remove_from_unknown(module_description: &mut MkModuleDescription) -> (r:
    Result<Vec<MkDeviceCell>, ParseError>)
    requires
        old(module_description).unknown_data.wf(),
    ensures
        same_except_unknown(*old(module_description), *final(module_description)),
        final(module_description).unknown_data.wf(),
        ({
            let m = old(module_description).unknown_data@;
            match r {
                Ok(cells) => spec_cells_table(m, "M"@) matches Some(t) && cells_view(cells@) == t
                    && final(module_description).unknown_data@ == m.filter(
                    |e: (Seq<char>, Seq<char>)| !starts_with(e.0, "M "@),
                ),
                Err(e) => spec_cells_table(m, "M"@) is None && *final(module_description)
                    == *old(module_description) && e == ParseError::BadInteger,
            }
        }),
{
    let ghost m = module_description.unknown_data@;
    let mut result = make_default_table();
    let n = module_description.unknown_data.len();
    let mut i: usize = 0;
    while i < n
        invariant
            i <= n,
            n == m.len(),
            *module_description == *old(module_description),
            spec_cells_fold(m, "M"@, i as int, cells_view(result@)) == spec_cells_table(m, "M"@),
        decreases n - i,
    {
        let key = module_description.unknown_data.key_at(i);
        match check_cell_key("M", key.as_str()) {
            Ok((address, name)) => {
                grow_table(&mut result, address);
                let value = module_description.unknown_data.value_at(i);
                match apply_cell_field(&mut result, address, name.as_str(), value.as_str()) {
                    Ok(_) => (),
                    Err(e) => {
                        return Err(e);
                    },
                }
            },
            Err(_) => (),
        }
        i = i + 1;
    }
    module_description.unknown_data.remove_keys_with_prefix("M ");
    Ok(result)
}

/// Populates the calibration-cell table from the `"C 0x<hex> <Field>"`
/// keys and removes those keys from the residual map.
pub fn get_calibration_cells_and_remove_from_unknown(
    module_description: &mut MkModuleDescription,
) -> (r: Result<Vec<MkDeviceCell>, ParseError>)
    requires
        old(module_description).unknown_data.wf(),
    ensures
        same_except_unknown(*old(module_description), *final(module_description)),
        final(module_description).unknown_data.wf(),
        ({
            let m = old(module_description).unknown_data@;
            match r {
                Ok(cells) => spec_cells_table(m, "C"@) matches Some(t) && cells_view(cells@) == t
                    && final(module_description).unknown_data@ == m.filter(
                    |e: (Seq<char>, Seq<char>)| !starts_with(e.0, "C "@),
                ),
                Err(e) => spec_cells_table(m, "C"@) is None && *final(module_description)
                    == *old(module_description) && e == ParseError::BadInteger,
            }
        }),
{
    let ghost m = module_description.unknown_data@;
    let mut result = make_default_table();
    let n = module_description.unknown_data.len();
    let mut i: usize = 0;
    while i < n
        invariant
            i <= n,
            n == m.len(),
            *module_description == *old(module_description),
            spec_cells_fold(m, "C"@, i as int, cells_view(result@)) == spec_cells_table(m, "C"@),
        decreases n - i,
    {
        let key = module_description.unknown_data.key_at(i);
        match check_cell_key("C", key.as_str()) {
            Ok((address, name)) => {
                grow_table(&mut result, address);
                let value = module_description.unknown_data.value_at(i);
                match apply_cell_field(&mut result, address, name.as_str(), value.as_str()) {
                    Ok(_) => (),
                    Err(e) => {
                        return Err(e);
                    },
                }
            },
            Err(_) => (),
        }
        i = i + 1;
    }
    module_description.unknown_data.remove_keys_with_prefix("C ");
    Ok(result)
}

/// The value stored under `k` (empty if absent) and the map without it.
pub open spec fn spec_take_key(m: Seq<(Seq<char>, Seq<char>)>, k: Seq<char>) -> (
    Seq<char>,
    Seq<(Seq<char>, Seq<char>)>,
) {
    let j = find_key_from(m, 0, k);
    if j < m.len() {
        (m[j].1, m.remove(j))
    } else {
        (Seq::empty(), m)
    }
}

/// The address list stored under `k` (empty if absent) and the map
/// without it.
pub open spec fn spec_take_addr_key(m: Seq<(Seq<char>, Seq<char>)>, k: Seq<char>) -> (
    Seq<usize>,
    Seq<(Seq<char>, Seq<char>)>,
) {
    let j = find_key_from(m, 0, k);
    if j < m.len() {
        (spec_cell_addresses(m[j].1), m.remove(j))
    } else {
        (Seq::<usize>::empty(), m)
    }
}

/// The key `"<kind> <i> <field>"` of one mode attribute.
pub open spec fn spec_mode_key(kind: Seq<char>, i: nat, field: Seq<char>) -> Seq<char> {
    kind + seq![' '] + crate::strutil::spec_dec_digits(i) + seq![' '] + field
}

/// The model of mode `i` and the map with its four keys removed.
pub open spec fn spec_mode_model(m: Seq<(Seq<char>, Seq<char>)>, kind: Seq<char>, i: nat) -> (
    ModeModel,
    Seq<(Seq<char>, Seq<char>)>,
) {
    let r1 = spec_take_key(m, spec_mode_key(kind, i, "NAME"@));
    let r2 = spec_take_key(r1.1, spec_mode_key(kind, i, "HINT"@));
    let r3 = spec_take_key(r2.1, spec_mode_key(kind, i, "SEQUENCE_ON"@));
    let r4 = spec_take_key(r3.1, spec_mode_key(kind, i, "SEQUENCE_OFF"@));
    (
        ModeModel {
            testmode_id: i as int,
            name: r1.0,
            description: r2.0,
            sequence_on: r3.0,
            sequence_off: r4.0,
        },
        r4.1,
    )
}

/// Folds modes `i..=count` out of the map, missing fields defaulting to
/// the empty string.
pub open spec fn spec_take_modes(
    m: Seq<(Seq<char>, Seq<char>)>,
    kind: Seq<char>,
    i: nat,
    count: nat,
    acc: Seq<ModeModel>,
) -> (Seq<ModeModel>, Seq<(Seq<char>, Seq<char>)>)
    decreases count + 1 - i,
{
    if i > count || i < 1 {
        (acc, m)
    } else {
        let p = spec_mode_model(m, kind, i);
        spec_take_modes(p.1, kind, i + 1, count, acc.push(p.0))
    }
}

/// Builds the key `"<kind> <i> <field>"` of one mode attribute.
fn make_mode_key(kind: &str, i: usize, field: &str) -> (r: String)
    ensures
        r@ == spec_mode_key(kind@, i as nat, field@),
{
    let mut k = String::from_str(kind);
    push_char(&mut k, ' ');
    let digits = usize_to_dec_string(i);
    k.append(digits.as_str());
    push_char(&mut k, ' ');
    k.append(field);
    proof {
        assert(k@ =~= spec_mode_key(kind@, i as nat, field@));
    }
    k
}

/// Extracts the declared test modes, removing their keys; fields that a
/// description leaves out default to the empty string.
pub fn get_testmodes_and_remove_from_unknown(module_description: &mut MkModuleDescription) -> (r:
    Vec<MkDeviceTestMode>)
    requires
        old(module_description).unknown_data.wf(),
    ensures
        same_except_unknown(*old(module_description), *final(module_description)),
        final(module_description).unknown_data.wf(),
        ({
            let p = spec_take_modes(
                old(module_description).unknown_data@,
                "TESTMODE"@,
                1,
                old(module_description).number_of_testmodes as nat,
                Seq::empty(),
            );
            modes_view(r@) == p.0 && final(module_description).unknown_data@ == p.1
        }),
{
    let mut result: Vec<MkDeviceTestMode> = Vec::new();
    let number_of_testmodes = module_description.number_of_testmodes;
    let ghost m0 = module_description.unknown_data@;
    let mut i: usize = 0;
    proof {
        assert(modes_view(result@) =~= Seq::<ModeModel>::empty());
    }
    while i < number_of_testmodes
        invariant
            i <= number_of_testmodes,
            same_except_unknown(*old(module_description), *module_description),
            module_description.number_of_testmodes == number_of_testmodes,
            module_description.unknown_data.wf(),
            spec_take_modes(m0, "TESTMODE"@, 1, number_of_testmodes as nat, Seq::empty())
                == spec_take_modes(
                module_description.unknown_data@,
                "TESTMODE"@,
                (i + 1) as nat,
                number_of_testmodes as nat,
                modes_view(result@),
            ),
        decreases number_of_testmodes - i,
    {
        let ghost mv0 = modes_view(result@);
        let id = i + 1;
        let k_name = make_mode_key("TESTMODE", id, "NAME");
        let name = match module_description.unknown_data.remove_entry(k_name.as_str()) {
            Some(v) => v,
            None => String::new(),
        };
        let k_hint = make_mode_key("TESTMODE", id, "HINT");
        let description = match module_description.unknown_data.remove_entry(k_hint.as_str()) {
            Some(v) => v,
            None => String::new(),
        };
        let k_on = make_mode_key("TESTMODE", id, "SEQUENCE_ON");
        let sequence_on = match module_description.unknown_data.remove_entry(k_on.as_str()) {
            Some(v) => v,
            None => String::new(),
        };
        let k_off = make_mode_key("TESTMODE", id, "SEQUENCE_OFF");
        let sequence_off = match module_description.unknown_data.remove_entry(k_off.as_str()) {
            Some(v) => v,
            None => String::new(),
        };
        let mode = MkDeviceTestMode { testmode_id: id, name, description, sequence_on, sequence_off };
        result.push(mode);
        proof {
            assert(modes_view(result@) =~~= mv0.push(result@.last()@));
        }
        i = id;
    }
    result
}

/// Extracts the declared quick modes, removing their keys; fields that a
/// description leaves out default to the empty string.
pub fn get_quick_modes_and_remove_from_unknown(module_description: &mut MkModuleDescription) -> (r:
    Vec<MkDeviceQuickMode>)
    requires
        old(module_description).unknown_data.wf(),
    ensures
        same_except_unknown(*old(module_description), *final(module_description)),
        final(module_description).unknown_data.wf(),
        ({
            let p = spec_take_modes(
                old(module_description).unknown_data@,
                "QUICKMODE"@,
                1,
                old(module_description).number_of_quickmodes as nat,
                Seq::empty(),
            );
            quick_modes_view(r@) == p.0 && final(module_description).unknown_data@ == p.1
        }),
{
    let mut result: Vec<MkDeviceQuickMode> = Vec::new();
    let number_of_quickmodes = module_description.number_of_quickmodes;
    let ghost m0 = module_description.unknown_data@;
    let mut i: usize = 0;
    proof {
        assert(quick_modes_view(result@) =~= Seq::<ModeModel>::empty());
    }
    while i < number_of_quickmodes
        invariant
            i <= number_of_quickmodes,
            same_except_unknown(*old(module_description), *module_description),
            module_description.number_of_quickmodes == number_of_quickmodes,
            module_description.unknown_data.wf(),
            spec_take_modes(m0, "QUICKMODE"@, 1, number_of_quickmodes as nat, Seq::empty())
                == spec_take_modes(
                module_description.unknown_data@,
                "QUICKMODE"@,
                (i + 1) as nat,
                number_of_quickmodes as nat,
                quick_modes_view(result@),
            ),
        decreases number_of_quickmodes - i,
    {
        let ghost mv0 = quick_modes_view(result@);
        let id = i + 1;
        let k_name = make_mode_key("QUICKMODE", id, "NAME");
        let name = match module_description.unknown_data.remove_entry(k_name.as_str()) {
            Some(v) => v,
            None => String::new(),
        };
        let k_hint = make_mode_key("QUICKMODE", id, "HINT");
        let description = match module_description.unknown_data.remove_entry(k_hint.as_str()) {
            Some(v) => v,
            None => String::new(),
        };
        let k_on = make_mode_key("QUICKMODE", id, "SEQUENCE_ON");
        let sequence_on = match module_description.unknown_data.remove_entry(k_on.as_str()) {
            Some(v) => v,
            None => String::new(),
        };
        let k_off = make_mode_key("QUICKMODE", id, "SEQUENCE_OFF");
        let sequence_off = match module_description.unknown_data.remove_entry(k_off.as_str()) {
            Some(v) => v,
            None => String::new(),
        };
        let mode = MkDeviceQuickMode {
            testmode_id: id,
            name,
            description,
            sequence_on,
            sequence_off,
        };
        result.push(mode);
        proof {
            assert(quick_modes_view(result@) =~~= mv0.push(result@.last()@));
        }
        i = id;
    }
    result
}

/// Mathematical model of a whole module description.
#[verifier::ext_equal]
pub struct DescriptionModel {
    pub device_model: Seq<char>,
    pub number_of_testmodes: int,
    pub testmodes: Seq<ModeModel>,
    pub number_of_quickmodes: int,
    pub quickmodes: Seq<ModeModel>,
    pub cells: Seq<CellModel>,
    pub calibration_cells: Seq<CellModel>,
    pub editable_cells: Seq<usize>,
    pub locked_cells: Seq<usize>,
    pub unknown_data: Seq<(Seq<char>, Seq<char>)>,
}

impl View for MkModuleDescription {
    type V = DescriptionModel;

    open spec fn view(&self) -> DescriptionModel {
        DescriptionModel {
            device_model: self.device_model@,
            number_of_testmodes: self.number_of_testmodes as int,
            testmodes: modes_view(self.testmodes@),
            number_of_quickmodes: self.number_of_quickmodes as int,
            quickmodes: quick_modes_view(self.quickmodes@),
            cells: cells_view(self.cells@),
            calibration_cells: cells_view(self.calibration_cells@),
            editable_cells: self.editable_cells@,
            locked_cells: self.locked_cells@,
            unknown_data: self.unknown_data@,
        }
    }
}

/// What a whole description text yields: each typed field extracted in
/// order, every consumed key removed, and the first bad integer fatal.
pub open spec fn spec_new_module_description(s: Seq<char>) -> Result<DescriptionModel, ParseError> {
    let m0 = crate::module_description_parser::spec_parse_module_description(s);
    let e = spec_take_addr_key(m0, "EDITABLE_CELLS"@);
    let l = spec_take_addr_key(e.1, "LOCKED_CELLS"@);
    let dm = spec_take_key(l.1, "DEVICE_MODEL"@);
    match spec_count_of(dm.1, "TESTMODE NUMBER"@) {
        Err(err) => Err(err),
        Ok(ntm) => {
            let m4 = spec_take_key(dm.1, "TESTMODE NUMBER"@).1;
            let tm = spec_take_modes(m4, "TESTMODE"@, 1, ntm as nat, Seq::empty());
            match spec_count_of(tm.1, "QUICKMODE NUMBER"@) {
                Err(err) => Err(err),
                Ok(nqm) => {
                    let m6 = spec_take_key(tm.1, "QUICKMODE NUMBER"@).1;
                    let qm = spec_take_modes(m6, "QUICKMODE"@, 1, nqm as nat, Seq::empty());
                    match spec_cells_table(qm.1, "M"@) {
                        None => Err(ParseError::BadInteger),
                        Some(cells) => {
                            let m8 = qm.1.filter(
                                |e2: (Seq<char>, Seq<char>)| !starts_with(e2.0, "M "@),
                            );
                            match spec_cells_table(m8, "C"@) {
                                None => Err(ParseError::BadInteger),
                                Some(ccells) => {
                                    let m9 = m8.filter(
                                        |e2: (Seq<char>, Seq<char>)| !starts_with(e2.0, "C "@),
                                    );
                                    Ok(
                                        DescriptionModel {
                                            device_model: dm.0,
                                            number_of_testmodes: ntm as int,
                                            testmodes: tm.0,
                                            number_of_quickmodes: nqm as int,
                                            quickmodes: qm.0,
                                            cells: cells,
                                            calibration_cells: ccells,
                                            editable_cells: e.0,
                                            locked_cells: l.0,
                                            unknown_data: m9,
                                        },
                                    )
                                },
                            }
                        },
                    }
                },
            }
        },
    }
}

impl MkModuleDescription {
    /// Parses a full module description text into its typed table.
    ///
    /// The low-level section parser produces a key-value map; each typed
    /// field is then extracted in turn, removing its keys, so that the
    /// residual map holds exactly the unrecognized keys.  A count, default,
    /// bound or allowed value that is not a well-formed integer is a fatal
    /// [`ParseError`].
    pub fn new(input: &str) -> (r: Result<MkModuleDescription, ParseError>)
        ensures
            match r {
                Ok(md) => spec_new_module_description(input@) matches Ok(model) && md@ == model
                    && md.unknown_data.wf(),
                Err(e) => spec_new_module_description(input@) == Err::<DescriptionModel, ParseError>(
                    e,
                ),
            },
    {
        let mut result = MkModuleDescription {
            device_model: String::new(),
            number_of_testmodes: 0,
            testmodes: Vec::new(),
            number_of_quickmodes: 0,
            quickmodes: Vec::new(),
            cells: Vec::new(),
            calibration_cells: Vec::new(),
            editable_cells: Vec::new(),
            locked_cells: Vec::new(),
            unknown_data: crate::module_description_parser::parse_module_description(input),
        };
        result.editable_cells = get_editable_cells_and_remove_from_unknown(&mut result);
        result.locked_cells = get_locked_cells_and_remove_from_unknown(&mut result);
        result.device_model = get_device_model_and_remove_from_unknown(&mut result);
        result.number_of_testmodes = match get_number_of_testmodes_and_remove_from_unknown(
            &mut result,
        ) {
            Ok(n) => n,
            Err(e) => {
                return Err(e);
            },
        };
        result.testmodes = get_testmodes_and_remove_from_unknown(&mut result);
        result.number_of_quickmodes = match get_number_of_quickmodes_and_remove_from_unknown(
            &mut result,
        ) {
            Ok(n) => n,
            Err(e) => {
                return Err(e);
            },
        };
        result.quickmodes = get_quick_modes_and_remove_from_unknown(&mut result);
        result.cells = match get_cells_and_remove_from_unknown(&mut result) {
            Ok(c) => c,
            Err(e) => {
                return Err(e);
            },
        };
        result.calibration_cells = match get_calibration_cells_and_remove_from_unknown(
            &mut result,
        ) {
            Ok(c) => c,
            Err(e) => {
                return Err(e);
            },
        };
        proof {
            match spec_new_module_description(input@) {
                Ok(model) => {
                    assert(result@ =~~= model);
                },
                Err(_) => {
                    assert(false);
                },
            }
        }
        Ok(result)
    }
}

} // verus!
