//! Device communication logic: write diffs, command plans, reply
//! validation, telemetry transforms and the cancellable background-loop
//! state machines.
//!
//! Everything here is pure decision logic: a surrounding runtime owns the
//! serial transport, performs each [`RunnerAction`] it is handed, and
//! feeds the outcome back into the state machines.

use vstd::prelude::*;

use crate::device_config_parser::MkDeviceConfig;
use crate::mk_module_description::cells_view;
use crate::mk_module_description::CellModel;
use crate::mk_module_description::MkDeviceCell;
use crate::strutil::split_ws;
use crate::strutil::split_ws_str;
use crate::strutil::str_eq;
use vstd::utf8::encode_utf8;

verus! {

/// Everything that can go wrong while talking to the device.
#[derive(Clone, Copy, Debug, PartialEq, Eq, Structural)]
pub enum CommError {
    /// No transport is open.
    NotConnected,
    /// A shared resource could not be locked.
    LockUnavailable,
    /// A transport write, clear or read failed outright.
    TransportIo,
    /// The read-error budget ran out before the terminator arrived.
    Timeout,
    /// A reply had the wrong shape for its command.
    MalformedResponse,
    /// The description resource for the device model is bad.
    DescriptionParseError,
    /// An expected-empty acknowledgement was not empty.
    ProtocolNack,
    /// A configuration write with nothing to change.
    NoChangeRequested,
}

// ---------------------------------------------------------------------
// Configuration write diff
// ---------------------------------------------------------------------

/// The address/value pairs of the cells whose current value differs from
/// the cached one, folded left to right.
pub open spec fn spec_config_diff(
    cached: Seq<CellModel>,
    desired: Seq<CellModel>,
    k: int,
    acc: Seq<u8>,
) -> Seq<u8>
    decreases desired.len() - k,
{
    if k < 0 || k >= desired.len() {
        acc
    } else if desired[k].current_value != cached[k].current_value {
        spec_config_diff(
            cached,
            desired,
            k + 1,
            acc.push(desired[k].address as u8).push(desired[k].current_value),
        )
    } else {
        spec_config_diff(cached, desired, k + 1, acc)
    }
}

/// The bytes a configuration write sends: the changed address/value
/// pairs, closed by the `0xFF` sentinel, or nothing when no cell changed.
pub open spec fn spec_write_diff(cached: Seq<CellModel>, desired: Seq<CellModel>) -> Seq<u8> {
    let pairs = spec_config_diff(cached, desired, 0, Seq::empty());
    if pairs.len() > 0 {
        pairs.push(255u8)
    } else {
        pairs
    }
}

/// How many positions hold a changed current value, from `k` on.
pub open spec fn spec_changed_count(cached: Seq<CellModel>, desired: Seq<CellModel>, k: int) -> int
    decreases desired.len() - k,
{
    if k < 0 || k >= desired.len() {
        0
    } else if desired[k].current_value != cached[k].current_value {
        1 + spec_changed_count(cached, desired, k + 1)
    } else {
        spec_changed_count(cached, desired, k + 1)
    }
}

proof fn lemma_config_diff_len(cached: Seq<CellModel>, desired: Seq<CellModel>, k: int, acc: Seq<u8>)
    requires
        0 <= k <= desired.len(),
    ensures
        spec_config_diff(cached, desired, k, acc).len() == acc.len() + 2 * spec_changed_count(
            cached,
            desired,
            k,
        ),
        spec_changed_count(cached, desired, k) >= 0,
    decreases desired.len() - k,
{
    if k < desired.len() {
        if desired[k].current_value != cached[k].current_value {
            lemma_config_diff_len(
                cached,
                desired,
                k + 1,
                acc.push(desired[k].address as u8).push(desired[k].current_value),
            );
        } else {
            lemma_config_diff_len(cached, desired, k + 1, acc);
        }
    }
}

proof fn lemma_changed_count_zero(cached: Seq<CellModel>, desired: Seq<CellModel>, k: int)
    requires
        0 <= k <= desired.len(),
    ensures
        (spec_changed_count(cached, desired, k) == 0) <==> (forall|j: int|
            k <= j < desired.len() ==> (#[trigger] desired[j]).current_value
                == cached[j].current_value),
        spec_changed_count(cached, desired, k) >= 0,
    decreases desired.len() - k,
{
    if k < desired.len() {
        lemma_changed_count_zero(cached, desired, k + 1);
    }
}

/// The write diff is empty exactly when desired and cached agree on every
/// current value; otherwise it holds one address/value pair per changed
/// cell and ends in the `0xFF` sentinel.
pub proof fn lemma_write_diff_shape(cached: Seq<CellModel>, desired: Seq<CellModel>)
    ensures
        ({
            let d = spec_write_diff(cached, desired);
            &&& (d.len() == 0 <==> (forall|j: int|
                0 <= j < desired.len() ==> (#[trigger] desired[j]).current_value
                    == cached[j].current_value))
            &&& (d.len() != 0 ==> d.len() == 2 * spec_changed_count(cached, desired, 0) + 1
                && d.last() == 255u8)
        }),
{
    lemma_config_diff_len(cached, desired, 0, Seq::empty());
    lemma_changed_count_zero(cached, desired, 0);
}

/// Computes the bytes to send for a configuration change: each cell whose
/// current value differs from the cached configuration contributes its
/// address byte and its new value, and any change is closed by `0xFF`.
pub fn get_bytes_to_send_for_config_change(
    device_config: &MkDeviceConfig,
    cells: &[MkDeviceCell],
) -> (r: Vec<u8>)
    requires
        cells@.len() <= device_config.cells@.len(),
    ensures
        r@ == spec_write_diff(cells_view(device_config.cells@), cells_view(cells@)),
{
    let ghost cached = cells_view(device_config.cells@);
    let ghost desired = cells_view(cells@);
    let mut bytes_to_send: Vec<u8> = Vec::new();
    let n = cells.len();
    let mut k: usize = 0;
    proof {
        assert(bytes_to_send@ =~= Seq::<u8>::empty());
    }
    while k < n
        invariant
            k <= n,
            n == cells@.len(),
            n <= device_config.cells@.len(),
            spec_config_diff(cached, desired, 0, Seq::empty()) == spec_config_diff(
                cached,
                desired,
                k as int,
                bytes_to_send@,
            ),
        decreases n - k,
    {
        if cells[k].current_value != device_config.cells[k].current_value {
            let addr = #[verifier::truncate] (cells[k].address as u8);
            proof {
                assert(desired[k as int] == cells@[k as int]@);
                assert(addr == desired[k as int].address as u8);
            }
            bytes_to_send.push(addr);
            bytes_to_send.push(cells[k].current_value);
        }
        k = k + 1;
    }
    if bytes_to_send.len() > 0 {
        bytes_to_send.push(255);
    }
    bytes_to_send
}

// ---------------------------------------------------------------------
// Mode sequences
// ---------------------------------------------------------------------

/// Drops every leading occurrence of `c`.
pub open spec fn strip_leading(c: char, s: Seq<char>) -> Seq<char>
    decreases s.len(),
{
    if s.len() > 0 && s[0] == c {
        strip_leading(c, s.skip(1))
    } else {
        s
    }
}

/// What a mode-sequence string denotes: exactly two whitespace-separated
/// tokens, the send bytes with their leading `'a'` markers dropped and
/// the expected reply bytes with their leading `'#'` markers dropped.
pub open spec fn spec_extract_send_recv(s: Seq<char>) -> Option<(Seq<u8>, Seq<u8>)> {
    let toks = split_ws(s);
    if toks.len() == 2 {
        Some((encode_utf8(strip_leading('a', toks[0])), encode_utf8(strip_leading('#', toks[1]))))
    } else {
        None
    }
}

/// Drops every leading occurrence of `c` from a string slice.
fn strip_leading_chars(c: char, s: &str) -> (r: &str)
    ensures
        r@ == strip_leading(c, s@),
{
    let len = s.unicode_len();
    let mut start: usize = 0;
    proof {
        assert(s@.skip(0) =~= s@);
    }
    while start < len && s.get_char(start) == c
        invariant
            start <= len,
            strip_leading(c, s@) == strip_leading(c, s@.skip(start as int)),
        decreases len - start,
    {
        proof {
            assert(s@.skip(start as int).skip(1) =~= s@.skip(start as int + 1));
        }
        start = start + 1;
    }
    proof {
        if start == len {
            assert(s@.skip(start as int) =~= Seq::<char>::empty());
        }
        assert(strip_leading(c, s@.skip(start as int)) == s@.skip(start as int));
        assert(s@.subrange(start as int, len as int) =~= s@.skip(start as int));
    }
    s.substring_char(start, len)
}

/// Splits a mode sequence `"a<send> #<recv>"` into the bytes to send and
/// the reply to expect, both stripped of their leading markers.
pub fn extract_send_recv_seq(sequence_str: &str) -> (r: Option<(Vec<u8>, Vec<u8>)>)
    ensures
        ({
            match r {
                Some(p) => spec_extract_send_recv(sequence_str@) matches Some(q) && p.0@ == q.0
                    && p.1@ == q.1,
                None => spec_extract_send_recv(sequence_str@) is None,
            }
        }),
{
    let toks = split_ws_str(sequence_str);
    let ghost tv = toks@.map_values(|t: String| t@);
    if toks.len() == 2 {
        proof {
            assert(tv[0] == toks@[0]@);
            assert(tv[1] == toks@[1]@);
        }
        let send_s = strip_leading_chars('a', toks[0].as_str());
        let send = send_s.as_bytes_vec();
        let recv_s = strip_leading_chars('#', toks[1].as_str());
        let recv = recv_s.as_bytes_vec();
        Some((send, recv))
    } else {
        None
    }
}

// ---------------------------------------------------------------------
// Telemetry transforms
// ---------------------------------------------------------------------

/// The RSSI a raw reading reports, in tenths of a dBm: each raw step is
/// half a dB of attenuation below zero.
pub fn rssi_tenths_dbm(raw: u8) -> (r: i32)
    ensures
        r as int == -5 * (raw as int),
{
    -(raw as i32) * 5
}

/// The temperature a raw reading reports, in degrees Celsius: the raw
/// value is offset by 128.
pub fn temperature_celsius(raw: u8) -> (r: i32)
    ensures
        r as int == raw as int - 128,
{
    (raw as i32) - 128
}

/// The supply voltage a raw reading reports, in millivolts: each raw
/// step is 30 mV.
pub fn voltage_millivolts(raw: u8) -> (r: u32)
    ensures
        r as int == 30 * (raw as int),
{
    (raw as u32) * 30
}

// ---------------------------------------------------------------------
// Command exchanges
// ---------------------------------------------------------------------

/// Whether and how the outbound buffer is cleared before an exchange.
#[derive(Clone, Copy, Debug, PartialEq, Eq, Structural)]
pub enum ClearPolicy {
    /// No clear before this exchange.
    NoClear,
    /// Clear first; a failed clear aborts the operation.
    ClearChecked,
    /// Clear first; the result is ignored.
    ClearUnchecked,
}

/// How the reply to an exchange is read.
#[derive(Clone, Copy, Debug, PartialEq, Eq, Structural)]
pub enum ReadMode {
    /// Read byte by byte up to the terminator.
    UntilTerminator,
    /// Drain whatever the transport has.
    DrainAvailable,
}

/// What the reply to an exchange must look like.
#[derive(Debug)]
pub enum Expect {
    /// The empty acknowledgement.
    AckEmpty,
    /// Exactly one byte: a scalar telemetry value.
    ScalarLen,
    /// More than one byte: the analog vector.
    VectorLen,
    /// Byte-for-byte equality with an expected sequence.
    ExactBytes(Vec<u8>),
    /// Anything; the payload is kept for decoding.
    AnyReply,
}

/// Mathematical model of an expectation.
#[verifier::ext_equal]
pub enum ExpectModel {
    AckEmpty,
    ScalarLen,
    VectorLen,
    ExactBytes(Seq<u8>),
    AnyReply,
}

impl View for Expect {
    type V = ExpectModel;

    open spec fn view(&self) -> ExpectModel {
        match self {
            Expect::AckEmpty => ExpectModel::AckEmpty,
            Expect::ScalarLen => ExpectModel::ScalarLen,
            Expect::VectorLen => ExpectModel::VectorLen,
            Expect::ExactBytes(b) => ExpectModel::ExactBytes(b@),
            Expect::AnyReply => ExpectModel::AnyReply,
        }
    }
}

/// One request/reply round: an optional buffer clear, the bytes to send,
/// how to read the reply and what the reply must look like.
#[derive(Debug)]
pub struct Exchange {
    pub clear: ClearPolicy,
    pub request: Vec<u8>,
    pub read: ReadMode,
    pub expect: Expect,
}

/// Mathematical model of an exchange.
#[verifier::ext_equal]
pub struct ExchangeModel {
    pub clear: ClearPolicy,
    pub request: Seq<u8>,
    pub read: ReadMode,
    pub expect: ExpectModel,
}

impl View for Exchange {
    type V = ExchangeModel;

    open spec fn view(&self) -> ExchangeModel {
        ExchangeModel { clear: self.clear, request: self.request@, read: self.read, expect: self.expect@ }
    }
}

pub open spec fn plan_view(p: Seq<Exchange>) -> Seq<ExchangeModel> {
    p.map_values(|e: Exchange| e@)
}

/// Whether a reply satisfies an expectation.
pub open spec fn spec_reply_meets(e: ExpectModel, payload: Seq<u8>) -> bool {
    match e {
        ExpectModel::AckEmpty => payload.len() == 0,
        ExpectModel::ScalarLen => payload.len() == 1,
        ExpectModel::VectorLen => payload.len() > 1,
        ExpectModel::ExactBytes(b) => payload == b,
        ExpectModel::AnyReply => true,
    }
}

/// The error an unmet expectation surfaces as: a non-empty ack or a wrong
/// echo is a protocol refusal, a wrong telemetry length a malformed reply.
pub open spec fn spec_expect_error(e: ExpectModel) -> CommError {
    match e {
        ExpectModel::AckEmpty => CommError::ProtocolNack,
        ExpectModel::ScalarLen => CommError::MalformedResponse,
        ExpectModel::VectorLen => CommError::MalformedResponse,
        ExpectModel::ExactBytes(_) => CommError::ProtocolNack,
        ExpectModel::AnyReply => CommError::ProtocolNack,
    }
}

fn vec_u8_eq(a: &Vec<u8>, b: &Vec<u8>) -> (r: bool)
    ensures
        r == (a@ == b@),
{
    let n = a.len();
    if n != b.len() {
        proof {
            if a@ == b@ {
                assert(a@.len() == b@.len());
            }
        }
        return false;
    }
    let mut i: usize = 0;
    while i < n
        invariant
            i <= n,
            n == a@.len() == b@.len(),
            forall|j: int| 0 <= j < i ==> a@[j] == b@[j],
        decreases n - i,
    {
        if a[i] != b[i] {
            proof {
                if a@ == b@ {
                    assert(a@[i as int] == b@[i as int]);
                }
            }
            return false;
        }
        i = i + 1;
    }
    proof {
        assert(a@ =~= b@);
    }
    true
}

/// Decides whether a reply satisfies an expectation.
pub fn reply_meets(e: &Expect, payload: &Vec<u8>) -> (r: bool)
    ensures
        r == spec_reply_meets(e@, payload@),
{
    match e {
        Expect::AckEmpty => payload.len() == 0,
        Expect::ScalarLen => payload.len() == 1,
        Expect::VectorLen => payload.len() > 1,
        Expect::ExactBytes(b) => vec_u8_eq(payload, b),
        Expect::AnyReply => true,
    }
}

fn expect_error(e: &Expect) -> (r: CommError)
    ensures
        r == spec_expect_error(e@),
{
    match e {
        Expect::AckEmpty => CommError::ProtocolNack,
        Expect::ScalarLen => CommError::MalformedResponse,
        Expect::VectorLen => CommError::MalformedResponse,
        Expect::ExactBytes(_) => CommError::ProtocolNack,
        Expect::AnyReply => CommError::ProtocolNack,
    }
}

fn clone_u8_vec(v: &Vec<u8>) -> (r: Vec<u8>)
    ensures
        r@ == v@,
{
    let n = v.len();
    let mut r: Vec<u8> = Vec::new();
    let mut i: usize = 0;
    while i < n
        invariant
            i <= n,
            n == v@.len(),
            r@ == v@.take(i as int),
        decreases n - i,
    {
        r.push(v[i]);
        proof {
            assert(v@.take(i + 1).drop_last() =~= v@.take(i as int));
            assert(r@ =~= v@.take(i + 1));
        }
        i = i + 1;
    }
    proof {
        assert(v@.take(n as int) =~= v@);
    }
    r
}

// ---------------------------------------------------------------------
// Command plans
// ---------------------------------------------------------------------

/// One exchange with a one-byte request, read until the terminator.
fn single_opcode_plan(clear: ClearPolicy, opcode: u8, expect: Expect) -> (r: Vec<Exchange>)
    ensures
        r@.len() == 1,
        r@[0]@ == (ExchangeModel {
            clear: clear,
            request: seq![opcode],
            read: ReadMode::UntilTerminator,
            expect: expect@,
        }),
{
    let ghost em = expect@;
    let mut request: Vec<u8> = Vec::new();
    request.push(opcode);
    let ex = Exchange { clear, request, read: ReadMode::UntilTerminator, expect };
    let mut plan: Vec<Exchange> = Vec::new();
    proof {
        assert(ex@.request =~= seq![opcode]);
    }
    plan.push(ex);
    plan
}

/// The plan that fetches a configuration or calibration dump: clear the
/// outbound buffer (a failure aborts), send the dump opcode `0x30`, and
/// keep whatever terminator-delimited reply arrives for decoding.
pub fn config_request_plan() -> (r: Vec<Exchange>)
    ensures
        r@.len() == 1,
        r@[0]@ == (ExchangeModel {
            clear: ClearPolicy::ClearChecked,
            request: seq![0x30u8],
            read: ReadMode::UntilTerminator,
            expect: ExpectModel::AnyReply,
        }),
{
    single_opcode_plan(ClearPolicy::ClearChecked, 0x30, Expect::AnyReply)
}

/// The plan that writes a configuration diff, or the error that refuses
/// the write outright.
///
/// With no cell changed the write is refused as [`CommError::NoChangeRequested`]
/// before any exchange exists, so nothing ever reaches the transport.
/// Otherwise the write is a two-phase handshake: send `'M'` and require
/// an empty acknowledgement, then send the diff and require another.
pub fn set_config_plan(device_config: &MkDeviceConfig, cells: &[MkDeviceCell]) -> (r: Result<
    Vec<Exchange>,
    CommError,
>)
    requires
        cells@.len() <= device_config.cells@.len(),
    ensures
        ({
            let diff = spec_write_diff(cells_view(device_config.cells@), cells_view(cells@));
            if diff.len() == 0 {
                r == Err::<Vec<Exchange>, CommError>(CommError::NoChangeRequested)
            } else {
                r matches Ok(p) && p@.len() == 2 && p@[0]@ == (ExchangeModel {
                    clear: ClearPolicy::ClearChecked,
                    request: seq![77],
                    read: ReadMode::UntilTerminator,
                    expect: ExpectModel::AckEmpty,
                }) && p@[1]@ == (ExchangeModel {
                    clear: ClearPolicy::ClearUnchecked,
                    request: diff,
                    read: ReadMode::UntilTerminator,
                    expect: ExpectModel::AckEmpty,
                })
            }
        }),
{
    let diff = get_bytes_to_send_for_config_change(device_config, cells);
    if diff.len() == 0 {
        return Err(CommError::NoChangeRequested);
    }
    let mut req1: Vec<u8> = Vec::new();
    req1.push(77);
    let ex1 = Exchange {
        clear: ClearPolicy::ClearChecked,
        request: req1,
        read: ReadMode::UntilTerminator,
        expect: Expect::AckEmpty,
    };
    let ex2 = Exchange {
        clear: ClearPolicy::ClearUnchecked,
        request: diff,
        read: ReadMode::UntilTerminator,
        expect: Expect::AckEmpty,
    };
    let mut plan: Vec<Exchange> = Vec::new();
    proof {
        assert(ex1@.request =~= seq![77]);
    }
    plan.push(ex1);
    plan.push(ex2);
    Ok(plan)
}

/// A configuration write with nothing to change always fails without
/// touching the transport: when desired and cached agree on every
/// current value, the diff is empty, so [`set_config_plan`] yields
/// [`CommError::NoChangeRequested`] and no exchange.
pub proof fn lemma_set_config_empty_diff_fails(cached: Seq<CellModel>, desired: Seq<CellModel>)
    requires
        forall|j: int|
            0 <= j < desired.len() ==> (#[trigger] desired[j]).current_value
                == cached[j].current_value,
    ensures
        spec_write_diff(cached, desired).len() == 0,
{
    lemma_write_diff_shape(cached, desired);
}

/// The plan that sends the factory-reset sequence `@TM` and requires an
/// empty acknowledgement.
pub fn factory_reset_plan() -> (r: Vec<Exchange>)
    ensures
        r@.len() == 1,
        r@[0]@ == (ExchangeModel {
            clear: ClearPolicy::ClearUnchecked,
            request: seq![64, 84, 77],
            read: ReadMode::UntilTerminator,
            expect: ExpectModel::AckEmpty,
        }),
{
    let mut request: Vec<u8> = Vec::new();
    request.push(64);
    request.push(84);
    request.push(77);
    let ex = Exchange {
        clear: ClearPolicy::ClearUnchecked,
        request,
        read: ReadMode::UntilTerminator,
        expect: Expect::AckEmpty,
    };
    let mut plan: Vec<Exchange> = Vec::new();
    proof {
        assert(ex@.request =~= seq![64, 84, 77]);
    }
    plan.push(ex);
    plan
}

/// The plan that switches the RF channel: send `'C'` and require an empty
/// acknowledgement, then send the channel byte and require another; both
/// phases must succeed for the switch to count.
pub fn switch_channel_plan(channel: u8) -> (r: Vec<Exchange>)
    ensures
        r@.len() == 2,
        r@[0]@ == (ExchangeModel {
            clear: ClearPolicy::NoClear,
            request: seq![67],
            read: ReadMode::UntilTerminator,
            expect: ExpectModel::AckEmpty,
        }),
        r@[1]@ == (ExchangeModel {
            clear: ClearPolicy::NoClear,
            request: seq![channel],
            read: ReadMode::UntilTerminator,
            expect: ExpectModel::AckEmpty,
        }),
{
    let mut req1: Vec<u8> = Vec::new();
    req1.push(67);
    let ex1 = Exchange {
        clear: ClearPolicy::NoClear,
        request: req1,
        read: ReadMode::UntilTerminator,
        expect: Expect::AckEmpty,
    };
    let mut req2: Vec<u8> = Vec::new();
    req2.push(channel);
    let ex2 = Exchange {
        clear: ClearPolicy::NoClear,
        request: req2,
        read: ReadMode::UntilTerminator,
        expect: Expect::AckEmpty,
    };
    let mut plan: Vec<Exchange> = Vec::new();
    proof {
        assert(ex1@.request =~= seq![67]);
        assert(ex2@.request =~= seq![channel]);
    }
    plan.push(ex1);
    plan.push(ex2);
    plan
}

/// The plan that reads the current channel's RSSI: opcode `'S'`, one
/// payload byte expected.
pub fn rssi_request_plan() -> (r: Vec<Exchange>)
    ensures
        r@.len() == 1,
        r@[0]@ == (ExchangeModel {
            clear: ClearPolicy::ClearUnchecked,
            request: seq![83],
            read: ReadMode::UntilTerminator,
            expect: ExpectModel::ScalarLen,
        }),
{
    single_opcode_plan(ClearPolicy::ClearUnchecked, 83, Expect::ScalarLen)
}

/// The plan that reads the analog pins: opcode `'A'`, a payload of more
/// than one byte expected.
pub fn analog_request_plan() -> (r: Vec<Exchange>)
    ensures
        r@.len() == 1,
        r@[0]@ == (ExchangeModel {
            clear: ClearPolicy::ClearUnchecked,
            request: seq![65],
            read: ReadMode::UntilTerminator,
            expect: ExpectModel::VectorLen,
        }),
{
    single_opcode_plan(ClearPolicy::ClearUnchecked, 65, Expect::VectorLen)
}

/// The plan that reads the digital pins: opcode `'D'`, one payload byte
/// expected.
pub fn digital_request_plan() -> (r: Vec<Exchange>)
    ensures
        r@.len() == 1,
        r@[0]@ == (ExchangeModel {
            clear: ClearPolicy::ClearUnchecked,
            request: seq![68],
            read: ReadMode::UntilTerminator,
            expect: ExpectModel::ScalarLen,
        }),
{
    single_opcode_plan(ClearPolicy::ClearUnchecked, 68, Expect::ScalarLen)
}

/// The plan that reads the temperature: opcode `'U'`, one payload byte
/// expected.
pub fn temperature_request_plan() -> (r: Vec<Exchange>)
    ensures
        r@.len() == 1,
        r@[0]@ == (ExchangeModel {
            clear: ClearPolicy::ClearUnchecked,
            request: seq![85],
            read: ReadMode::UntilTerminator,
            expect: ExpectModel::ScalarLen,
        }),
{
    single_opcode_plan(ClearPolicy::ClearUnchecked, 85, Expect::ScalarLen)
}

/// The plan that reads the supply voltage: opcode `'V'`, one payload byte
/// expected.
pub fn voltage_request_plan() -> (r: Vec<Exchange>)
    ensures
        r@.len() == 1,
        r@[0]@ == (ExchangeModel {
            clear: ClearPolicy::ClearUnchecked,
            request: seq![86],
            read: ReadMode::UntilTerminator,
            expect: ExpectModel::ScalarLen,
        }),
{
    single_opcode_plan(ClearPolicy::ClearUnchecked, 86, Expect::ScalarLen)
}

/// The plan that executes a mode sequence: send the send-token's bytes;
/// when the expected reply ends with the terminator marker, read up to
/// the terminator and require the reply without that marker, otherwise
/// drain the transport and require the reply exactly.
pub fn mode_sequence_plan(sequence_str: &str) -> (r: Option<Vec<Exchange>>)
    ensures
        ({
            match spec_extract_send_recv(sequence_str@) {
                None => r is None,
                Some(q) => r matches Some(p) && p@.len() == 1 && p@[0]@ == (ExchangeModel {
                    clear: ClearPolicy::ClearUnchecked,
                    request: q.0,
                    read: if q.1.len() > 0 && q.1.last() == 62 {
                        ReadMode::UntilTerminator
                    } else {
                        ReadMode::DrainAvailable
                    },
                    expect: ExpectModel::ExactBytes(
                        if q.1.len() > 0 && q.1.last() == 62 {
                            q.1.drop_last()
                        } else {
                            q.1
                        },
                    ),
                }),
            }
        }),
{
    match extract_send_recv_seq(sequence_str) {
        None => None,
        Some((send, recv)) => {
            let n = recv.len();
            if n > 0 && recv[n - 1] == 62 {
                let mut expected = recv;
                expected.pop();
                let ex = Exchange {
                    clear: ClearPolicy::ClearUnchecked,
                    request: send,
                    read: ReadMode::UntilTerminator,
                    expect: Expect::ExactBytes(expected),
                };
                let mut plan: Vec<Exchange> = Vec::new();
                plan.push(ex);
                Some(plan)
            } else {
                let ex = Exchange {
                    clear: ClearPolicy::ClearUnchecked,
                    request: send,
                    read: ReadMode::DrainAvailable,
                    expect: Expect::ExactBytes(recv),
                };
                let mut plan: Vec<Exchange> = Vec::new();
                plan.push(ex);
                Some(plan)
            }
        },
    }
}

// ---------------------------------------------------------------------
// Plan runner
// ---------------------------------------------------------------------

/// Where the runner stands inside the current exchange.
#[derive(Clone, Copy, Debug, PartialEq, Eq, Structural)]
pub enum RunnerPhase {
    NeedClear,
    NeedSend,
    AwaitReply,
}

/// The next transport operation the surrounding runtime must perform.
#[derive(Debug)]
pub enum RunnerAction {
    /// Clear the outbound buffer.
    Clear,
    /// Write these bytes and flush.
    Send(Vec<u8>),
    /// Read a terminator-delimited reply.
    ReadTerminated,
    /// Drain whatever the transport has.
    ReadAvailable,
    /// The plan is over; ask for the outcome.
    Finished,
}

/// The phase an exchange starts in: its clear, unless it has none.
pub open spec fn entry_phase(e: ExchangeModel) -> RunnerPhase {
    if e.clear is NoClear {
        RunnerPhase::NeedSend
    } else {
        RunnerPhase::NeedClear
    }
}

/// Drives a plan of exchanges against events fed back by the runtime.
///
/// The runtime asks for the [`RunnerAction`] to perform, performs it, and
/// reports what happened; the runner sequences the exchanges, aborts the
/// plan on the first failure, and keeps every accepted reply.
#[derive(Debug)]
pub struct ExchangeRunner {
    pub plan: Vec<Exchange>,
    pub idx: usize,
    pub phase: RunnerPhase,
    pub replies: Vec<Vec<u8>>,
    pub failure: Option<CommError>,
}

impl ExchangeRunner {
    pub open spec fn plan_model(&self) -> Seq<ExchangeModel> {
        plan_view(self.plan@)
    }

    pub open spec fn replies_model(&self) -> Seq<Seq<u8>> {
        self.replies@.map_values(|v: Vec<u8>| v@)
    }

    /// The plan is over: every exchange succeeded or one failed.
    pub open spec fn finished(&self) -> bool {
        self.failure is Some || self.idx == self.plan@.len()
    }

    pub open spec fn wf(&self) -> bool {
        &&& self.idx <= self.plan@.len()
        &&& (self.idx < self.plan@.len() && self.failure is None && self.phase
            is NeedClear ==> !(self.plan_model()[self.idx as int].clear is NoClear))
    }

    /// Starts a plan from its first exchange.
    pub fn new(plan: Vec<Exchange>) -> (r: ExchangeRunner)
        ensures
            r.wf(),
            r.plan_model() == plan_view(plan@),
            r.idx == 0,
            r.failure is None,
            r.replies_model() == Seq::<Seq<u8>>::empty(),
            plan@.len() > 0 ==> r.phase == entry_phase(plan_view(plan@)[0]),
            r.finished() <==> plan@.len() == 0,
    {
        let phase = if plan.len() > 0 {
            match plan[0].clear {
                ClearPolicy::NoClear => RunnerPhase::NeedSend,
                _ => RunnerPhase::NeedClear,
            }
        } else {
            RunnerPhase::NeedSend
        };
        let r = ExchangeRunner { plan, idx: 0, phase, replies: Vec::new(), failure: None };
        proof {
            assert(r.replies_model() =~= Seq::<Seq<u8>>::empty());
        }
        r
    }

    /// The next operation the runtime must perform.
    pub fn next_action(&self) -> (a: RunnerAction)
        requires
            self.wf(),
        ensures
            ({
                match a {
                    RunnerAction::Finished => self.finished(),
                    RunnerAction::Clear => !self.finished() && self.phase is NeedClear,
                    RunnerAction::Send(v) => !self.finished() && self.phase is NeedSend && v@
                        == self.plan_model()[self.idx as int].request,
                    RunnerAction::ReadTerminated => !self.finished() && self.phase is AwaitReply
                        && self.plan_model()[self.idx as int].read is UntilTerminator,
                    RunnerAction::ReadAvailable => !self.finished() && self.phase is AwaitReply
                        && self.plan_model()[self.idx as int].read is DrainAvailable,
                }
            }),
    {
        if self.failure.is_some() || self.idx >= self.plan.len() {
            return RunnerAction::Finished;
        }
        match self.phase {
            RunnerPhase::NeedClear => RunnerAction::Clear,
            RunnerPhase::NeedSend => RunnerAction::Send(clone_u8_vec(&self.plan[self.idx].request)),
            RunnerPhase::AwaitReply => match self.plan[self.idx].read {
                ReadMode::UntilTerminator => RunnerAction::ReadTerminated,
                ReadMode::DrainAvailable => RunnerAction::ReadAvailable,
            },
        }
    }

    /// Takes the outcome of the buffer clear: a failed checked clear
    /// aborts the plan, an unchecked one never does.
    pub fn on_clear_result(&mut self, ok: bool)
        requires
            old(self).wf(),
            !old(self).finished(),
            old(self).phase is NeedClear,
        ensures
            final(self).wf(),
            final(self).plan_model() == old(self).plan_model(),
            final(self).replies_model() == old(self).replies_model(),
            final(self).idx == old(self).idx,
            if ok || old(self).plan_model()[old(self).idx as int].clear is ClearUnchecked {
                final(self).failure is None && final(self).phase is NeedSend
                    && !final(self).finished()
            } else {
                final(self).failure == Some(CommError::TransportIo) && final(self).finished()
            },
    {
        if ok {
            self.phase = RunnerPhase::NeedSend;
        } else {
            match self.plan[self.idx].clear {
                ClearPolicy::ClearUnchecked => {
                    self.phase = RunnerPhase::NeedSend;
                },
                _ => {
                    self.failure = Some(CommError::TransportIo);
                },
            }
        }
    }

    /// Takes the outcome of the write: a failed write aborts the plan.
    pub fn on_send_result(&mut self, ok: bool)
        requires
            old(self).wf(),
            !old(self).finished(),
            old(self).phase is NeedSend,
        ensures
            final(self).wf(),
            final(self).plan_model() == old(self).plan_model(),
            final(self).replies_model() == old(self).replies_model(),
            final(self).idx == old(self).idx,
            if ok {
                final(self).failure is None && final(self).phase is AwaitReply
                    && !final(self).finished()
            } else {
                final(self).failure == Some(CommError::TransportIo) && final(self).finished()
            },
    {
        if ok {
            self.phase = RunnerPhase::AwaitReply;
        } else {
            self.failure = Some(CommError::TransportIo);
        }
    }

    /// Takes a completed reply: one that meets the exchange's expectation
    /// is kept and the plan advances; any other aborts the plan with the
    /// expectation's error.
    pub fn on_reply(&mut self, payload: Vec<u8>)
        requires
            old(self).wf(),
            !old(self).finished(),
            old(self).phase is AwaitReply,
        ensures
            final(self).wf(),
            final(self).plan_model() == old(self).plan_model(),
            ({
                let ex = old(self).plan_model()[old(self).idx as int];
                if spec_reply_meets(ex.expect, payload@) {
                    &&& final(self).failure is None
                    &&& final(self).idx == old(self).idx + 1
                    &&& final(self).replies_model() == old(self).replies_model().push(payload@)
                    &&& (final(self).idx < old(self).plan_model().len() ==> final(self).phase
                        == entry_phase(old(self).plan_model()[final(self).idx as int]))
                    &&& (final(self).finished() <==> old(self).idx + 1 == old(self).plan_model().len())
                } else {
                    &&& final(self).failure == Some(spec_expect_error(ex.expect))
                    &&& final(self).finished()
                    &&& final(self).replies_model() == old(self).replies_model()
                }
            }),
    {
        let n = self.plan.len();
        let meets = reply_meets(&self.plan[self.idx].expect, &payload);
        if meets {
            let ghost r0 = self.replies_model();
            self.replies.push(payload);
            proof {
                assert(self.replies_model() =~= r0.push(self.replies@.last()@));
            }
            self.idx = self.idx + 1;
            if self.idx < n {
                self.phase = match self.plan[self.idx].clear {
                    ClearPolicy::NoClear => RunnerPhase::NeedSend,
                    _ => RunnerPhase::NeedClear,
                };
            }
        } else {
            let e = expect_error(&self.plan[self.idx].expect);
            self.failure = Some(e);
        }
    }

    /// Takes a reply that never completed: the plan aborts as timed out.
    pub fn on_reply_timeout(&mut self)
        requires
            old(self).wf(),
            !old(self).finished(),
            old(self).phase is AwaitReply,
        ensures
            final(self).wf(),
            final(self).plan_model() == old(self).plan_model(),
            final(self).replies_model() == old(self).replies_model(),
            final(self).failure == Some(CommError::Timeout),
            final(self).finished(),
    {
        self.failure = Some(CommError::Timeout);
    }

    /// The outcome so far: the first failure, or success.
    pub fn outcome(&self) -> (r: Result<(), CommError>)
        ensures
            match self.failure {
                Some(e) => r == Err::<(), CommError>(e),
                None => r == Ok::<(), CommError>(()),
            },
    {
        match self.failure {
            Some(e) => Err(e),
            None => Ok(()),
        }
    }

    /// The most recent accepted reply, if any.
    pub fn last_reply(&self) -> (r: Option<&Vec<u8>>)
        ensures
            match r {
                Some(v) => self.replies_model().len() > 0 && v@ == self.replies_model().last(),
                None => self.replies_model().len() == 0,
            },
    {
        let n = self.replies.len();
        if n > 0 {
            let v = &self.replies[n - 1];
            proof {
                assert(self.replies_model()[n - 1] == self.replies@[n - 1]@);
            }
            Some(v)
        } else {
            None
        }
    }
}

// ---------------------------------------------------------------------
// Device session
// ---------------------------------------------------------------------

/// The session's own state: whether a transport is open, and the last
/// fetched configuration.  The transport handle itself lives with the
/// runtime that performs the I/O; the session decides what each
/// operation may do and keeps the cache that configuration writes are
/// diffed against.
#[derive(Debug)]
pub struct DeviceSession {
    pub connected: bool,
    pub cached_config: Option<MkDeviceConfig>,
}

impl DeviceSession {
    /// A fresh session: disconnected, nothing cached.
    pub fn new() -> (r: DeviceSession)
        ensures
            !r.connected,
            r.cached_config is None,
    {
        DeviceSession { connected: false, cached_config: None }
    }

    /// Notes that a transport was opened; opening over an existing
    /// connection replaces the handle, so the session stays connected.
    pub fn on_connect(&mut self)
        ensures
            final(self).connected,
            final(self).cached_config == old(self).cached_config,
    {
        self.connected = true;
    }

    /// Notes that the transport was dropped; the cached configuration
    /// survives a disconnect.
    pub fn on_disconnect(&mut self)
        ensures
            !final(self).connected,
            final(self).cached_config == old(self).cached_config,
    {
        self.connected = false;
    }

    /// Resets the whole session state: disconnected and nothing cached.
    pub fn reset(&mut self)
        ensures
            !final(self).connected,
            final(self).cached_config is None,
    {
        self.connected = false;
        self.cached_config = None;
    }

    /// The plan that fetches a configuration dump, or [`CommError::NotConnected`]
    /// when no transport is open.
    pub fn begin_config_fetch(&self) -> (r: Result<Vec<Exchange>, CommError>)
        ensures
            ({
                if !self.connected {
                    r == Err::<Vec<Exchange>, CommError>(CommError::NotConnected)
                } else {
                    r matches Ok(p) && p@.len() == 1 && p@[0]@ == (ExchangeModel {
                        clear: ClearPolicy::ClearChecked,
                        request: seq![0x30u8],
                        read: ReadMode::UntilTerminator,
                        expect: ExpectModel::AnyReply,
                    })
                }
            }),
    {
        if !self.connected {
            return Err(CommError::NotConnected);
        }
        Ok(config_request_plan())
    }

    /// Decodes a fetched dump against its module description and caches
    /// the result; a dump whose header does not decode, or that is longer
    /// than the description's cell table, is a malformed response and
    /// leaves the cache alone.
    pub fn finish_config_fetch(
        &mut self,
        dump: &[u8],
        description: crate::mk_module_description::MkModuleDescription,
    ) -> (r: Result<MkDeviceConfig, CommError>)
        ensures
            ({
                match r {
                    Ok(cfg) => {
                        &&& crate::device_config_parser::spec_device_information(dump@)
                            matches Some(t) && cfg.model@ == t.0 && cfg.hw_version@ == t.1
                            && cfg.firmware_version@ == t.2
                        &&& dump@.len() <= description.cells@.len()
                        &&& cells_view(cfg.cells@) == crate::device_config_parser::spec_read_unlocked(
                            dump@,
                            cells_view(description.cells@),
                            description.locked_cells@,
                        )
                        &&& final(self).cached_config matches Some(c2) && c2@ == cfg@
                        &&& final(self).connected == old(self).connected
                    },
                    Err(e) => {
                        &&& e == CommError::MalformedResponse
                        &&& (crate::device_config_parser::spec_device_information(dump@) is None
                            || dump@.len() > description.cells@.len())
                        &&& *final(self) == *old(self)
                    },
                }
            }),
    {
        match crate::device_config_parser::parse_device_config(dump, description) {
            Ok(cfg) => {
                let copy = cfg.clone();
                self.cached_config = Some(cfg);
                Ok(copy)
            },
            Err(_) => Err(CommError::MalformedResponse),
        }
    }

    /// The plan that writes a changed cell set, or the error that refuses
    /// the write: [`CommError::NotConnected`] without a transport, and
    /// [`CommError::NoChangeRequested`] when there is no cached
    /// configuration to diff against or when no cell changed — in either
    /// refusal no exchange exists, so nothing reaches the transport.
    pub fn begin_config_write(&self, cells: &[MkDeviceCell]) -> (r: Result<Vec<Exchange>, CommError>)
        requires
            self.cached_config matches Some(c) ==> cells@.len() <= c.cells@.len(),
        ensures
            ({
                if !self.connected {
                    r == Err::<Vec<Exchange>, CommError>(CommError::NotConnected)
                } else {
                    match self.cached_config {
                        None => r == Err::<Vec<Exchange>, CommError>(CommError::NoChangeRequested),
                        Some(c) => {
                            let diff = spec_write_diff(cells_view(c.cells@), cells_view(cells@));
                            if diff.len() == 0 {
                                r == Err::<Vec<Exchange>, CommError>(CommError::NoChangeRequested)
                            } else {
                                r matches Ok(p) && p@.len() == 2 && p@[0]@ == (ExchangeModel {
                                    clear: ClearPolicy::ClearChecked,
                                    request: seq![77u8],
                                    read: ReadMode::UntilTerminator,
                                    expect: ExpectModel::AckEmpty,
                                }) && p@[1]@ == (ExchangeModel {
                                    clear: ClearPolicy::ClearUnchecked,
                                    request: diff,
                                    read: ReadMode::UntilTerminator,
                                    expect: ExpectModel::AckEmpty,
                                })
                            }
                        },
                    }
                }
            }),
    {
        if !self.connected {
            return Err(CommError::NotConnected);
        }
        match &self.cached_config {
            None => Err(CommError::NoChangeRequested),
            Some(c) => set_config_plan(c, cells),
        }
    }
}

/// Which telemetry value a read targets.
#[derive(Clone, Copy, Debug, PartialEq, Eq, Structural)]
pub enum TelemetryKind {
    Rssi,
    Analog,
    Digital,
    Temperature,
    Voltage,
}

/// The opcode byte of a telemetry read: `'S'`, `'A'`, `'D'`, `'U'` or
/// `'V'`.
pub open spec fn spec_telemetry_opcode(kind: TelemetryKind) -> u8 {
    match kind {
        TelemetryKind::Rssi => 83,
        TelemetryKind::Analog => 65,
        TelemetryKind::Digital => 68,
        TelemetryKind::Temperature => 85,
        TelemetryKind::Voltage => 86,
    }
}

/// The reply shape of a telemetry read: one byte for the scalar
/// channels, more than one for the analog vector.
pub open spec fn spec_telemetry_expect(kind: TelemetryKind) -> ExpectModel {
    match kind {
        TelemetryKind::Analog => ExpectModel::VectorLen,
        _ => ExpectModel::ScalarLen,
    }
}

impl DeviceSession {
    /// The plan that reads one telemetry value, or
    /// [`CommError::NotConnected`] when no transport is open.
    pub fn begin_telemetry(&self, kind: TelemetryKind) -> (r: Result<Vec<Exchange>, CommError>)
        ensures
            ({
                if !self.connected {
                    r == Err::<Vec<Exchange>, CommError>(CommError::NotConnected)
                } else {
                    r matches Ok(p) && p@.len() == 1 && p@[0]@ == (ExchangeModel {
                        clear: ClearPolicy::ClearUnchecked,
                        request: seq![spec_telemetry_opcode(kind)],
                        read: ReadMode::UntilTerminator,
                        expect: spec_telemetry_expect(kind),
                    })
                }
            }),
    {
        if !self.connected {
            return Err(CommError::NotConnected);
        }
        match kind {
            TelemetryKind::Rssi => Ok(rssi_request_plan()),
            TelemetryKind::Analog => Ok(analog_request_plan()),
            TelemetryKind::Digital => Ok(digital_request_plan()),
            TelemetryKind::Temperature => Ok(temperature_request_plan()),
            TelemetryKind::Voltage => Ok(voltage_request_plan()),
        }
    }

    /// The plan that sends the factory-reset sequence, or
    /// [`CommError::NotConnected`] when no transport is open.
    pub fn begin_factory_reset(&self) -> (r: Result<Vec<Exchange>, CommError>)
        ensures
            ({
                if !self.connected {
                    r == Err::<Vec<Exchange>, CommError>(CommError::NotConnected)
                } else {
                    r matches Ok(p) && p@.len() == 1 && p@[0]@ == (ExchangeModel {
                        clear: ClearPolicy::ClearUnchecked,
                        request: seq![64u8, 84u8, 77u8],
                        read: ReadMode::UntilTerminator,
                        expect: ExpectModel::AckEmpty,
                    })
                }
            }),
    {
        if !self.connected {
            return Err(CommError::NotConnected);
        }
        Ok(factory_reset_plan())
    }

    /// The plan that switches the RF channel, or
    /// [`CommError::NotConnected`] when no transport is open.
    pub fn begin_channel_switch(&self, channel: u8) -> (r: Result<Vec<Exchange>, CommError>)
        ensures
            ({
                if !self.connected {
                    r == Err::<Vec<Exchange>, CommError>(CommError::NotConnected)
                } else {
                    r matches Ok(p) && p@.len() == 2 && p@[0]@ == (ExchangeModel {
                        clear: ClearPolicy::NoClear,
                        request: seq![67u8],
                        read: ReadMode::UntilTerminator,
                        expect: ExpectModel::AckEmpty,
                    }) && p@[1]@ == (ExchangeModel {
                        clear: ClearPolicy::NoClear,
                        request: seq![channel],
                        read: ReadMode::UntilTerminator,
                        expect: ExpectModel::AckEmpty,
                    })
                }
            }),
    {
        if !self.connected {
            return Err(CommError::NotConnected);
        }
        Ok(switch_channel_plan(channel))
    }

    /// The plan that executes a mode sequence, [`CommError::NotConnected`]
    /// without a transport, or [`CommError::DescriptionParseError`] when
    /// the sequence text is not two whitespace-separated tokens.
    pub fn begin_mode_sequence(&self, sequence_str: &str) -> (r: Result<Vec<Exchange>, CommError>)
        ensures
            ({
                if !self.connected {
                    r == Err::<Vec<Exchange>, CommError>(CommError::NotConnected)
                } else {
                    match spec_extract_send_recv(sequence_str@) {
                        None => r == Err::<Vec<Exchange>, CommError>(
                            CommError::DescriptionParseError,
                        ),
                        Some(q) => r matches Ok(p) && p@.len() == 1 && p@[0]@ == (ExchangeModel {
                            clear: ClearPolicy::ClearUnchecked,
                            request: q.0,
                            read: if q.1.len() > 0 && q.1.last() == 62 {
                                ReadMode::UntilTerminator
                            } else {
                                ReadMode::DrainAvailable
                            },
                            expect: ExpectModel::ExactBytes(
                                if q.1.len() > 0 && q.1.last() == 62 {
                                    q.1.drop_last()
                                } else {
                                    q.1
                                },
                            ),
                        }),
                    }
                }
            }),
    {
        if !self.connected {
            return Err(CommError::NotConnected);
        }
        match mode_sequence_plan(sequence_str) {
            Some(plan) => Ok(plan),
            None => Err(CommError::DescriptionParseError),
        }
    }
}

// ---------------------------------------------------------------------
// Background loops
// ---------------------------------------------------------------------

/// One RSSI reading, raw, with the channel it was taken on.
#[derive(Clone, Copy, Debug, PartialEq, Eq, Structural)]
pub struct RssiSample {
    pub raw: u8,
    pub channel: u8,
}

/// What the sweep loop does next.
#[derive(Clone, Copy, Debug, PartialEq, Eq, Structural)]
pub enum SweepAction {
    /// Read the cancellation flag and report it back.
    CheckFlag,
    /// Run one channel step: switch to this channel, then read its RSSI.
    RunChannel(u8),
    /// The sweep is cancelled; do nothing more.
    Stopped,
}

/// The channel-sweep loop: cycle over the inclusive channel range, check
/// the cancellation flag before every channel step, and emit a sample
/// for every step whose switch and read both succeed.
#[derive(Clone, Copy, Debug)]
pub struct RssiSweep {
    pub min_channel: u8,
    pub max_channel: u8,
    pub channel: u8,
    pub checking: bool,
    pub running: bool,
}

pub open spec fn spec_sweep_next(s: RssiSweep) -> SweepAction {
    if !s.running {
        SweepAction::Stopped
    } else if s.checking {
        SweepAction::CheckFlag
    } else {
        SweepAction::RunChannel(s.channel)
    }
}

pub open spec fn spec_sweep_on_flag(s: RssiSweep, flag: bool) -> RssiSweep {
    if flag {
        RssiSweep { checking: false, ..s }
    } else {
        RssiSweep { running: false, ..s }
    }
}

/// The channel after a step: the next one, wrapping from the top of the
/// range back to the bottom.
pub open spec fn spec_next_channel(s: RssiSweep) -> u8 {
    if s.channel == s.max_channel {
        s.min_channel
    } else {
        (s.channel + 1) as u8
    }
}

impl RssiSweep {
    pub open spec fn wf(&self) -> bool {
        self.min_channel <= self.channel <= self.max_channel
    }

    /// A running sweep about to check the flag before its first step.
    pub fn new(min_channel: u8, max_channel: u8) -> (r: RssiSweep)
        requires
            min_channel <= max_channel,
        ensures
            r.wf(),
            r.min_channel == min_channel,
            r.max_channel == max_channel,
            r.channel == min_channel,
            r.checking,
            r.running,
    {
        RssiSweep { min_channel, max_channel, channel: min_channel, checking: true, running: true }
    }

    /// What to do next.
    pub fn next_action(&self) -> (a: SweepAction)
        ensures
            a == spec_sweep_next(*self),
    {
        if !self.running {
            SweepAction::Stopped
        } else if self.checking {
            SweepAction::CheckFlag
        } else {
            SweepAction::RunChannel(self.channel)
        }
    }

    /// Takes the observed cancellation flag: false stops the sweep for
    /// good, true releases the pending channel step.
    pub fn on_flag(&mut self, flag: bool)
        requires
            old(self).wf(),
            old(self).running,
            old(self).checking,
        ensures
            final(self).wf(),
            *final(self) == spec_sweep_on_flag(*old(self), flag),
    {
        if flag {
            self.checking = false;
        } else {
            self.running = false;
        }
    }

    /// Takes the outcome of one channel step: a successful read emits a
    /// sample for the channel just visited, a failed switch or read emits
    /// nothing; either way the sweep moves to the next channel and checks
    /// the flag again.
    pub fn on_channel_step(&mut self, rssi: Option<u8>) -> (emit: Option<RssiSample>)
        requires
            old(self).wf(),
            old(self).running,
            !old(self).checking,
        ensures
            final(self).wf(),
            *final(self) == (RssiSweep {
                channel: spec_next_channel(*old(self)),
                checking: true,
                ..*old(self)
            }),
            emit == match rssi {
                Some(raw) => Some(RssiSample { raw, channel: old(self).channel }),
                None => None::<RssiSample>,
            },
    {
        let emit = match rssi {
            Some(raw) => Some(RssiSample { raw, channel: self.channel }),
            None => None,
        };
        self.channel = if self.channel == self.max_channel {
            self.min_channel
        } else {
            self.channel + 1
        };
        self.checking = true;
        emit
    }
}

/// Cancelling the sweep stops it after at most the channel step in
/// flight: the flag is checked before every channel step, and once the
/// flag is observed false the sweep is stopped and never issues another
/// channel action.
pub proof fn lemma_sweep_cancellation(s: RssiSweep)
    requires
        s.running,
        s.checking,
    ensures
        !spec_sweep_on_flag(s, false).running,
        spec_sweep_next(spec_sweep_on_flag(s, false)) == SweepAction::Stopped,
{
}

/// The channel range a sweep covers: the bounds of the first cell named
/// `"RF Channel"` in the cached configuration, or the fixed default range
/// when no such cell exists.
pub open spec fn spec_find_cell_named(cells: Seq<CellModel>, name: Seq<char>, i: int) -> int
    decreases cells.len() - i,
{
    if i < 0 {
        0
    } else if i >= cells.len() {
        cells.len() as int
    } else if cells[i].name == name {
        i
    } else {
        spec_find_cell_named(cells, name, i + 1)
    }
}

/// Determines the sweep's channel range from a cached configuration: the
/// bounds of its `"RF Channel"` cell, or `(0, 0)` when it has none.
pub fn sweep_range(device_config: &MkDeviceConfig) -> (r: (u8, u8))
    ensures
        ({
            let cm = cells_view(device_config.cells@);
            let j = spec_find_cell_named(cm, "RF Channel"@, 0);
            if j < cm.len() {
                r.0 == cm[j].min_value && r.1 == cm[j].max_value
            } else {
                r == (0u8, 0u8)
            }
        }),
{
    let ghost cm = cells_view(device_config.cells@);
    let n = device_config.cells.len();
    let mut i: usize = 0;
    while i < n
        invariant
            i <= n,
            n == device_config.cells@.len(),
            spec_find_cell_named(cm, "RF Channel"@, 0) == spec_find_cell_named(
                cm,
                "RF Channel"@,
                i as int,
            ),
        decreases n - i,
    {
        proof {
            assert(cm[i as int] == device_config.cells@[i as int]@);
        }
        if str_eq(device_config.cells[i].name.as_str(), "RF Channel") {
            return (device_config.cells[i].min_value, device_config.cells[i].max_value);
        }
        i = i + 1;
    }
    (0, 0)
}

/// What the passive poll loop does next.
#[derive(Clone, Copy, Debug, PartialEq, Eq, Structural)]
pub enum PollAction {
    /// Drain the transport, surfacing unsolicited output.
    Poll,
    /// The loop is cancelled; do nothing more.
    Stopped,
}

/// The passive poll loop: each tick checks the cancellation flag, and
/// while it stays set performs one best-effort drain of the transport.
#[derive(Clone, Copy, Debug)]
pub struct PollTask {
    pub running: bool,
}

impl PollTask {
    pub fn new() -> (r: PollTask)
        ensures
            r.running,
    {
        PollTask { running: true }
    }

    /// Takes one tick's flag observation: a cleared flag stops the loop
    /// for good; otherwise the transport is drained once.
    pub fn on_tick(&mut self, flag: bool) -> (a: PollAction)
        ensures
            final(self).running == (old(self).running && flag),
            a == (if old(self).running && flag {
                PollAction::Poll
            } else {
                PollAction::Stopped
            }),
    {
        if self.running && flag {
            PollAction::Poll
        } else {
            self.running = false;
            PollAction::Stopped
        }
    }
}

} // verus!
