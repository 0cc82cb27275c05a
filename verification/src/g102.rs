//! HID++ transactions with a wired G102: feature discovery, DPI reads and writes,
//! onboard memory access, and the guarded onboard profile write with restore.
//!
//! Every function here is verified for every answer the device may give. The
//! transport is wrapped in a `HidppLink` that keeps each exchange (the report sent
//! and the answer), so contracts state which reports were sent, in what order, and
//! what the result is for the answers that came back.

use core::time::Duration;
use vstd::prelude::*;
use vstd::seq_lib::*;

use crate::hidpp::{
    HidppError,
    HidppErrorView,
    HidppFeature,
    DpiSensorInfo,
    OnboardMode,
    OnboardProfilesInfo,
    OnboardProfileSnapshot,
    HidppProbeResult,
    FEATURE_SET_ID,
    ADJUSTABLE_DPI_ID,
    ONBOARD_PROFILES_ID,
    MAX_FEATURE_COUNT,
    parse_onboard_profile,
    OnboardButtonAction,
    OnboardWriteResult,
    OnboardModeWriteResult,
    DpiWriteResult,
    ProfileDpiSettings,
    spec_build_profile_sector,
    build_profile_sector,
    g102_office_button_actions,
    spec_office_button_actions,
    validate_requested_dpi,
    hex4,
    ROOT_FEATURE_INDEX,
    response_error,
    spec_short_request,
    spec_long_request,
    short_request,
    long_request,
    validate_response,
    parameters,
    high_byte,
    low_byte,
    u16_to_be,
    u16_from_be,
    be16,
    text,
    spec_onboard_mode,
    onboard_mode_from_byte,
    hex2,
    dec,
    spec_onboard_profiles,
    parse_onboard_profiles,
    parse_dpi_list,
    sector_crc_error,
    validate_sector_crc,
    spec_error_message,
    profile_layout_ok,
    report_rate_of_divisor,
    kept_dpi_slots,
    spec_parse_button,
    sector_button,
    dpi_list,
    dpi_accepted,
    function_byte,
    lemma_build_profile_sector_frame,
};
use crate::config::{added, extends, lemma_added_chain, lemma_added_push};
use crate::profile::duration_from_millis;
use crate::fmt::{decimal_text, hex_text};

verus! {

/// A channel that carries one HID++ report to the device and brings back its answer.
pub trait Transport {
    fn transact(&mut self, request: &[u8], timeout: Duration) -> Result<Vec<u8>, HidppError>;
}

/// One report handed to the transport and what came back.
pub struct Exchange {
    pub request: Seq<u8>,
    pub answer: Result<Seq<u8>, HidppErrorView>,
}

pub open spec fn bytes_result(r: Result<Vec<u8>, HidppError>) -> Result<Seq<u8>, HidppErrorView> {
    match r {
        Ok(bytes) => Ok(bytes@),
        Err(e) => Err(e@),
    }
}

/// What an exchange gives once the answer is checked against the request.
pub open spec fn reply(x: Exchange) -> Result<Seq<u8>, HidppErrorView> {
    match x.answer {
        Err(e) => Err(e),
        Ok(response) => match response_error(x.request, response) {
            None => Ok(response),
            Some(e) => Err(e),
        },
    }
}

/// A transport together with every exchange the library had over it.
pub struct HidppLink<T: Transport> {
    device: T,
    exchanges: Ghost<Seq<Exchange>>,
}

impl<T: Transport> HidppLink<T> {
    /// Every exchange so far, oldest first.
    pub closed spec fn log(&self) -> Seq<Exchange> {
        self.exchanges@
    }

    pub fn new(device: T) -> (link: Self)
        ensures
            link.log() == Seq::<Exchange>::empty(),
    {
        HidppLink { device, exchanges: Ghost(Seq::empty()) }
    }

    pub fn device(&self) -> &T {
        &self.device
    }

    pub fn into_device(self) -> T {
        self.device
    }

    /// Hands one report to the transport, keeping the exchange.
    pub fn transact(&mut self, request: &[u8], timeout: Duration) -> (r: Result<Vec<u8>, HidppError>)
        ensures
            final(self).log() == old(self).log().push(Exchange { request: request@, answer: bytes_result(r) }),
    {
        let r = self.device.transact(request, timeout);
        proof {
            self.exchanges@ = self.exchanges@.push(Exchange { request: request@, answer: bytes_result(r) });
        }
        r
    }
}

/// `after` continues `before` with exactly the exchange `x`.
pub proof fn lemma_one_more(before: Seq<Exchange>, after: Seq<Exchange>, request: Seq<u8>)
    requires
        one_more(before, after, request),
    ensures
        extends(before, after),
        added(before, after) == seq![after.last()],
{
    assert(added(before, after) =~= seq![after.last()]);
}

/// `after` is `before` and one more exchange, which sent `request`.
pub open spec fn one_more(before: Seq<Exchange>, after: Seq<Exchange>, request: Seq<u8>) -> bool {
    &&& after.len() == before.len() + 1
    &&& after.subrange(0, before.len() as int) == before
    &&& after.last().request == request
}

/// A report that writes onboard memory: function 6, 7 or 8.
pub open spec fn memory_write(request: Seq<u8>) -> bool {
    &&& request.len() >= 4
    &&& request[3] == function_byte(6) || request[3] == function_byte(7) || request[3] == function_byte(8)
}

/// None of the exchanges wrote onboard memory.
pub open spec fn no_memory_write(log: Seq<Exchange>) -> bool {
    forall|k: int| 0 <= k < log.len() ==> !memory_write(#[trigger] log[k].request)
}

/// `after` continues `before` with exchanges that write no onboard memory.
pub open spec fn memory_untouched(before: Seq<Exchange>, after: Seq<Exchange>) -> bool {
    extends(before, after) && no_memory_write(added(before, after))
}

pub proof fn lemma_memory_untouched_refl(log: Seq<Exchange>)
    ensures
        memory_untouched(log, log),
{
    assert(log.subrange(0, log.len() as int) =~= log);
}

pub proof fn lemma_memory_untouched_chain(a: Seq<Exchange>, b: Seq<Exchange>, c: Seq<Exchange>)
    requires
        memory_untouched(a, b),
        memory_untouched(b, c),
    ensures
        memory_untouched(a, c),
{
    lemma_added_chain(a, b, c);
    let x = added(a, b);
    let y = added(b, c);
    assert forall|k: int| 0 <= k < (x + y).len() implies !memory_write(#[trigger] (x + y)[k].request) by {
        if k < x.len() {
            assert((x + y)[k] == x[k]);
        } else {
            assert((x + y)[k] == y[k - x.len()]);
        }
    }
}

/// A report that sets a sensor's DPI: function 3.
pub open spec fn dpi_write(request: Seq<u8>) -> bool {
    request.len() >= 4 && request[3] == function_byte(3)
}

/// `after` continues `before` with exchanges that set no DPI.
pub open spec fn dpi_untouched(before: Seq<Exchange>, after: Seq<Exchange>) -> bool {
    &&& extends(before, after)
    &&& forall|k: int| 0 <= k < added(before, after).len() ==> !dpi_write(#[trigger] added(before, after)[k].request)
}

pub proof fn lemma_dpi_untouched_refl(log: Seq<Exchange>)
    ensures
        dpi_untouched(log, log),
{
    assert(log.subrange(0, log.len() as int) =~= log);
}

pub proof fn lemma_dpi_untouched_chain(a: Seq<Exchange>, b: Seq<Exchange>, c: Seq<Exchange>)
    requires
        dpi_untouched(a, b),
        dpi_untouched(b, c),
    ensures
        dpi_untouched(a, c),
{
    lemma_added_chain(a, b, c);
    let x = added(a, b);
    let y = added(b, c);
    assert forall|k: int| 0 <= k < (x + y).len() implies !dpi_write(#[trigger] (x + y)[k].request) by {
        if k < x.len() {
            assert((x + y)[k] == x[k]);
        } else {
            assert((x + y)[k] == y[k - x.len()]);
        }
    }
}

/// A request with a function other than 3 sets no DPI.
pub proof fn lemma_read_request_dpi(feature_index: u8, function: u8, parameters: Seq<u8>)
    requires
        function <= 0x0f,
        function != 3,
        parameters.len() == 3 || parameters.len() == 16,
    ensures
        !dpi_write(spec_short_request(feature_index, function, parameters)),
        !dpi_write(spec_long_request(feature_index, function, parameters)),
{
    assert(spec_long_request(feature_index, function, parameters)[3] == function_byte(function));
}

/// A request with a function other than 6, 7 and 8 writes no onboard memory.
pub proof fn lemma_read_request(feature_index: u8, function: u8, parameters: Seq<u8>)
    requires
        function <= 0x0f,
        function != 6 && function != 7 && function != 8,
        parameters.len() == 3 || parameters.len() == 16,
    ensures
        !memory_write(spec_short_request(feature_index, function, parameters)),
        !memory_write(spec_long_request(feature_index, function, parameters)),
{
    assert(spec_long_request(feature_index, function, parameters)[3] == function_byte(function));
}

/// How long one transaction may wait for its answer, in milliseconds.
pub const REQUEST_TIMEOUT_MS: u64 = 500;

/// `response` is a well-formed answer to `request` (not an error report).
pub open spec fn answers(request: Seq<u8>, response: Seq<u8>) -> bool {
    response_error(request, response) is None
}

pub open spec fn function_range_message() -> Seq<char> {
    "HID++ 函数号超出 4 位范围"@
}

/// Sends a short report and returns the device's validated answer.
pub fn request<T: Transport>(transport: &mut HidppLink<T>, feature_index: u8, function: u8, parameters: [u8; 3]) -> (r: Result<
    Vec<u8>,
    HidppError,
>)
    ensures
        function > 0x0f ==> r is Err && r->Err_0@ == HidppErrorView::InvalidResponse(function_range_message())
            && final(transport).log() == old(transport).log(),
        function <= 0x0f ==> one_more(
            old(transport).log(),
            final(transport).log(),
            spec_short_request(feature_index, function, parameters@),
        ) && bytes_result(r) == reply(final(transport).log().last()),
        r is Ok ==> function <= 0x0f && answers(spec_short_request(feature_index, function, parameters@), r->Ok_0@),
        function != 6 && function != 7 && function != 8 ==> memory_untouched(old(transport).log(), final(transport).log()),
        function != 3 ==> dpi_untouched(old(transport).log(), final(transport).log()),
{
    let ghost before = transport.log();
    proof {
        lemma_memory_untouched_refl(before);
        lemma_dpi_untouched_refl(before);
    }
    if function > 0x0f {
        return Err(HidppError::InvalidResponse(text("HID++ 函数号超出 4 位范围")));
    }
    let report = short_request(feature_index, function, parameters);
    let answer = transport.transact(&report, duration_from_millis(REQUEST_TIMEOUT_MS));
    assert(transport.log().subrange(0, before.len() as int) =~= before);
    proof {
        lemma_one_more(before, transport.log(), report@);
        if function != 6 && function != 7 && function != 8 {
            lemma_read_request(feature_index, function, parameters@);
        }
        if function != 3 {
            lemma_read_request_dpi(feature_index, function, parameters@);
        }
    }
    let response = answer?;
    validate_response(&report, &response)?;
    Ok(response)
}

/// Sends a long report and returns the device's validated answer.
pub fn request_long<T: Transport>(transport: &mut HidppLink<T>, feature_index: u8, function: u8, parameters: [u8; 16]) -> (r:
    Result<Vec<u8>, HidppError>)
    ensures
        function > 0x0f ==> r is Err && r->Err_0@ == HidppErrorView::InvalidResponse(function_range_message())
            && final(transport).log() == old(transport).log(),
        function <= 0x0f ==> one_more(
            old(transport).log(),
            final(transport).log(),
            spec_long_request(feature_index, function, parameters@),
        ) && bytes_result(r) == reply(final(transport).log().last()),
        r is Ok ==> function <= 0x0f && answers(spec_long_request(feature_index, function, parameters@), r->Ok_0@),
        function != 6 && function != 7 && function != 8 ==> memory_untouched(old(transport).log(), final(transport).log()),
        function != 3 ==> dpi_untouched(old(transport).log(), final(transport).log()),
{
    let ghost before = transport.log();
    proof {
        lemma_memory_untouched_refl(before);
        lemma_dpi_untouched_refl(before);
    }
    if function > 0x0f {
        return Err(HidppError::InvalidResponse(text("HID++ 函数号超出 4 位范围")));
    }
    let report = long_request(feature_index, function, parameters);
    let answer = transport.transact(&report, duration_from_millis(REQUEST_TIMEOUT_MS));
    assert(transport.log().subrange(0, before.len() as int) =~= before);
    proof {
        lemma_one_more(before, transport.log(), report@);
        if function != 6 && function != 7 && function != 8 {
            lemma_read_request(feature_index, function, parameters@);
        }
        if function != 3 {
            lemma_read_request_dpi(feature_index, function, parameters@);
        }
    }
    let response = answer?;
    validate_response(&report, &response)?;
    Ok(response)
}

// ---------------------------------------------------------------------------
// Single queries
// ---------------------------------------------------------------------------

/// The root-feature query for the index of feature `id`.
pub open spec fn feature_query(id: u16) -> Seq<u8> {
    spec_short_request(ROOT_FEATURE_INDEX, 0, seq![high_byte(id), low_byte(id), 0u8])
}

/// The feature record carried by the parameter bytes of a root-feature answer.
pub open spec fn feature_from(id: u16, response: Seq<u8>) -> HidppFeature {
    HidppFeature { id, index: response[4], feature_type: response[5], version: response[6] }
}

/// Looks up the index of a feature; the root feature (id 0) is always at index 0.
pub fn get_feature<T: Transport>(transport: &mut HidppLink<T>, id: u16) -> (r: Result<HidppFeature, HidppError>)
    ensures
        id == 0 ==> r == Ok::<HidppFeature, HidppError>(
            (HidppFeature { id: 0, index: ROOT_FEATURE_INDEX, feature_type: 0, version: 0 }),
        ) && final(transport).log() == old(transport).log(),
        id != 0 ==> one_more(old(transport).log(), final(transport).log(), feature_query(id)) && match reply(
            final(transport).log().last(),
        ) {
            Ok(response) => r == Ok::<HidppFeature, HidppError>(feature_from(id, response)),
            Err(e) => r is Err && r->Err_0@ == e,
        },
        memory_untouched(old(transport).log(), final(transport).log()),
        dpi_untouched(old(transport).log(), final(transport).log()),
        id != 0 && r is Ok ==> exists|response: Seq<u8>|
            #[trigger] answers(feature_query(id), response) && r->Ok_0 == feature_from(id, response),
{
    proof {
        lemma_memory_untouched_refl(transport.log());
        lemma_dpi_untouched_refl(transport.log());
    }
    if id == 0 {
        return Ok(HidppFeature { id, index: ROOT_FEATURE_INDEX, feature_type: 0, version: 0 });
    }
    let bytes = u16_to_be(id);
    let query = [bytes[0], bytes[1], 0];
    assert(query@ =~= seq![high_byte(id), low_byte(id), 0u8]);
    let response = request(transport, ROOT_FEATURE_INDEX, 0, query)?;
    let feature_parameters = parameters(&response, 3)?;
    let feature = HidppFeature {
        id,
        index: feature_parameters[0],
        feature_type: feature_parameters[1],
        version: feature_parameters[2],
    };
    assert(answers(feature_query(id), response@));
    Ok(feature)
}

/// The query for a sensor's current and default DPI.
pub open spec fn sensor_dpi_query(feature_index: u8, sensor_index: u8) -> Seq<u8> {
    spec_short_request(feature_index, 2, seq![sensor_index, 0u8, 0u8])
}

/// A checked answer that carries the DPI of sensor `sensor_index`.
pub open spec fn sensor_dpi_answered(sensor_index: u8, reply: Result<Seq<u8>, HidppErrorView>) -> bool {
    &&& reply is Ok
    &&& reply->Ok_0.len() >= 9
    &&& reply->Ok_0[4] == sensor_index
}

/// Reads a sensor's (current, default) DPI; the answer must name the same sensor.
pub fn read_sensor_dpi<T: Transport>(transport: &mut HidppLink<T>, feature_index: u8, sensor_index: u8) -> (r: Result<
    (u16, u16),
    HidppError,
>)
    ensures
        one_more(old(transport).log(), final(transport).log(), sensor_dpi_query(feature_index, sensor_index)),
        memory_untouched(old(transport).log(), final(transport).log()),
        dpi_untouched(old(transport).log(), final(transport).log()),
        r is Ok <==> sensor_dpi_answered(sensor_index, reply(final(transport).log().last())),
        r is Ok ==> r->Ok_0.0 == be16(reply(final(transport).log().last())->Ok_0[5], reply(final(transport).log().last())->Ok_0[6])
            && r->Ok_0.1 == be16(reply(final(transport).log().last())->Ok_0[7], reply(final(transport).log().last())->Ok_0[8]),
        r is Ok ==> exists|response: Seq<u8>|
            #[trigger] answers(sensor_dpi_query(feature_index, sensor_index), response) && response.len() >= 9
                && response[4] == sensor_index && r->Ok_0.0 == be16(response[5], response[6]) && r->Ok_0.1
                == be16(response[7], response[8]),
{
    let query = [sensor_index, 0, 0];
    assert(query@ =~= seq![sensor_index, 0u8, 0u8]);
    let response = request(transport, feature_index, 2, query)?;
    let p = parameters(&response, 5)?;
    if p[0] != sensor_index {
        let mut m = text("DPI 传感器索引不匹配：请求 ");
        m.append(decimal_text(sensor_index as u64).as_str());
        m.append("，响应 ");
        m.append(decimal_text(p[0] as u64).as_str());
        return Err(HidppError::InvalidResponse(m));
    }
    let current = u16_from_be(p[1], p[2]);
    let default = u16_from_be(p[3], p[4]);
    assert(answers(sensor_dpi_query(feature_index, sensor_index), response@));
    Ok((current, default))
}

/// The command that sets a sensor's DPI.
pub open spec fn set_dpi_command(feature_index: u8, sensor_index: u8, dpi: u16) -> Seq<u8> {
    spec_short_request(feature_index, 3, seq![sensor_index, high_byte(dpi), low_byte(dpi)])
}

/// Sets a sensor's DPI (function 3); succeeds when the device acknowledges the command.
pub fn set_sensor_dpi<T: Transport>(transport: &mut HidppLink<T>, feature_index: u8, sensor_index: u8, dpi: u16) -> (r:
    Result<(), HidppError>)
    ensures
        one_more(old(transport).log(), final(transport).log(), set_dpi_command(feature_index, sensor_index, dpi)),
        memory_untouched(old(transport).log(), final(transport).log()),
        r is Ok <==> reply(final(transport).log().last()) is Ok,
        r matches Err(e) ==> reply(final(transport).log().last()) == Err::<Seq<u8>, HidppErrorView>(e@),
        r is Ok ==> exists|response: Seq<u8>| #[trigger]
            answers(set_dpi_command(feature_index, sensor_index, dpi), response),
{
    let bytes = u16_to_be(dpi);
    let command = [sensor_index, bytes[0], bytes[1]];
    assert(command@ =~= seq![sensor_index, high_byte(dpi), low_byte(dpi)]);
    let response = request(transport, feature_index, 3, command)?;
    assert(answers(set_dpi_command(feature_index, sensor_index, dpi), response@));
    Ok(())
}

/// The query for the onboard mode (function 2 of ONBOARD_PROFILES).
pub open spec fn mode_query(feature_index: u8) -> Seq<u8> {
    spec_short_request(feature_index, 2, seq![0u8, 0u8, 0u8])
}

/// Reads whether the device runs from onboard memory or under host control.
pub fn read_onboard_mode<T: Transport>(transport: &mut HidppLink<T>, feature_index: u8) -> (r: Result<OnboardMode, HidppError>)
    ensures
        one_more(old(transport).log(), final(transport).log(), mode_query(feature_index)),
        memory_untouched(old(transport).log(), final(transport).log()),
        dpi_untouched(old(transport).log(), final(transport).log()),
        match reply(final(transport).log().last()) {
            Ok(response) => r == Ok::<OnboardMode, HidppError>(spec_onboard_mode(response[4])),
            Err(e) => r is Err && r->Err_0@ == e,
        },
        r is Ok ==> exists|response: Seq<u8>|
            #[trigger] answers(mode_query(feature_index), response) && r->Ok_0 == spec_onboard_mode(response[4]),
{
    let query = [0u8, 0, 0];
    assert(query@ =~= seq![0u8, 0u8, 0u8]);
    let response = request(transport, feature_index, 2, query)?;
    let p = parameters(&response, 1)?;
    let mode = onboard_mode_from_byte(p[0]);
    assert(answers(mode_query(feature_index), response@));
    Ok(mode)
}

/// The byte that selects a settable onboard mode.
pub open spec fn mode_byte(mode: OnboardMode) -> u8 {
    match mode {
        OnboardMode::NoChange => 0,
        OnboardMode::Onboard => 1,
        OnboardMode::Host => 2,
        OnboardMode::Unknown(value) => value,
    }
}

/// The command that sets the onboard mode (function 1 of ONBOARD_PROFILES).
pub open spec fn set_mode_command(feature_index: u8, mode: OnboardMode) -> Seq<u8> {
    spec_short_request(feature_index, 1, seq![mode_byte(mode), 0u8, 0u8])
}

/// Switches the onboard mode; an unknown mode is refused before anything is sent.
pub fn set_onboard_mode<T: Transport>(transport: &mut HidppLink<T>, feature_index: u8, mode: OnboardMode) -> (r: Result<
    (),
    HidppError,
>)
    ensures
        mode is Unknown ==> r is Err && r->Err_0@ == HidppErrorView::InvalidResponse(
            "拒绝设置未知板载模式 0x"@ + hex2(mode->Unknown_0 as int),
        ) && final(transport).log() == old(transport).log(),
        !(mode is Unknown) ==> one_more(old(transport).log(), final(transport).log(), set_mode_command(feature_index, mode))
            && (r is Ok <==> reply(final(transport).log().last()) is Ok),
        memory_untouched(old(transport).log(), final(transport).log()),
        dpi_untouched(old(transport).log(), final(transport).log()),
        r is Ok ==> !(mode is Unknown) && exists|response: Seq<u8>| #[trigger]
            answers(set_mode_command(feature_index, mode), response),
{
    proof {
        lemma_memory_untouched_refl(transport.log());
        lemma_dpi_untouched_refl(transport.log());
    }
    let value: u8 = match mode {
        OnboardMode::NoChange => 0,
        OnboardMode::Onboard => 1,
        OnboardMode::Host => 2,
        OnboardMode::Unknown(value) => {
            let mut m = text("拒绝设置未知板载模式 0x");
            m.append(hex_text(value as u64, 2).as_str());
            return Err(HidppError::InvalidResponse(m));
        },
    };
    let command = [value, 0, 0];
    assert(command@ =~= seq![mode_byte(mode), 0u8, 0u8]);
    let response = request(transport, feature_index, 1, command)?;
    assert(answers(set_mode_command(feature_index, mode), response@));
    Ok(())
}

/// The three ONBOARD_PROFILES queries: description, mode, current profile.
pub open spec fn onboard_query(feature_index: u8, function: u8) -> Seq<u8> {
    spec_short_request(feature_index, function, seq![0u8, 0u8, 0u8])
}

/// `info` is what the description, mode and current-profile answers describe.
pub open spec fn onboard_profiles_read(feature_index: u8, info: OnboardProfilesInfo) -> bool {
    exists|description: Seq<u8>, mode: Seq<u8>, current: Seq<u8>|
        #![trigger answers(onboard_query(feature_index, 0), description), answers(onboard_query(feature_index, 2), mode), answers(onboard_query(feature_index, 4), current)]
        answers(onboard_query(feature_index, 0), description) && answers(onboard_query(feature_index, 2), mode)
            && answers(onboard_query(feature_index, 4), current) && description.len() >= 20 && info
            == spec_onboard_profiles(
            description.subrange(4, description.len() as int),
            mode[4],
            current.subrange(4, current.len() as int),
        )
}

/// `x` asked feature `feature_index` for its onboard description, and the answer
/// carries the layout that `info` reports.
pub open spec fn description_answer(x: Exchange, feature_index: u8, info: OnboardProfilesInfo) -> bool {
    let d = reply(x)->Ok_0;
    &&& x.request == onboard_query(feature_index, 0)
    &&& reply(x) is Ok
    &&& d.len() >= 20
    &&& info.memory_model_id == d[4]
    &&& info.profile_format_id == d[5]
    &&& info.profile_count == d[7]
    &&& info.button_count == d[9]
    &&& info.sector_count == d[10]
    &&& info.sector_size == be16(d[11], d[12])
}

/// Reads the onboard-profile capabilities, mode and current profile.
pub fn read_onboard_profiles<T: Transport>(transport: &mut HidppLink<T>, feature_index: u8) -> (r: Result<
    OnboardProfilesInfo,
    HidppError,
>)
    ensures
        r matches Ok(info) ==> onboard_profiles_read(feature_index, info),
        memory_untouched(old(transport).log(), final(transport).log()),
        dpi_untouched(old(transport).log(), final(transport).log()),
        r matches Ok(info) ==> description_answer(added(old(transport).log(), final(transport).log())[0], feature_index, info)
            && added(old(transport).log(), final(transport).log()).len() >= 1,
        r matches Ok(info) ==> profiles_answered(feature_index, added(old(transport).log(), final(transport).log()))
            && info == profiles_info(added(old(transport).log(), final(transport).log())),
        r is Err ==> !profiles_answered(feature_index, added(old(transport).log(), final(transport).log())),
        added(old(transport).log(), final(transport).log()).len() <= 3,
{
    let ghost start = transport.log();
    let zero = [0u8, 0, 0];
    assert(zero@ =~= seq![0u8, 0u8, 0u8]);
    let description_response = request(transport, feature_index, 0, zero);
    let ghost l1 = transport.log();
    proof {
        lemma_one_more(start, l1, onboard_query(feature_index, 0));
    }
    let description_response = description_response?;
    let description = parameters(&description_response, 16)?;
    let mode_response = request(transport, feature_index, 2, zero);
    let ghost l2 = transport.log();
    proof {
        lemma_memory_untouched_chain(start, l1, l2);
        lemma_dpi_untouched_chain(start, l1, l2);
        lemma_one_more(l1, l2, onboard_query(feature_index, 2));
        lemma_added_chain(start, l1, l2);
        assert(added(start, l2) =~= seq![l1.last(), l2.last()]);
    }
    let mode_response = mode_response?;
    let mode = parameters(&mode_response, 1)?[0];
    let current_response = request(transport, feature_index, 4, zero);
    proof {
        lemma_memory_untouched_chain(start, l2, transport.log());
        lemma_dpi_untouched_chain(start, l2, transport.log());
        lemma_memory_untouched_chain(l1, l2, transport.log());
        lemma_dpi_untouched_chain(l1, l2, transport.log());
        lemma_one_more(l2, transport.log(), onboard_query(feature_index, 4));
        lemma_added_chain(start, l1, transport.log());
        lemma_added_chain(start, l2, transport.log());
        assert(added(start, transport.log()) =~= seq![l1.last(), l2.last(), transport.log().last()]);
        assert(added(start, transport.log())[0] == l1.last());
    }
    let current_response = current_response?;
    let current = parameters(&current_response, 2)?;
    let info = parse_onboard_profiles(description, mode, current)?;
    assert(answers(onboard_query(feature_index, 0), description_response@));
    assert(answers(onboard_query(feature_index, 2), mode_response@));
    assert(answers(onboard_query(feature_index, 4), current_response@));
    Ok(info)
}

/// The three answers in `log` to the ONBOARD_PROFILES description, mode and
/// current-profile queries are good, the description carrying its sixteen bytes.
pub open spec fn profiles_answered(feature_index: u8, log: Seq<Exchange>) -> bool {
    &&& log.len() == 3
    &&& log[0].request == onboard_query(feature_index, 0)
    &&& log[1].request == onboard_query(feature_index, 2)
    &&& log[2].request == onboard_query(feature_index, 4)
    &&& reply(log[0]) is Ok
    &&& reply(log[1]) is Ok
    &&& reply(log[2]) is Ok
    &&& reply(log[0])->Ok_0.len() >= 20
}

/// The onboard capabilities, mode and current profile the three answers report.
pub open spec fn profiles_info(log: Seq<Exchange>) -> OnboardProfilesInfo {
    let description = reply(log[0])->Ok_0;
    let current = reply(log[2])->Ok_0;
    spec_onboard_profiles(
        description.subrange(4, description.len() as int),
        reply(log[1])->Ok_0[4],
        current.subrange(4, current.len() as int),
    )
}

/// The ADJUSTABLE_DPI query for the number of sensors.
pub open spec fn sensor_count_query(feature_index: u8) -> Seq<u8> {
    spec_short_request(feature_index, 0, seq![0u8, 0u8, 0u8])
}

/// The ADJUSTABLE_DPI query for the DPI list of the sensor at position `position`.
pub open spec fn dpi_list_query(feature_index: u8, position: u8) -> Seq<u8> {
    spec_short_request(feature_index, 1, seq![position, 0u8, 0u8])
}

/// `sensor` is what a DPI-list answer and a current/default DPI answer describe.
pub open spec fn sensor_from_answers(
    feature_index: u8,
    position: u8,
    list: Seq<u8>,
    dpi: Seq<u8>,
    sensor: DpiSensorInfo,
) -> bool {
    let values = dpi_list(list.subrange(5, list.len() as int));
    &&& answers(dpi_list_query(feature_index, position), list)
    &&& list.len() >= 5
    &&& sensor.index == list[4]
    &&& values.1.len() > 0
    &&& sensor.step == values.0
    &&& sensor.discrete_values@ == values.1
    &&& values.1.contains(sensor.minimum)
    &&& values.1.contains(sensor.maximum)
    &&& forall|i: int| 0 <= i < values.1.len() ==> sensor.minimum <= #[trigger] values.1[i] <= sensor.maximum
    &&& answers(sensor_dpi_query(feature_index, sensor.index), dpi)
    &&& dpi.len() >= 9
    &&& dpi[4] == sensor.index
    &&& sensor.current == be16(dpi[5], dpi[6])
    &&& sensor.default == be16(dpi[7], dpi[8])
}

/// The sensor at `position` was read from the device's answers.
pub open spec fn sensor_listed(feature_index: u8, position: int, sensor: DpiSensorInfo) -> bool {
    exists|list: Seq<u8>, dpi: Seq<u8>|
        #[trigger] sensor_from_answers(feature_index, position as u8, list, dpi, sensor)
}

/// `sensors` is the sensor list the device's answers describe: as many sensors as
/// the count answer names (at most eight), each read from its own answers.
pub open spec fn dpi_sensors_read(feature_index: u8, sensors: Seq<DpiSensorInfo>) -> bool {
    &&& exists|count: Seq<u8>|
        #[trigger] answers(sensor_count_query(feature_index), count) && count.len() >= 5 && count[4] <= 8
            && sensors.len() == count[4]
    &&& forall|i: int| 0 <= i < sensors.len() ==> #[trigger] sensor_listed(feature_index, i, sensors[i])
}

/// Lists the DPI sensors (at most eight) with their ranges and current settings.
pub fn read_dpi_sensors<T: Transport>(transport: &mut HidppLink<T>, feature_index: u8) -> (r: Result<
    Vec<DpiSensorInfo>,
    HidppError,
>)
    ensures
        memory_untouched(old(transport).log(), final(transport).log()),
        dpi_untouched(old(transport).log(), final(transport).log()),
        r is Ok ==> r->Ok_0@.len() <= 8 && forall|i: int|
            0 <= i < r->Ok_0@.len() ==> (#[trigger] r->Ok_0@[i]).minimum <= r->Ok_0@[i].maximum,
        r is Ok ==> dpi_sensors_read(feature_index, r->Ok_0@),
{
    let ghost untouched_from = transport.log();
    proof {
        lemma_memory_untouched_refl(untouched_from);
        lemma_dpi_untouched_refl(untouched_from);
    }
    let zero = [0u8, 0, 0];
    assert(zero@ =~= seq![0u8, 0u8, 0u8]);
    let ghost prior = transport.log();
    let outcome = request(transport, feature_index, 0, zero);
    proof {
        lemma_memory_untouched_chain(untouched_from, prior, transport.log());
        lemma_dpi_untouched_chain(untouched_from, prior, transport.log());
    }
    let count_response = outcome?;
    let count = parameters(&count_response, 1)?[0];
    if count > 8 {
        let mut m = text("DPI 传感器数量 ");
        m.append(decimal_text(count as u64).as_str());
        m.append(" 超过安全上限 8");
        return Err(HidppError::InvalidResponse(m));
    }
    let mut sensors: Vec<DpiSensorInfo> = Vec::new();
    let mut requested_index: u8 = 0;
    while requested_index < count
        invariant
            untouched_from == old(transport).log(),
            memory_untouched(untouched_from, transport.log()),
            dpi_untouched(untouched_from, transport.log()),
            count <= 8,
            requested_index <= count,
            sensors@.len() == requested_index,
            forall|i: int| 0 <= i < sensors@.len() ==> (#[trigger] sensors@[i]).minimum <= sensors@[i].maximum,
            forall|i: int| 0 <= i < sensors@.len() ==> #[trigger] sensor_listed(feature_index, i, sensors@[i]),
        decreases count - requested_index,
    {
        let list_query = [requested_index, 0, 0];
        assert(list_query@ =~= seq![requested_index, 0u8, 0u8]);
        let ghost prior = transport.log();
        let outcome = request(transport, feature_index, 1, list_query);
        proof {
            lemma_memory_untouched_chain(untouched_from, prior, transport.log());
            lemma_dpi_untouched_chain(untouched_from, prior, transport.log());
        }
        let list_response = outcome?;
        let list_parameters = parameters(&list_response, 1)?;
        let index = list_parameters[0];
        let list_values = &list_parameters[1..list_parameters.len()];
        assert(list_values@ =~= list_response@.subrange(5, list_response@.len() as int));
        let (minimum, maximum, step, discrete_values) = parse_dpi_list(list_values)?;
        let ghost prior = transport.log();
        let outcome = read_sensor_dpi(transport, feature_index, index);
        proof {
            lemma_memory_untouched_chain(untouched_from, prior, transport.log());
            lemma_dpi_untouched_chain(untouched_from, prior, transport.log());
        }
        let (current, default) = outcome?;
        let ghost dpi_response = choose|response: Seq<u8>|
            #[trigger] answers(sensor_dpi_query(feature_index, index), response) && response.len() >= 9
                && response[4] == index && current == be16(response[5], response[6]) && default == be16(
                response[7],
                response[8],
            );
        let sensor = DpiSensorInfo { index, minimum, maximum, step, discrete_values, current, default };
        assert(sensor_from_answers(feature_index, requested_index, list_response@, dpi_response, sensor));
        let ghost before = sensors@;
        let ghost added = sensor;
        sensors.push(sensor);
        assert forall|i: int| 0 <= i < sensors@.len() implies #[trigger] sensor_listed(
            feature_index,
            i,
            sensors@[i],
        ) by {
            if i < before.len() {
                assert(sensors@[i] == before[i]);
            } else {
                assert(sensors@[i] == added);
                assert(sensor_from_answers(feature_index, i as u8, list_response@, dpi_response, sensors@[i]));
            }
        }
        requested_index = requested_index + 1;
    }
    assert(answers(sensor_count_query(feature_index), count_response@));
    Ok(sensors)
}

// ---------------------------------------------------------------------------
// Onboard memory
// ---------------------------------------------------------------------------

/// Where piece `k` of a `size`-byte sector is read from: `16 * k`, or the last
/// sixteen bytes.
pub open spec fn read_offset(size: int, k: int) -> int {
    if 16 * k < size - 16 {
        16 * k
    } else {
        size - 16
    }
}

/// The request for piece `k` of `sector` (function 5).
pub open spec fn read_piece_request(feature_index: u8, sector: u16, size: int, k: int) -> Seq<u8> {
    let offset = read_offset(size, k) as u16;
    spec_long_request(
        feature_index,
        5,
        seq![high_byte(sector), low_byte(sector), high_byte(offset), low_byte(offset)] + Seq::new(12, |i: int| 0u8),
    )
}

/// Byte `b` of a sector as piece `k` of `log` carries it.
pub open spec fn piece_byte(log: Seq<Exchange>, size: int, k: int, b: int) -> u8 {
    reply(log[k])->Ok_0[4 + b - read_offset(size, k)]
}

/// The sector the pieces in `log` carry: each byte from the last piece that covers it.
pub open spec fn sector_bytes(log: Seq<Exchange>, size: int) -> Seq<u8> {
    Seq::new(
        size as nat,
        |b: int|
            if b >= size - 16 {
                piece_byte(log, size, piece_count(size) - 1, b)
            } else {
                piece_byte(log, size, b / 16, b)
            },
    )
}

/// A piece answer that carries its sixteen bytes.
pub open spec fn piece_good(x: Exchange) -> bool {
    reply(x) is Ok && reply(x)->Ok_0.len() >= 20
}

/// `log` is a read of `sector` that stopped at its last piece, which was not
/// answered with sixteen bytes; the pieces before it were.
pub open spec fn read_failed(feature_index: u8, sector: u16, size: int, log: Seq<Exchange>) -> bool {
    &&& 1 <= log.len() <= piece_count(size)
    &&& forall|k: int|
        0 <= k < log.len() ==> (#[trigger] log[k]).request == read_piece_request(feature_index, sector, size, k)
    &&& forall|k: int| 0 <= k < log.len() - 1 ==> piece_good(#[trigger] log[k])
    &&& !piece_good(log.last())
}

/// `log` is the complete read of `sector`: every piece asked in order and answered.
pub open spec fn sector_reads(feature_index: u8, sector: u16, size: int, log: Seq<Exchange>) -> bool {
    &&& log.len() == piece_count(size)
    &&& forall|k: int|
        0 <= k < log.len() ==> (#[trigger] log[k]).request == read_piece_request(feature_index, sector, size, k)
            && reply(log[k]) is Ok && reply(log[k])->Ok_0.len() >= 20
}

/// Reads a whole sector in 16-byte pieces; the last piece is read from `size - 16` so
/// that no read runs past the end.
pub fn read_onboard_sector<T: Transport>(transport: &mut HidppLink<T>, feature_index: u8, sector: u16, sector_size: u16) -> (r:
    Result<Vec<u8>, HidppError>)
    ensures
        !(18 <= sector_size <= 4096) ==> r is Err && r->Err_0@ == HidppErrorView::InvalidResponse(
            "板载扇区大小 "@ + dec(sector_size as int) + " 超出安全范围 18–4096"@,
        ) && final(transport).log() == old(transport).log(),
        r is Ok ==> 18 <= sector_size <= 4096 && r->Ok_0@.len() == sector_size,
        memory_untouched(old(transport).log(), final(transport).log()),
        dpi_untouched(old(transport).log(), final(transport).log()),
        r is Ok ==> sector_reads(feature_index, sector, sector_size as int, added(old(transport).log(), final(transport).log()))
            && r->Ok_0@ == sector_bytes(added(old(transport).log(), final(transport).log()), sector_size as int),
        r is Err && 18 <= sector_size <= 4096 ==> !sector_reads(
            feature_index,
            sector,
            sector_size as int,
            added(old(transport).log(), final(transport).log()),
        ) && read_failed(feature_index, sector, sector_size as int, added(old(transport).log(), final(transport).log())),
{
    let ghost start = transport.log();
    proof {
        lemma_memory_untouched_refl(start);
        lemma_dpi_untouched_refl(start);
    }
    if sector_size < 18 || sector_size > 4096 {
        let mut m = text("板载扇区大小 ");
        m.append(decimal_text(sector_size as u64).as_str());
        m.append(" 超出安全范围 18–4096");
        return Err(HidppError::InvalidResponse(m));
    }
    let size = sector_size as usize;
    let mut data: Vec<u8> = Vec::new();
    let mut i: usize = 0;
    while i < size
        invariant
            i <= size,
            data@.len() == i,
        decreases size - i,
    {
        data.push(0);
        i = i + 1;
    }
    let sector_be = u16_to_be(sector);
    let mut logical_offset: usize = 0;
    let ghost mut k: int = 0;
    let ghost n = piece_count(size as int);
    assert(added(start, transport.log()) =~= Seq::<Exchange>::empty());
    while logical_offset < size
        invariant
            18 <= size <= 4096,
            size == sector_size,
            data@.len() == size,
            n == piece_count(size as int),
            sector_be[0] == high_byte(sector),
            sector_be[1] == low_byte(sector),
            logical_offset == 16 * k,
            0 <= k,
            16 * (k - 1) < size,
            start == old(transport).log(),
            memory_untouched(start, transport.log()),
            dpi_untouched(start, transport.log()),
            added(start, transport.log()).len() == k,
            forall|m: int|
                0 <= m < k ==> (#[trigger] added(start, transport.log())[m]).request == read_piece_request(
                    feature_index,
                    sector,
                    size as int,
                    m,
                ) && reply(added(start, transport.log())[m]) is Ok && reply(added(start, transport.log())[m])->Ok_0.len()
                    >= 20,
            forall|b: int|
                0 <= b < size - 16 && b < 16 * k ==> #[trigger] data@[b] == piece_byte(
                    added(start, transport.log()),
                    size as int,
                    b / 16,
                    b,
                ),
            16 * k >= size ==> forall|b: int|
                size - 16 <= b < size ==> #[trigger] data@[b] == piece_byte(added(start, transport.log()), size as int, k - 1, b),
        decreases size + 16 - logical_offset,
    {
        let offset = if logical_offset < size - 16 {
            logical_offset
        } else {
            size - 16
        };
        assert(offset == read_offset(size as int, k));
        let offset_bytes = u16_to_be(offset as u16);
        let mut request_parameters = [0u8; 16];
        request_parameters[0] = sector_be[0];
        request_parameters[1] = sector_be[1];
        request_parameters[2] = offset_bytes[0];
        request_parameters[3] = offset_bytes[1];
        assert(request_parameters@ =~= seq![high_byte(sector), low_byte(sector), high_byte(offset as u16), low_byte(offset as u16)]
            + Seq::new(12, |i: int| 0u8));
        let ghost before_piece = transport.log();
        let response = request_long(transport, feature_index, 5, request_parameters);
        proof {
            lemma_memory_untouched_chain(start, before_piece, transport.log());
            lemma_dpi_untouched_chain(start, before_piece, transport.log());
            lemma_one_more(before_piece, transport.log(), read_piece_request(feature_index, sector, size as int, k));
            lemma_added_chain(start, before_piece, transport.log());
            assert(added(start, transport.log()) =~= added(start, before_piece).push(transport.log().last()));
        }
        proof {
            let log = added(start, transport.log());
            if response is Err {
                assert(!(reply(log[k]) is Ok));
                assert(log.last() == log[k]);
                assert(forall|m: int| 0 <= m < log.len() - 1 ==> piece_good(#[trigger] log[m]) <== (reply(log[m]) is Ok
                    && reply(log[m])->Ok_0.len() >= 20));
            }
        }
        let response = response?;
        let parameters_result = parameters(&response, 16);
        proof {
            let log = added(start, transport.log());
            if parameters_result is Err {
                assert(!(reply(log[k])->Ok_0.len() >= 20));
                assert(log.last() == log[k]);
            }
        }
        let response_parameters = parameters_result?;
        let ghost log = added(start, transport.log());
        let ghost old_data = data@;
        let mut j: usize = 0;
        while j < 16
            invariant
                j <= 16,
                offset + 16 <= size,
                data@.len() == size,
                response_parameters@.len() >= 16,
                forall|i: int| 0 <= i < j ==> #[trigger] data@[offset + i] == response_parameters@[i],
                forall|b: int| 0 <= b < size && !(offset <= b < offset + j) ==> #[trigger] data@[b] == old_data[b],
            decreases 16 - j,
        {
            data.set(offset + j, response_parameters[j]);
            j = j + 1;
        }
        proof {
            assert(response_parameters@ == reply(log[k])->Ok_0.subrange(4, reply(log[k])->Ok_0.len() as int));
            assert forall|b: int| 0 <= b < size - 16 && b < 16 * (k + 1) implies #[trigger] data@[b] == piece_byte(
                log,
                size as int,
                b / 16,
                b,
            ) by {
                if b < 16 * k {
                    assert(data@[b] == old_data[b]);
                    assert(log[b / 16] == added(start, before_piece)[b / 16]);
                } else {
                    assert(b / 16 == k);
                    assert(data@[offset + (b - offset)] == response_parameters@[b - offset]);
                }
            }
            if 16 * (k + 1) >= size {
                assert forall|b: int| size - 16 <= b < size implies #[trigger] data@[b] == piece_byte(log, size as int, k, b) by {
                    assert(data@[offset + (b - offset)] == response_parameters@[b - offset]);
                }
            }
            k = k + 1;
        }
        logical_offset = logical_offset + 16;
    }
    proof {
        let log = added(start, transport.log());
        assert(k == n);
        assert(data@ =~= sector_bytes(log, size as int));
    }
    Ok(data)
}

/// Why a sector write is refused before anything is sent, if it is.
pub open spec fn write_refusal(sector_size: u16, data: Seq<u8>) -> Option<Seq<char>> {
    if data.len() != sector_size {
        Some("板载写入数据长度与扇区大小不一致"@)
    } else {
        sector_crc_error(data)
    }
}

/// The request that opens a write of `sector_size` bytes to `sector` (function 6).
pub open spec fn write_start_request(feature_index: u8, sector: u16, sector_size: u16) -> Seq<u8> {
    spec_long_request(
        feature_index,
        6,
        seq![high_byte(sector), low_byte(sector), 0u8, 0u8, high_byte(sector_size), low_byte(sector_size)]
            + Seq::new(10, |i: int| 0u8),
    )
}

/// Piece `k` of `data`: sixteen bytes from `16 * k`, zero-padded past the end.
pub open spec fn write_piece(data: Seq<u8>, k: int) -> Seq<u8> {
    Seq::new(16, |j: int| if 16 * k + j < data.len() { data[16 * k + j] } else { 0u8 })
}

/// The request that carries piece `k` of `data` (function 7).
pub open spec fn write_piece_request(feature_index: u8, data: Seq<u8>, k: int) -> Seq<u8> {
    spec_long_request(feature_index, 7, write_piece(data, k))
}

/// The request that ends a write (function 8).
pub open spec fn write_end_request(feature_index: u8) -> Seq<u8> {
    spec_short_request(feature_index, 8, seq![0u8, 0u8, 0u8])
}

/// How many 16-byte pieces carry `length` bytes.
pub open spec fn piece_count(length: int) -> int {
    (length + 15) / 16
}

/// `log` is the exchanges of writing `data` to `sector`, which gave `r`: the start;
/// if it was accepted, the pieces in order up to the first refused one; and the end.
/// `r` is the start's or the refused piece's error, or else what the end gave.
pub open spec fn sector_write(
    feature_index: u8,
    sector: u16,
    sector_size: u16,
    data: Seq<u8>,
    log: Seq<Exchange>,
    r: Result<(), HidppErrorView>,
) -> bool {
    let sent = log.len() - 2;
    &&& log.len() >= 1
    &&& log[0].request == write_start_request(feature_index, sector, sector_size)
    &&& if reply(log[0]) is Err {
        log.len() == 1 && r == Err::<(), HidppErrorView>(reply(log[0])->Err_0)
    } else {
        &&& 0 <= sent <= piece_count(data.len() as int)
        &&& forall|k: int| 1 <= k <= sent ==> #[trigger] log[k].request == write_piece_request(feature_index, data, k - 1)
        &&& forall|k: int| 1 <= k < sent ==> #[trigger] reply(log[k]) is Ok
        &&& log.last().request == write_end_request(feature_index)
        &&& if sent >= 1 && reply(log[sent]) is Err {
            r == Err::<(), HidppErrorView>(reply(log[sent])->Err_0)
        } else {
            &&& sent == piece_count(data.len() as int)
            &&& r == match reply(log.last()) {
                Ok(_) => Ok::<(), HidppErrorView>(()),
                Err(e) => Err(e),
            }
        }
    }
}

/// Writes a whole sector: start (function 6), 16-byte pieces zero-padded at the end
/// (function 7), end (function 8). A failed piece still ends the write before the
/// error is returned. Data of the wrong length or with a bad CRC is refused.
pub fn write_onboard_sector<T: Transport>(
    transport: &mut HidppLink<T>,
    feature_index: u8,
    sector: u16,
    sector_size: u16,
    data: &[u8],
) -> (r: Result<(), HidppError>)
    ensures
        match write_refusal(sector_size, data@) {
            Some(message) => r is Err && r->Err_0@ == HidppErrorView::InvalidResponse(message) && final(transport).log()
                == old(transport).log(),
            None => extends(old(transport).log(), final(transport).log()) && sector_write(
                feature_index,
                sector,
                sector_size,
                data@,
                added(old(transport).log(), final(transport).log()),
                unit_reply(r),
            ),
        },
        r is Ok ==> write_refusal(sector_size, data@) is None,
{
    if data.len() != sector_size as usize {
        return Err(HidppError::InvalidResponse(text("板载写入数据长度与扇区大小不一致")));
    }
    validate_sector_crc(data)?;
    let ghost begin = transport.log();
    let sector_bytes = u16_to_be(sector);
    let size_bytes = u16_to_be(sector_size);
    let mut start = [0u8; 16];
    start[0] = sector_bytes[0];
    start[1] = sector_bytes[1];
    start[4] = size_bytes[0];
    start[5] = size_bytes[1];
    assert(start@ =~= seq![high_byte(sector), low_byte(sector), 0u8, 0u8, high_byte(sector_size), low_byte(sector_size)]
        + Seq::new(10, |i: int| 0u8));
    let opened = request_long(transport, feature_index, 6, start);
    proof {
        lemma_one_more(begin, transport.log(), write_start_request(feature_index, sector, sector_size));
    }
    if let Err(error) = opened {
        return Err(error);
    }
    let length = data.len();
    let mut offset: usize = 0;
    let ghost mut k: int = 0;
    while offset < length
        invariant
            length == data@.len(),
            length <= 0xffff,
            offset == 16 * k,
            0 <= k,
            16 * (k - 1) < length,
            write_refusal(sector_size, data@) is None,
            begin == old(transport).log(),
            extends(begin, transport.log()),
            added(begin, transport.log()).len() == k + 1,
            added(begin, transport.log())[0].request == write_start_request(feature_index, sector, sector_size),
            reply(added(begin, transport.log())[0]) is Ok,
            forall|m: int|
                1 <= m <= k ==> #[trigger] added(begin, transport.log())[m].request == write_piece_request(
                    feature_index,
                    data@,
                    m - 1,
                ) && reply(added(begin, transport.log())[m]) is Ok,
        decreases length + 16 - offset,
    {
        let mut chunk = [0u8; 16];
        let mut j: usize = 0;
        while j < 16
            invariant
                j <= 16,
                length == data@.len(),
                offset < length <= 0xffff,
                forall|i: int| 0 <= i < j ==> chunk@[i] == (if offset + i < length { data@[offset + i] } else { 0u8 }),
                forall|i: int| j <= i < 16 ==> chunk@[i] == 0u8,
            decreases 16 - j,
        {
            if offset + j < length {
                chunk[j] = data[offset + j];
            }
            j = j + 1;
        }
        assert(chunk@ =~= write_piece(data@, k));
        let ghost before_piece = transport.log();
        let written = request_long(transport, feature_index, 7, chunk);
        proof {
            lemma_one_more(before_piece, transport.log(), write_piece_request(feature_index, data@, k));
            lemma_added_chain(begin, before_piece, transport.log());
            assert(added(begin, transport.log()) =~= added(begin, before_piece).push(transport.log().last()));
        }
        if let Err(error) = written {
            let ghost before_end = transport.log();
            let zero = [0u8, 0, 0];
            assert(zero@ =~= seq![0u8, 0u8, 0u8]);
            let _ = request(transport, feature_index, 8, zero);
            proof {
                assert(k + 1 <= piece_count(length as int));
                lemma_one_more(before_end, transport.log(), write_end_request(feature_index));
                lemma_added_chain(begin, before_end, transport.log());
                assert(added(begin, transport.log()) =~= added(begin, before_end).push(transport.log().last()));
            }
            return Err(error);
        }
        offset = offset + 16;
        proof {
            k = k + 1;
        }
    }
    assert(k == piece_count(length as int));
    let ghost before_end = transport.log();
    let zero = [0u8, 0, 0];
    assert(zero@ =~= seq![0u8, 0u8, 0u8]);
    let ended = request(transport, feature_index, 8, zero);
    proof {
        lemma_one_more(before_end, transport.log(), write_end_request(feature_index));
        lemma_added_chain(begin, before_end, transport.log());
        assert(added(begin, transport.log()) =~= added(begin, before_end).push(transport.log().last()));
    }
    match ended {
        Ok(_) => Ok(()),
        Err(e) => Err(e),
    }
}

pub open spec fn unit_reply(r: Result<(), HidppError>) -> Result<(), HidppErrorView> {
    match r {
        Ok(()) => Ok(()),
        Err(e) => Err(e@),
    }
}

/// Whether two byte strings are equal.
pub fn bytes_equal(a: &[u8], b: &[u8]) -> (r: bool)
    ensures
        r == (a@ == b@),
{
    if a.len() != b.len() {
        return false;
    }
    let mut i: usize = 0;
    while i < a.len()
        invariant
            a@.len() == b@.len(),
            i <= a@.len(),
            forall|j: int| 0 <= j < i ==> a@[j] == b@[j],
        decreases a.len() - i,
    {
        if a[i] != b[i] {
            return false;
        }
        i = i + 1;
    }
    assert(a@ =~= b@);
    true
}

/// `log` starts with a whole-sector write of `original` to `sector`.
pub open spec fn restore_begins(feature_index: u8, sector: u16, sector_size: u16, original: Seq<u8>, log: Seq<Exchange>) -> bool {
    exists|q: int, outcome: Result<(), HidppErrorView>|
        0 <= q <= log.len() && #[trigger] sector_write(feature_index, sector, sector_size, original, log.subrange(0, q), outcome)
}

/// `log` is an acknowledged whole-sector write of `original` to `sector`, then a
/// complete read of that sector that gave `original` back.
pub open spec fn restore_verified(
    feature_index: u8,
    sector: u16,
    sector_size: u16,
    original: Seq<u8>,
    log: Seq<Exchange>,
) -> bool {
    exists|q: int|
        0 <= q <= log.len() && #[trigger] sector_write(
            feature_index,
            sector,
            sector_size,
            original,
            log.subrange(0, q),
            Ok::<(), HidppErrorView>(()),
        ) && sector_reads(feature_index, sector, sector_size as int, log.subrange(q, log.len() as int)) && sector_bytes(
            log.subrange(q, log.len() as int),
            sector_size as int,
        ) == original
}

/// A log starts with at most one whole-sector write: its length and outcome are
/// fixed by the exchanges.
proof fn lemma_sector_write_unique(
    feature_index: u8,
    sector: u16,
    sector_size: u16,
    data: Seq<u8>,
    log: Seq<Exchange>,
    q1: int,
    q2: int,
    r1: Result<(), HidppErrorView>,
    r2: Result<(), HidppErrorView>,
)
    requires
        0 <= q1 <= log.len(),
        0 <= q2 <= log.len(),
        sector_write(feature_index, sector, sector_size, data, log.subrange(0, q1), r1),
        sector_write(feature_index, sector, sector_size, data, log.subrange(0, q2), r2),
    ensures
        q1 == q2,
        r1 == r2,
{
    let a = log.subrange(0, q1);
    let b = log.subrange(0, q2);
    assert(a[0] == log[0]);
    assert(b[0] == log[0]);
    if reply(log[0]) is Ok {
        if q1 < q2 {
            assert(a.last() == log[q1 - 1]);
            assert(b[q1 - 1] == log[q1 - 1]);
            assert(b[q1 - 1].request == write_piece_request(feature_index, data, q1 - 2));
            assert(write_end_request(feature_index)[0] != write_piece_request(feature_index, data, q1 - 2)[0]);
        } else if q2 < q1 {
            assert(b.last() == log[q2 - 1]);
            assert(a[q2 - 1] == log[q2 - 1]);
            assert(a[q2 - 1].request == write_piece_request(feature_index, data, q2 - 2));
            assert(write_end_request(feature_index)[0] != write_piece_request(feature_index, data, q2 - 2)[0]);
        }
    }
    assert(a =~= b);
}

/// Writes the original sector back and confirms it by reading it again.
pub fn restore_onboard_sector<T: Transport>(
    transport: &mut HidppLink<T>,
    feature_index: u8,
    sector: u16,
    sector_size: u16,
    original: &[u8],
) -> (r: Result<(), HidppError>)
    ensures
        match write_refusal(sector_size, original@) {
            Some(message) => r is Err && r->Err_0@ == HidppErrorView::InvalidResponse(message),
            None => true,
        },
        r is Ok ==> write_refusal(sector_size, original@) is None,
        extends(old(transport).log(), final(transport).log()),
        write_refusal(sector_size, original@) is None ==> restore_begins(
            feature_index,
            sector,
            sector_size,
            original@,
            added(old(transport).log(), final(transport).log()),
        ),
        write_refusal(sector_size, original@) is None ==> (r is Ok <==> restore_verified(
            feature_index,
            sector,
            sector_size,
            original@,
            added(old(transport).log(), final(transport).log()),
        )),
{
    let ghost start = transport.log();
    proof {
        lemma_memory_untouched_refl(start);
    }
    let written = write_onboard_sector(transport, feature_index, sector, sector_size, original);
    let ghost l1 = transport.log();
    proof {
        if write_refusal(sector_size, original@) is None {
            let w = added(start, l1);
            assert(w.subrange(0, w.len() as int) =~= w);
            assert(sector_write(feature_index, sector, sector_size, original@, w.subrange(0, w.len() as int), unit_reply(written)));
        }
    }
    if let Err(e) = written {
        proof {
            if write_refusal(sector_size, original@) is None && restore_verified(
                feature_index,
                sector,
                sector_size,
                original@,
                added(start, l1),
            ) {
                let w = added(start, l1);
                let q = choose|q: int|
                    0 <= q <= w.len() && #[trigger] sector_write(
                        feature_index,
                        sector,
                        sector_size,
                        original@,
                        w.subrange(0, q),
                        Ok::<(), HidppErrorView>(()),
                    ) && sector_reads(feature_index, sector, sector_size as int, w.subrange(q, w.len() as int))
                        && sector_bytes(w.subrange(q, w.len() as int), sector_size as int) == original@;
                lemma_sector_write_unique(
                    feature_index,
                    sector,
                    sector_size,
                    original@,
                    w,
                    q,
                    w.len() as int,
                    Ok::<(), HidppErrorView>(()),
                    unit_reply(written),
                );
            }
        }
        return Err(e);
    }
    let restored = read_onboard_sector(transport, feature_index, sector, sector_size);
    let ghost w = added(start, l1);
    let ghost all = added(start, transport.log());
    proof {
        lemma_added_chain(start, l1, transport.log());
        assert(all.subrange(0, w.len() as int) =~= w);
        assert(all.subrange(w.len() as int, all.len() as int) =~= added(l1, transport.log()));
        assert(sector_write(feature_index, sector, sector_size, original@, all.subrange(0, w.len() as int), unit_reply(written)));
        if restore_verified(feature_index, sector, sector_size, original@, all) {
            let q = choose|q: int|
                0 <= q <= all.len() && #[trigger] sector_write(
                    feature_index,
                    sector,
                    sector_size,
                    original@,
                    all.subrange(0, q),
                    Ok::<(), HidppErrorView>(()),
                ) && sector_reads(feature_index, sector, sector_size as int, all.subrange(q, all.len() as int))
                    && sector_bytes(all.subrange(q, all.len() as int), sector_size as int) == original@;
            lemma_sector_write_unique(
                feature_index,
                sector,
                sector_size,
                original@,
                all,
                q,
                w.len() as int,
                Ok::<(), HidppErrorView>(()),
                unit_reply(written),
            );
            assert(sector_reads(feature_index, sector, sector_size as int, added(l1, transport.log())));
            assert(sector_bytes(added(l1, transport.log()), sector_size as int) == original@);
        }
    }
    let restored = restored?;
    if bytes_equal(&restored, original) {
        proof {
            assert(sector_write(
                feature_index,
                sector,
                sector_size,
                original@,
                all.subrange(0, w.len() as int),
                Ok::<(), HidppErrorView>(()),
            ));
        }
        Ok(())
    } else {
        Err(HidppError::InvalidResponse(text("原配置恢复后回读不一致")))
    }
}

/// The error reported for a failed profile write, given how the restore went.
pub open spec fn recovery_message(write_error: HidppErrorView, recovery: Result<(), HidppErrorView>) -> Seq<char> {
    match recovery {
        Ok(()) => "板载写入失败，已恢复并验证原配置："@ + spec_error_message(write_error),
        Err(recovery_error) => "板载写入失败且原配置恢复未验证；写入错误："@ + spec_error_message(write_error)
            + "；恢复错误："@ + spec_error_message(recovery_error),
    }
}

pub open spec fn result_view(r: Result<(), HidppError>) -> Result<(), HidppErrorView> {
    match r {
        Ok(()) => Ok(()),
        Err(e) => Err(e@),
    }
}

/// Combines a write failure with the outcome of restoring the original sector.
pub fn write_failure_with_recovery(write_error: HidppError, recovery: Result<(), HidppError>) -> (e: HidppError)
    ensures
        e@ == HidppErrorView::InvalidResponse(recovery_message(write_error@, result_view(recovery))),
{
    match recovery {
        Ok(()) => {
            let mut m = text("板载写入失败，已恢复并验证原配置：");
            m.append(write_error.message().as_str());
            HidppError::InvalidResponse(m)
        },
        Err(recovery_error) => {
            let mut m = text("板载写入失败且原配置恢复未验证；写入错误：");
            m.append(write_error.message().as_str());
            m.append("；恢复错误：");
            m.append(recovery_error.message().as_str());
            HidppError::InvalidResponse(m)
        },
    }
}

// ---------------------------------------------------------------------------
// Whole-device procedures
// ---------------------------------------------------------------------------

/// A sector as read back from onboard memory: of the sector size, with a valid CRC.
pub open spec fn sector_read(sector: Seq<u8>, sector_size: u16) -> bool {
    sector.len() == sector_size && sector_crc_error(sector) is None
}

/// The profile address in the first entry of a sector directory.
pub open spec fn directory_address(directory: Seq<u8>) -> u16 {
    be16(directory[0], directory[1])
}

/// A directory whose first entry is empty.
pub open spec fn empty_directory(directory: Seq<u8>, sector_size: u16) -> bool {
    sector_read(directory, sector_size) && directory_address(directory) == 0xffff
}

/// `snapshot` is what a profile sector at `address` holds, read with `button_count`
/// buttons.
pub open spec fn profile_snapshot_of(
    snapshot: OnboardProfileSnapshot,
    address: u16,
    enabled: bool,
    sector: Seq<u8>,
    button_count: u8,
) -> bool {
    &&& profile_layout_ok(sector, button_count)
    &&& snapshot.address == address
    &&& snapshot.enabled == enabled
    &&& snapshot.report_rate_hz == report_rate_of_divisor(sector[0])
    &&& snapshot.default_dpi_index == sector[1]
    &&& snapshot.shifted_dpi_index == sector[2]
    &&& snapshot.dpi_slots@ == kept_dpi_slots(sector, 5)
    &&& snapshot.buttons@.len() == button_count
    &&& forall|i: int|
        0 <= i < button_count ==> #[trigger] snapshot.buttons@[i] == spec_parse_button(sector_button(sector, i))
}

/// The first profile as read through a directory and a profile sector.
pub open spec fn first_profile_read(
    directory: Seq<u8>,
    profile: Seq<u8>,
    info: OnboardProfilesInfo,
    snapshot: OnboardProfileSnapshot,
) -> bool {
    &&& sector_read(directory, info.sector_size)
    &&& directory_address(directory) != 0xffff
    &&& directory_address(directory) < info.sector_count
    &&& sector_read(profile, info.sector_size)
    &&& profile_snapshot_of(snapshot, directory_address(directory), directory[2] != 0, profile, info.button_count)
}

/// `profile` is what reading the first onboard profile may give: `None` only when
/// the device keeps no profile or the directory's first entry is empty.
pub open spec fn first_profile_outcome(info: OnboardProfilesInfo, profile: Option<OnboardProfileSnapshot>) -> bool {
    match profile {
        None => info.profile_count == 0 || exists|directory: Seq<u8>|
            #[trigger] empty_directory(directory, info.sector_size),
        Some(snapshot) => info.profile_count != 0 && exists|directory: Seq<u8>, sector: Seq<u8>|
            #[trigger] first_profile_read(directory, sector, info, snapshot),
    }
}

/// Reads the first onboard profile through the sector directory: `None` when the
/// device keeps no profile or the directory's first entry is empty.
pub fn read_first_onboard_profile<T: Transport>(
    transport: &mut HidppLink<T>,
    feature_index: u8,
    info: &OnboardProfilesInfo,
) -> (r: Result<Option<OnboardProfileSnapshot>, HidppError>)
    ensures
        memory_untouched(old(transport).log(), final(transport).log()),
        dpi_untouched(old(transport).log(), final(transport).log()),
        info.profile_count == 0 ==> r == Ok::<Option<OnboardProfileSnapshot>, HidppError>(None),
        info.profile_count != 0 && !(18 <= info.sector_size <= 4096) ==> r is Err && r->Err_0@
            == HidppErrorView::InvalidResponse(
            "板载扇区大小 "@ + dec(info.sector_size as int) + " 超出安全范围 18–4096"@,
        ),
        r matches Ok(profile) ==> first_profile_outcome(*info, profile),
{
    let ghost untouched_from = transport.log();
    proof {
        lemma_memory_untouched_refl(untouched_from);
        lemma_dpi_untouched_refl(untouched_from);
    }
    if info.profile_count == 0 {
        return Ok(None);
    }
    let ghost prior = transport.log();
    let outcome = read_onboard_sector(transport, feature_index, 0, info.sector_size);
    proof {
        lemma_memory_untouched_chain(untouched_from, prior, transport.log());
        lemma_dpi_untouched_chain(untouched_from, prior, transport.log());
    }
    let directory = outcome?;
    validate_sector_crc(&directory)?;
    let address = u16_from_be(directory[0], directory[1]);
    if address == 0xffff {
        assert(empty_directory(directory@, info.sector_size));
        return Ok(None);
    }
    if address >= info.sector_count as u16 {
        let mut m = text("板载配置地址 0x");
        m.append(hex_text(address as u64, 4).as_str());
        m.append(" 超出 ");
        m.append(decimal_text(info.sector_count as u64).as_str());
        m.append(" 个扇区");
        return Err(HidppError::InvalidResponse(m));
    }
    let enabled = directory[2] != 0;
    let ghost prior = transport.log();
    let outcome = read_onboard_sector(transport, feature_index, address, info.sector_size);
    proof {
        lemma_memory_untouched_chain(untouched_from, prior, transport.log());
        lemma_dpi_untouched_chain(untouched_from, prior, transport.log());
    }
    let profile = outcome?;
    validate_sector_crc(&profile)?;
    let parsed = parse_onboard_profile(address, enabled, &profile, info.button_count);
    if let Ok(Some(snapshot)) = &parsed {
        assert(first_profile_read(directory@, profile@, *info, *snapshot));
    }
    parsed
}

/// Orders features by their index, keeping every feature.
pub fn sort_features_by_index(features: &Vec<HidppFeature>) -> (sorted: Vec<HidppFeature>)
    ensures
        sorted@.len() == features@.len(),
        sorted@.to_multiset() == features@.to_multiset(),
        forall|i: int, j: int| 0 <= i < j < sorted@.len() ==> sorted@[i].index <= sorted@[j].index,
{
    let mut sorted: Vec<HidppFeature> = Vec::new();
    let mut k: usize = 0;
    assert(sorted@ =~= features@.subrange(0, 0));
    while k < features.len()
        invariant
            k <= features@.len(),
            sorted@.len() == k,
            sorted@.to_multiset() == features@.subrange(0, k as int).to_multiset(),
            forall|i: int, j: int| 0 <= i < j < sorted@.len() ==> sorted@[i].index <= sorted@[j].index,
        decreases features.len() - k,
    {
        let item = HidppFeature {
            id: features[k].id,
            index: features[k].index,
            feature_type: features[k].feature_type,
            version: features[k].version,
        };
        assert(item == features@[k as int]);
        let mut p: usize = sorted.len();
        while p > 0 && sorted[p - 1].index > item.index
            invariant
                p <= sorted@.len(),
                forall|j: int| p <= j < sorted@.len() ==> sorted@[j].index > item.index,
            decreases p,
        {
            p = p - 1;
        }
        let ghost before = sorted@;
        sorted.insert(p, item);
        proof {
            to_multiset_insert(before, p as int, item);
            assert(features@.subrange(0, (k + 1) as int) =~= features@.subrange(0, k as int).push(item));
            to_multiset_build(features@.subrange(0, k as int), item);
            assert forall|i: int, j: int| 0 <= i < j < sorted@.len() implies sorted@[i].index
                <= sorted@[j].index by {
                if j < p {
                } else if j == p {
                    if i < p - 1 {
                        assert(before[i].index <= before[p - 1].index);
                    }
                } else if i < p {
                    assert(before[i].index <= before[j - 1].index || i == j - 1);
                } else if i == p {
                } else {
                    assert(before[i - 1].index <= before[j - 1].index);
                }
            }
        }
        k = k + 1;
    }
    assert(features@.subrange(0, features@.len() as int) =~= features@);
    sorted
}

/// The first feature with the given id, if any.
pub fn find_feature(features: &Vec<HidppFeature>, id: u16) -> (r: Option<u8>)
    ensures
        r matches Some(index) ==> feature_at(features@, id, index),
        r is None ==> forall|i: int| 0 <= i < features@.len() ==> #[trigger] features@[i].id != id,
{
    let mut i: usize = 0;
    while i < features.len()
        invariant
            i <= features@.len(),
            forall|j: int| 0 <= j < i ==> #[trigger] features@[j].id != id,
        decreases features.len() - i,
    {
        if features[i].id == id {
            assert(first_feature_entry(features@, id, i as int));
            return Some(features[i].index);
        }
        i = i + 1;
    }
    None
}

/// The root-feature query for the protocol version.
pub open spec fn version_query() -> Seq<u8> {
    spec_short_request(ROOT_FEATURE_INDEX, 1, seq![0u8, 0u8, 0u8])
}

/// Whether the feature table lists feature `id`.
pub open spec fn lists_feature(features: Seq<HidppFeature>, id: u16) -> bool {
    exists|i: int| 0 <= i < features.len() && #[trigger] features[i].id == id
}

/// Entry `i` is the first entry of the feature table for feature `id`.
pub open spec fn first_feature_entry(features: Seq<HidppFeature>, id: u16, i: int) -> bool {
    &&& 0 <= i < features.len()
    &&& features[i].id == id
    &&& forall|j: int| 0 <= j < i ==> #[trigger] features[j].id != id
}

/// Whether the first entry of the feature table for feature `id` is at `index`.
pub open spec fn feature_at(features: Seq<HidppFeature>, id: u16, index: u8) -> bool {
    exists|i: int| #[trigger] first_feature_entry(features, id, i) && features[i].index == index
}

/// A feature's first entry gives one index.
proof fn lemma_feature_at_unique(features: Seq<HidppFeature>, id: u16, a: u8, b: u8)
    requires
        feature_at(features, id, a),
        feature_at(features, id, b),
    ensures
        a == b,
{
    let i = choose|i: int| #[trigger] first_feature_entry(features, id, i) && features[i].index == a;
    let k = choose|k: int| #[trigger] first_feature_entry(features, id, k) && features[k].index == b;
    if i < k {
        assert(features[i].id != id);
    } else if k < i {
        assert(features[k].id != id);
    }
}

/// The tables a probe read: a feature table ordered by index, the DPI sensors read
/// through ADJUSTABLE_DPI (none without that feature), and the onboard state read
/// through ONBOARD_PROFILES (none without that feature).
pub open spec fn probe_tables(result: HidppProbeResult) -> bool {
    &&& 1 <= result.features@.len() <= 65
    &&& forall|i: int, j: int|
        0 <= i < j < result.features@.len() ==> result.features@[i].index <= result.features@[j].index
    &&& result.dpi_sensors@.len() <= 8
    &&& !lists_feature(result.features@, ADJUSTABLE_DPI_ID) ==> result.dpi_sensors@.len() == 0
    &&& lists_feature(result.features@, ADJUSTABLE_DPI_ID) ==> exists|index: u8|
        #[trigger] feature_at(result.features@, ADJUSTABLE_DPI_ID, index) && dpi_sensors_read(
            index,
            result.dpi_sensors@,
        )
    &&& result.onboard_profiles is None <==> !lists_feature(result.features@, ONBOARD_PROFILES_ID)
    &&& result.onboard_profiles is None ==> result.onboard_profile is None
    &&& result.onboard_profiles matches Some(info) ==> exists|index: u8|
        #[trigger] feature_at(result.features@, ONBOARD_PROFILES_ID, index) && onboard_profiles_read(index, info)
            && first_profile_outcome(info, result.onboard_profile)
}

/// What a probe that succeeded found: a version answer of HID++ 2.0 or later and
/// the tables of `probe_tables`.
pub open spec fn probe_outcome(result: HidppProbeResult) -> bool {
    &&& exists|version: Seq<u8>|
        #[trigger] answers(version_query(), version) && version.len() >= 6 && result.protocol_major == version[4]
            && result.protocol_minor == version[5]
    &&& result.protocol_major >= 2
    &&& probe_tables(result)
}

/// The query for the number of features (function 0 of Feature Set).
pub open spec fn feature_count_query(feature_set_index: u8) -> Seq<u8> {
    spec_short_request(feature_set_index, 0, seq![0u8, 0u8, 0u8])
}

/// How a probe opens, by the device's answers in `log`: the version query, whose
/// error is the probe's and whose answer below HID++ 2.0 is refused; then the
/// Feature Set lookup, refused when the device does not list it; then the feature
/// count, refused above 64.
pub open spec fn probe_opening(log: Seq<Exchange>, r: Result<HidppProbeResult, HidppError>) -> bool {
    let version = reply(log[0])->Ok_0;
    let set_index = index_of(log[1]);
    let count = reply(log[2])->Ok_0;
    &&& log.len() >= 1
    &&& log[0].request == version_query()
    &&& reply(log[0]) matches Err(e) ==> log.len() == 1 && r is Err && r->Err_0@ == e
    &&& reply(log[0]) is Ok && version.len() < 6 ==> log.len() == 1 && r is Err
    &&& reply(log[0]) is Ok && version.len() >= 6 && version[4] < 2 ==> log.len() == 1 && r is Err && r->Err_0@
        == HidppErrorView::InvalidResponse(
        "目标设备报告 HID++ "@ + dec(version[4] as int) + "."@ + dec(version[5] as int) + "，需要 2.0 或更高版本"@,
    )
    &&& reply(log[0]) is Ok && version.len() >= 6 && version[4] >= 2 ==> {
        &&& log.len() >= 2
        &&& log[1].request == feature_query(FEATURE_SET_ID)
        &&& reply(log[1]) matches Err(e) ==> log.len() == 2 && r is Err && r->Err_0@ == e
        &&& reply(log[1]) is Ok && set_index == 0 ==> log.len() == 2 && r is Err && r->Err_0@
            == HidppErrorView::InvalidResponse("设备未公开 Feature Set (0x0001)"@)
        &&& reply(log[1]) is Ok && set_index != 0 ==> {
            &&& log.len() >= 3
            &&& log[2].request == feature_count_query(set_index)
            &&& reply(log[2]) matches Err(e) ==> log.len() == 3 && r is Err && r->Err_0@ == e
            &&& reply(log[2]) is Ok && count.len() >= 5 && count[4] > 64 ==> log.len() == 3 && r is Err && r->Err_0@
                == HidppErrorView::InvalidResponse("功能数量 "@ + dec(count[4] as int) + " 超过安全上限 64"@)
        }
    }
}

/// Reads the feature table (the root and `count` more entries), the DPI sensors
/// and the onboard profile state.
fn probe_tables_of<T: Transport>(
    transport: &mut HidppLink<T>,
    feature_set_index: u8,
    count: u8,
    protocol_major: u8,
    protocol_minor: u8,
) -> (r: Result<HidppProbeResult, HidppError>)
    requires
        count <= 64,
    ensures
        memory_untouched(old(transport).log(), final(transport).log()),
        dpi_untouched(old(transport).log(), final(transport).log()),
        r matches Ok(result) ==> result.protocol_major == protocol_major && result.protocol_minor == protocol_minor
            && probe_tables(result),
{
    let ghost untouched_from = transport.log();
    proof {
        lemma_memory_untouched_refl(untouched_from);
        lemma_dpi_untouched_refl(untouched_from);
    }
    let mut listed: Vec<HidppFeature> = Vec::new();
    let mut ordinal: u8 = 0;
    while ordinal <= count
        invariant
            untouched_from == old(transport).log(),
            memory_untouched(untouched_from, transport.log()),
            dpi_untouched(untouched_from, transport.log()),
            count <= 64,
            ordinal <= count + 1,
            listed@.len() == ordinal,
        decreases count + 1 - ordinal,
    {
        let ghost prior = transport.log();
        let outcome = request(transport, feature_set_index, 1, [ordinal, 0, 0]);
        proof {
            lemma_memory_untouched_chain(untouched_from, prior, transport.log());
            lemma_dpi_untouched_chain(untouched_from, prior, transport.log());
        }
        let response = outcome?;
        let feature_parameters = parameters(&response, 3)?;
        let id = u16_from_be(feature_parameters[0], feature_parameters[1]);
        let ghost prior = transport.log();
        let outcome = get_feature(transport, id);
        proof {
            lemma_memory_untouched_chain(untouched_from, prior, transport.log());
            lemma_dpi_untouched_chain(untouched_from, prior, transport.log());
        }
        let found = outcome?;
        listed.push(HidppFeature {
            id: found.id,
            index: found.index,
            feature_type: feature_parameters[2],
            version: found.version,
        });
        ordinal = ordinal + 1;
    }
    let features = sort_features_by_index(&listed);
    let dpi_sensors = match find_feature(&features, ADJUSTABLE_DPI_ID) {
        Some(index) => {
            let ghost prior = transport.log();
            let outcome = read_dpi_sensors(transport, index);
            proof {
                lemma_memory_untouched_chain(untouched_from, prior, transport.log());
                lemma_dpi_untouched_chain(untouched_from, prior, transport.log());
            }
            let sensors = outcome?;
            assert(feature_at(features@, ADJUSTABLE_DPI_ID, index));
            sensors
        },
        None => Vec::new(),
    };
    let (onboard_profiles, onboard_profile) = match find_feature(&features, ONBOARD_PROFILES_ID) {
        Some(index) => {
            let ghost prior = transport.log();
            let outcome = read_onboard_profiles(transport, index);
            proof {
                lemma_memory_untouched_chain(untouched_from, prior, transport.log());
                lemma_dpi_untouched_chain(untouched_from, prior, transport.log());
            }
            let info = outcome?;
            let ghost prior = transport.log();
            let outcome = read_first_onboard_profile(transport, index, &info);
            proof {
                lemma_memory_untouched_chain(untouched_from, prior, transport.log());
                lemma_dpi_untouched_chain(untouched_from, prior, transport.log());
            }
            let profile = outcome?;
            assert(feature_at(features@, ONBOARD_PROFILES_ID, index));
            assert(lists_feature(features@, ONBOARD_PROFILES_ID));
            (Some(info), profile)
        },
        None => (None, None),
    };
    let result = HidppProbeResult {
        protocol_major,
        protocol_minor,
        features,
        dpi_sensors,
        onboard_profiles,
        onboard_profile,
    };
    assert(!lists_feature(result.features@, ADJUSTABLE_DPI_ID) ==> result.dpi_sensors@.len() == 0);
    assert(lists_feature(result.features@, ADJUSTABLE_DPI_ID) ==> exists|index: u8|
        #[trigger] feature_at(result.features@, ADJUSTABLE_DPI_ID, index) && dpi_sensors_read(
            index,
            result.dpi_sensors@,
        ));
    assert(result.onboard_profiles is None <==> !lists_feature(result.features@, ONBOARD_PROFILES_ID));
    assert(result.onboard_profiles matches Some(info) ==> exists|index: u8|
        #[trigger] feature_at(result.features@, ONBOARD_PROFILES_ID, index) && onboard_profiles_read(index, info)
            && first_profile_outcome(info, result.onboard_profile));
    Ok(result)
}

/// Queries the protocol version, the feature table (at most 64 features plus the
/// root), the DPI sensors and the onboard profile state.
pub fn probe<T: Transport>(transport: &mut HidppLink<T>) -> (r: Result<HidppProbeResult, HidppError>)
    ensures
        memory_untouched(old(transport).log(), final(transport).log()),
        dpi_untouched(old(transport).log(), final(transport).log()),
        probe_opening(added(old(transport).log(), final(transport).log()), r),
        r matches Ok(result) ==> probe_outcome(result),
{
    let ghost untouched_from = transport.log();
    proof {
        lemma_memory_untouched_refl(untouched_from);
        lemma_dpi_untouched_refl(untouched_from);
    }
    let zero = [0u8, 0, 0];
    assert(zero@ =~= seq![0u8, 0u8, 0u8]);
    let outcome = request(transport, ROOT_FEATURE_INDEX, 1, zero);
    let ghost l1 = transport.log();
    proof {
        lemma_memory_untouched_chain(untouched_from, untouched_from, l1);
        lemma_dpi_untouched_chain(untouched_from, untouched_from, l1);
        lemma_one_more(untouched_from, l1, version_query());
        assert(added(untouched_from, l1)[0] == l1.last());
    }
    let version_response = outcome?;
    let version_parameters = parameters(&version_response, 2)?;
    let protocol_major = version_parameters[0];
    let protocol_minor = version_parameters[1];
    proof {
        assert(protocol_major == version_response@[4]);
        assert(protocol_minor == version_response@[5]);
    }
    if protocol_major < 2 {
        let mut m = text("目标设备报告 HID++ ");
        m.append(decimal_text(protocol_major as u64).as_str());
        m.append(".");
        m.append(decimal_text(protocol_minor as u64).as_str());
        m.append("，需要 2.0 或更高版本");
        return Err(HidppError::InvalidResponse(m));
    }
    let outcome = get_feature(transport, FEATURE_SET_ID);
    let ghost l2 = transport.log();
    proof {
        lemma_memory_untouched_chain(untouched_from, l1, l2);
        lemma_dpi_untouched_chain(untouched_from, l1, l2);
        lemma_one_more(l1, l2, feature_query(FEATURE_SET_ID));
        lemma_added_chain(untouched_from, l1, l2);
        assert(added(untouched_from, l2) =~= seq![l1.last(), l2.last()]);
    }
    let feature_set = outcome?;
    if feature_set.index == 0 {
        return Err(HidppError::InvalidResponse(text("设备未公开 Feature Set (0x0001)")));
    }
    let outcome = request(transport, feature_set.index, 0, zero);
    let ghost l3 = transport.log();
    proof {
        lemma_memory_untouched_chain(untouched_from, l2, l3);
        lemma_dpi_untouched_chain(untouched_from, l2, l3);
        lemma_one_more(l2, l3, feature_count_query(feature_set.index));
        lemma_added_chain(untouched_from, l2, l3);
        assert(added(untouched_from, l3) =~= seq![l1.last(), l2.last(), l3.last()]);
    }
    let count_response = outcome?;
    let count = parameters(&count_response, 1)?[0];
    proof {
        assert(count == count_response@[4]);
    }
    if count > MAX_FEATURE_COUNT {
        let mut m = text("功能数量 ");
        m.append(decimal_text(count as u64).as_str());
        m.append(" 超过安全上限 64");
        return Err(HidppError::InvalidResponse(m));
    }
    let outcome = probe_tables_of(transport, feature_set.index, count, protocol_major, protocol_minor);
    proof {
        lemma_memory_untouched_chain(untouched_from, l3, transport.log());
        lemma_dpi_untouched_chain(untouched_from, l3, transport.log());
        lemma_segment(untouched_from, l3, transport.log());
        let a = added(untouched_from, transport.log());
        assert(a[0] == added(untouched_from, l3)[0]);
        assert(a[1] == added(untouched_from, l3)[1]);
        assert(a[2] == added(untouched_from, l3)[2]);
    }
    let result = outcome?;
    assert(answers(version_query(), version_response@));
    assert(exists|version: Seq<u8>|
        #[trigger] answers(version_query(), version) && version.len() >= 6 && result.protocol_major == version[4]
            && result.protocol_minor == version[5]);
    Ok(result)
}

/// The only onboard layout that is written: memory model 1, profile format 4, one
/// profile, six buttons, 255-byte sectors.
pub open spec fn verified_layout(info: OnboardProfilesInfo) -> bool {
    &&& info.memory_model_id == 0x01
    &&& info.profile_format_id == 0x04
    &&& info.profile_count == 1
    &&& info.button_count == 6
    &&& info.sector_size == 255
}

/// The exchanges include an onboard description answer that reports the verified
/// layout.
pub open spec fn layout_checked(log: Seq<Exchange>) -> bool {
    exists|k: int, index: u8, info: OnboardProfilesInfo|
        0 <= k < log.len() && #[trigger] description_answer(log[k], index, info) && verified_layout(info)
}

/// The sector that patching `original` with `actions` and `dpi` gives.
pub open spec fn built_sector(
    original: Seq<u8>,
    actions: Seq<OnboardButtonAction>,
    dpi: Option<ProfileDpiSettings>,
) -> Seq<u8> {
    spec_build_profile_sector(original, 6, actions, dpi)->Ok_0.0
}

/// The first onboard memory write in `log` is a whole-sector write of what patching
/// some profile sector with `actions` and `dpi` gives; nothing was written before.
pub open spec fn writes_profile(
    log: Seq<Exchange>,
    actions: Seq<OnboardButtonAction>,
    dpi: Option<ProfileDpiSettings>,
) -> bool {
    exists|p: int, q: int, index: u8, sector: u16, original: Seq<u8>, outcome: Result<(), HidppErrorView>|
        #![trigger sector_write(index, sector, 255, built_sector(original, actions, dpi), log.subrange(p, q), outcome)]
        0 <= p <= q <= log.len() && no_memory_write(log.subrange(0, p)) && spec_build_profile_sector(
            original,
            6,
            actions,
            dpi,
        ) is Ok && sector_write(index, sector, 255, built_sector(original, actions, dpi), log.subrange(p, q), outcome)
}

/// The first onboard memory write carries the patched profile, and a later
/// whole-sector write to the same sector puts back the sector it was patched from.
pub open spec fn write_restored(
    log: Seq<Exchange>,
    actions: Seq<OnboardButtonAction>,
    dpi: Option<ProfileDpiSettings>,
) -> bool {
    exists|p: int, q: int, p2: int, index: u8, sector: u16, original: Seq<u8>, outcome: Result<(), HidppErrorView>|
        #![trigger sector_write(index, sector, 255, built_sector(original, actions, dpi), log.subrange(p, q), outcome), restore_begins(index, sector, 255, original, log.subrange(p2, log.len() as int))]
        0 <= p <= q <= p2 <= log.len() && no_memory_write(log.subrange(0, p)) && spec_build_profile_sector(
            original,
            6,
            actions,
            dpi,
        ) is Ok && sector_write(index, sector, 255, built_sector(original, actions, dpi), log.subrange(p, q), outcome)
            && restore_begins(index, sector, 255, original, log.subrange(p2, log.len() as int))
}

/// Onboard memory was first written with the patched profile, whose whole sector
/// was then read back unchanged.
pub open spec fn write_confirmed(
    log: Seq<Exchange>,
    actions: Seq<OnboardButtonAction>,
    dpi: Option<ProfileDpiSettings>,
) -> bool {
    exists|p: int, q: int, q2: int, index: u8, sector: u16, original: Seq<u8>, outcome: Result<(), HidppErrorView>|
        #![trigger sector_write(index, sector, 255, built_sector(original, actions, dpi), log.subrange(p, q), outcome), sector_reads(index, sector, 255, log.subrange(q, q2))]
        0 <= p <= q <= q2 <= log.len() && no_memory_write(log.subrange(0, p)) && spec_build_profile_sector(
            original,
            6,
            actions,
            dpi,
        ) is Ok && sector_write(index, sector, 255, built_sector(original, actions, dpi), log.subrange(p, q), outcome)
            && sector_reads(index, sector, 255, log.subrange(q, q2)) && sector_bytes(log.subrange(q, q2), 255)
            == built_sector(original, actions, dpi)
}

proof fn lemma_write_confirmed(
    start: Seq<Exchange>,
    l4: Seq<Exchange>,
    l5: Seq<Exchange>,
    l6: Seq<Exchange>,
    index: u8,
    sector: u16,
    original: Seq<u8>,
    outcome: Result<(), HidppErrorView>,
    actions: Seq<OnboardButtonAction>,
    dpi: Option<ProfileDpiSettings>,
)
    requires
        extends(start, l4),
        extends(l4, l5),
        extends(l5, l6),
        no_memory_write(added(start, l4)),
        spec_build_profile_sector(original, 6, actions, dpi) is Ok,
        sector_write(index, sector, 255, built_sector(original, actions, dpi), added(l4, l5), outcome),
        sector_reads(index, sector, 255, added(l5, l6)),
        sector_bytes(added(l5, l6), 255) == built_sector(original, actions, dpi),
    ensures
        write_confirmed(added(start, l6), actions, dpi),
{
    lemma_added_chain(start, l4, l5);
    lemma_added_chain(start, l5, l6);
    let a = added(start, l6);
    let p = added(start, l4).len() as int;
    let q = added(start, l5).len() as int;
    assert(a.subrange(0, p) =~= added(start, l4));
    assert(a.subrange(p, q) =~= added(l4, l5));
    assert(a.subrange(q, a.len() as int) =~= added(l5, l6));
}

proof fn lemma_write_restored(
    start: Seq<Exchange>,
    l4: Seq<Exchange>,
    l5: Seq<Exchange>,
    l6: Seq<Exchange>,
    fin: Seq<Exchange>,
    index: u8,
    sector: u16,
    original: Seq<u8>,
    outcome: Result<(), HidppErrorView>,
    actions: Seq<OnboardButtonAction>,
    dpi: Option<ProfileDpiSettings>,
)
    requires
        extends(start, l4),
        extends(l4, l5),
        extends(l5, l6),
        extends(l6, fin),
        no_memory_write(added(start, l4)),
        spec_build_profile_sector(original, 6, actions, dpi) is Ok,
        sector_write(index, sector, 255, built_sector(original, actions, dpi), added(l4, l5), outcome),
        restore_begins(index, sector, 255, original, added(l6, fin)),
    ensures
        write_restored(added(start, fin), actions, dpi),
{
    lemma_added_chain(start, l4, l5);
    lemma_added_chain(start, l5, l6);
    lemma_added_chain(start, l6, fin);
    let a = added(start, fin);
    let p = added(start, l4).len() as int;
    let q = added(start, l5).len() as int;
    let p2 = added(start, l6).len() as int;
    assert(a.subrange(0, p) =~= added(start, l4));
    assert(a.subrange(p, q) =~= added(l4, l5));
    assert(a.subrange(p2, a.len() as int) =~= added(l6, fin));
}

/// Onboard memory was written only after the verified layout was read, and the
/// first write carries the patched profile.
pub open spec fn guarded_write(
    log: Seq<Exchange>,
    actions: Seq<OnboardButtonAction>,
    dpi: Option<ProfileDpiSettings>,
) -> bool {
    layout_checked(log) && writes_profile(log, actions, dpi)
}

proof fn lemma_guarded_write_extend(
    a: Seq<Exchange>,
    b: Seq<Exchange>,
    c: Seq<Exchange>,
    actions: Seq<OnboardButtonAction>,
    dpi: Option<ProfileDpiSettings>,
)
    requires
        extends(a, b),
        extends(b, c),
        guarded_write(added(a, b), actions, dpi),
    ensures
        extends(a, c),
        guarded_write(added(a, c), actions, dpi),
{
    lemma_layout_checked_extend(a, b, c);
    let x = added(a, b);
    let y = added(a, c);
    let (p, q, index, sector, original, outcome) = choose|
        p: int,
        q: int,
        index: u8,
        sector: u16,
        original: Seq<u8>,
        outcome: Result<(), HidppErrorView>,
    |
        #![trigger sector_write(index, sector, 255, built_sector(original, actions, dpi), x.subrange(p, q), outcome)]
        0 <= p <= q <= x.len() && no_memory_write(x.subrange(0, p)) && spec_build_profile_sector(
            original,
            6,
            actions,
            dpi,
        ) is Ok && sector_write(index, sector, 255, built_sector(original, actions, dpi), x.subrange(p, q), outcome);
    assert(y.subrange(p, q) =~= x.subrange(p, q));
    assert(y.subrange(0, p) =~= x.subrange(0, p));
    assert(sector_write(index, sector, 255, built_sector(original, actions, dpi), y.subrange(p, q), outcome));
}

/// Memory written in `log` was written only as `guarded_write` allows.
pub open spec fn write_guarded(
    log: Seq<Exchange>,
    actions: Seq<OnboardButtonAction>,
    dpi: Option<ProfileDpiSettings>,
) -> bool {
    !no_memory_write(log) ==> guarded_write(log, actions, dpi)
}

pub proof fn lemma_write_guarded_after(
    a: Seq<Exchange>,
    b: Seq<Exchange>,
    c: Seq<Exchange>,
    actions: Seq<OnboardButtonAction>,
    dpi: Option<ProfileDpiSettings>,
)
    requires
        memory_untouched(a, b),
        extends(b, c),
        write_guarded(added(b, c), actions, dpi),
    ensures
        extends(a, c),
        write_guarded(added(a, c), actions, dpi),
{
    lemma_added_chain(a, b, c);
    let x = added(a, b);
    let y = added(b, c);
    let z = added(a, c);
    if no_memory_write(y) {
        lemma_memory_untouched_chain(a, b, c);
    } else {
        let (k, index, info) = choose|k: int, index: u8, info: OnboardProfilesInfo|
            0 <= k < y.len() && #[trigger] description_answer(y[k], index, info) && verified_layout(info);
        assert(z[k + x.len()] == y[k]);
        assert(description_answer(z[k + x.len()], index, info));
        let (p, q, fi, sector, original, outcome) = choose|
            p: int,
            q: int,
            fi: u8,
            sector: u16,
            original: Seq<u8>,
            outcome: Result<(), HidppErrorView>,
        |
            #![trigger sector_write(fi, sector, 255, built_sector(original, actions, dpi), y.subrange(p, q), outcome)]
            0 <= p <= q <= y.len() && no_memory_write(y.subrange(0, p)) && spec_build_profile_sector(
                original,
                6,
                actions,
                dpi,
            ) is Ok && sector_write(fi, sector, 255, built_sector(original, actions, dpi), y.subrange(p, q), outcome);
        let shift = x.len() as int;
        assert(z.subrange(p + shift, q + shift) =~= y.subrange(p, q));
        assert(z.subrange(0, p + shift) =~= x + y.subrange(0, p));
        assert forall|m: int| 0 <= m < p + shift implies !memory_write(#[trigger] z.subrange(0, p + shift)[m].request) by {
            if m < shift {
                assert(z.subrange(0, p + shift)[m] == x[m]);
            } else {
                assert(z.subrange(0, p + shift)[m] == y.subrange(0, p)[m - shift]);
            }
        }
        assert(sector_write(fi, sector, 255, built_sector(original, actions, dpi), z.subrange(p + shift, q + shift), outcome));
    }
}

pub proof fn lemma_write_guarded_before(
    a: Seq<Exchange>,
    b: Seq<Exchange>,
    c: Seq<Exchange>,
    actions: Seq<OnboardButtonAction>,
    dpi: Option<ProfileDpiSettings>,
)
    requires
        extends(a, b),
        write_guarded(added(a, b), actions, dpi),
        memory_untouched(b, c),
    ensures
        extends(a, c),
        write_guarded(added(a, c), actions, dpi),
{
    if no_memory_write(added(a, b)) {
        lemma_memory_untouched_chain(a, b, c);
    } else {
        lemma_guarded_write_extend(a, b, c, actions, dpi);
    }
}

proof fn lemma_layout_checked_extend(a: Seq<Exchange>, b: Seq<Exchange>, c: Seq<Exchange>)
    requires
        extends(a, b),
        extends(b, c),
        layout_checked(added(a, b)),
    ensures
        extends(a, c),
        layout_checked(added(a, c)),
{
    lemma_added_chain(a, b, c);
    let (k, index, info) = choose|k: int, index: u8, info: OnboardProfilesInfo|
        0 <= k < added(a, b).len() && #[trigger] description_answer(added(a, b)[k], index, info) && verified_layout(
            info,
        );
    assert(added(a, c)[k] == added(a, b)[k]);
    assert(description_answer(added(a, c)[k], index, info));
}

/// The outcome of a profile write that reached the device: the changed button slots
/// and DPI flag are those of patching some CRC-valid, 6-button, 255-byte sector that
/// the device returned.
pub open spec fn write_outcome(
    result: OnboardWriteResult,
    actions: Seq<OnboardButtonAction>,
    dpi: Option<ProfileDpiSettings>,
) -> bool {
    &&& result.verified
    &&& exists|original: Seq<u8>|
        #[trigger] spec_build_profile_sector(original, 6, actions, dpi) matches Ok((_, changed, dpi_changed))
            && result.changed_buttons@ == changed && result.dpi_changed == dpi_changed
}

/// The onboard index the first answer of a profile write gives.
pub open spec fn ready_index(log: Seq<Exchange>) -> u8 {
    index_of(log[0])
}

/// The onboard capabilities reported before a profile write.
pub open spec fn ready_info(log: Seq<Exchange>) -> OnboardProfilesInfo {
    profiles_info(log.subrange(1, 4))
}

/// The directory sector read before a profile write.
pub open spec fn ready_directory(log: Seq<Exchange>) -> Seq<u8> {
    sector_bytes(log.subrange(4, 20), 255)
}

/// The profile sector the directory names.
pub open spec fn ready_address(log: Seq<Exchange>) -> u16 {
    be16(ready_directory(log)[0], ready_directory(log)[1])
}

/// The profile sector read before a profile write.
pub open spec fn ready_original(log: Seq<Exchange>) -> Seq<u8> {
    sector_bytes(log.subrange(20, 36), 255)
}

/// The patched sector, the changed button slots and whether the DPI slots changed.
pub open spec fn ready_build(
    log: Seq<Exchange>,
    actions: Seq<OnboardButtonAction>,
    dpi: Option<ProfileDpiSettings>,
) -> (Seq<u8>, Seq<usize>, bool) {
    spec_build_profile_sector(ready_original(log), 6, actions, dpi)->Ok_0
}

/// The first thirty-six exchanges of `log` are what a profile write reads before it
/// may write: the ONBOARD_PROFILES lookup at a non-zero index, good onboard answers
/// reporting the verified layout, a complete read of the directory sector with a
/// valid CRC naming a profile sector below the sector count, and a complete read of
/// that sector.
pub open spec fn profile_read(log: Seq<Exchange>) -> bool {
    let index = ready_index(log);
    let address = ready_address(log);
    &&& log.len() >= 36
    &&& log[0].request == feature_query(ONBOARD_PROFILES_ID)
    &&& reply(log[0]) is Ok
    &&& index != 0
    &&& profiles_answered(index, log.subrange(1, 4))
    &&& verified_layout(ready_info(log))
    &&& sector_reads(index, 0, 255, log.subrange(4, 20))
    &&& sector_crc_error(ready_directory(log)) is None
    &&& address != 0xffff
    &&& address < ready_info(log).sector_count
    &&& sector_reads(index, address, 255, log.subrange(20, 36))
}

/// The reads before a profile write succeeded, and the profile sector read patches
/// cleanly with `actions` and `dpi`.
pub open spec fn profile_ready(
    log: Seq<Exchange>,
    actions: Seq<OnboardButtonAction>,
    dpi: Option<ProfileDpiSettings>,
) -> bool {
    profile_read(log) && spec_build_profile_sector(ready_original(log), 6, actions, dpi) is Ok
}

/// What follows the reads when the patched sector differs: a whole-sector write of
/// it; if the write was acknowledged and the sector read back whole and equal, the
/// write is reported with the changed slots; otherwise the result is an
/// `InvalidResponse` error, after a write of the original sector began.
pub open spec fn write_stage(
    log: Seq<Exchange>,
    actions: Seq<OnboardButtonAction>,
    dpi: Option<ProfileDpiSettings>,
    r: Result<OnboardWriteResult, HidppError>,
) -> bool {
    let index = ready_index(log);
    let address = ready_address(log);
    let desired = ready_build(log, actions, dpi).0;
    exists|q: int, outcome: Result<(), HidppErrorView>|
        36 <= q <= log.len() && #[trigger] sector_write(index, address, 255, desired, log.subrange(36, q), outcome) && if outcome
            is Ok && q + 16 <= log.len() && sector_reads(index, address, 255, log.subrange(q, q + 16)) && sector_bytes(
            log.subrange(q, q + 16),
            255,
        ) == desired {
            &&& log.len() == q + 16
            &&& r matches Ok(result)
            &&& r->Ok_0.profile_sector == address
            &&& r->Ok_0.changed_buttons@ == ready_build(log, actions, dpi).1
            &&& r->Ok_0.dpi_changed == ready_build(log, actions, dpi).2
            &&& r->Ok_0.verified
        } else {
            &&& r is Err
            &&& exists|k: int, w: HidppErrorView, rec: Result<(), HidppErrorView>|
                q <= k <= log.len() && #[trigger] restore_begins(
                    index,
                    address,
                    255,
                    ready_original(log),
                    log.subrange(k, log.len() as int),
                ) && r->Err_0@ == HidppErrorView::InvalidResponse(#[trigger] recovery_message(w, rec)) && (rec is Ok
                    <==> restore_verified(index, address, 255, ready_original(log), log.subrange(k, log.len() as int)))
        }
}

/// What a profile write did, given the device's answers in `log`: memory is written
/// only after the reads a write needs; an unchanged sector gives success with no
/// write; a changed one goes through `write_stage`; a sector that does not patch
/// gives the patching error.
pub open spec fn profile_write_outcome(
    log: Seq<Exchange>,
    actions: Seq<OnboardButtonAction>,
    dpi: Option<ProfileDpiSettings>,
    r: Result<OnboardWriteResult, HidppError>,
) -> bool {
    let built = ready_build(log, actions, dpi);
    &&& !no_memory_write(log) ==> profile_ready(log, actions, dpi)
    &&& profile_ready(log, actions, dpi) && built.1.len() == 0 && !built.2 ==> {
        &&& log.len() == 36
        &&& r matches Ok(result)
        &&& r->Ok_0.profile_sector == ready_address(log)
        &&& r->Ok_0.changed_buttons@.len() == 0
        &&& !r->Ok_0.dpi_changed
        &&& r->Ok_0.verified
    }
    &&& profile_ready(log, actions, dpi) && (built.1.len() > 0 || built.2) ==> write_stage(log, actions, dpi, r)
    &&& profile_read(log) && spec_build_profile_sector(ready_original(log), 6, actions, dpi) is Err ==> {
        &&& log.len() == 36
        &&& r is Err
        &&& r->Err_0@ == spec_build_profile_sector(ready_original(log), 6, actions, dpi)->Err_0
    }
}

proof fn lemma_segment<A>(a: Seq<A>, b: Seq<A>, c: Seq<A>)
    requires
        extends(a, b),
        extends(b, c),
    ensures
        extends(a, c),
        added(a, c).subrange(0, added(a, b).len() as int) == added(a, b),
        added(a, c).subrange(added(a, b).len() as int, added(a, c).len() as int) == added(b, c),
        added(a, c).len() == added(a, b).len() + added(b, c).len(),
{
    lemma_added_chain(a, b, c);
    assert(added(a, c).subrange(0, added(a, b).len() as int) =~= added(a, b));
    assert(added(a, c).subrange(added(a, b).len() as int, added(a, c).len() as int) =~= added(b, c));
}

/// `profile_ready` and its parts look only at the first thirty-six exchanges.
proof fn lemma_ready_prefix(
    x: Seq<Exchange>,
    y: Seq<Exchange>,
    actions: Seq<OnboardButtonAction>,
    dpi: Option<ProfileDpiSettings>,
)
    requires
        x.len() == 36,
        y.len() >= 36,
        y.subrange(0, 36) == x,
    ensures
        profile_read(y) == profile_read(x),
        profile_ready(y, actions, dpi) == profile_ready(x, actions, dpi),
        ready_index(y) == ready_index(x),
        ready_address(y) == ready_address(x),
        ready_original(y) == ready_original(x),
        ready_build(y, actions, dpi) == ready_build(x, actions, dpi),
{
    assert(y[0] == x[0]);
    assert(y.subrange(1, 4) =~= x.subrange(1, 4));
    assert(y.subrange(4, 20) =~= x.subrange(4, 20));
    assert(y.subrange(20, 36) =~= x.subrange(20, 36));
}

/// A profile write whose write or read-back did not succeed, and which then began
/// writing the original sector back, is an `InvalidResponse` failure in `write_stage`.
proof fn lemma_stage_failed(
    start: Seq<Exchange>,
    l4: Seq<Exchange>,
    l5: Seq<Exchange>,
    l6: Seq<Exchange>,
    fin: Seq<Exchange>,
    actions: Seq<OnboardButtonAction>,
    dpi: Option<ProfileDpiSettings>,
    outcome: Result<(), HidppErrorView>,
    r: Result<OnboardWriteResult, HidppError>,
    w: HidppErrorView,
    rec: Result<(), HidppErrorView>,
)
    requires
        extends(start, l4),
        extends(l4, l5),
        extends(l5, l6),
        extends(l6, fin),
        added(start, l4).len() == 36,
        profile_ready(added(start, l4), actions, dpi),
        sector_write(
            ready_index(added(start, l4)),
            ready_address(added(start, l4)),
            255,
            ready_build(added(start, l4), actions, dpi).0,
            added(l4, l5),
            outcome,
        ),
        outcome is Err ==> l6 == l5,
        outcome is Ok ==> read_failed(ready_index(added(start, l4)), ready_address(added(start, l4)), 255, added(l5, l6))
            || (sector_reads(ready_index(added(start, l4)), ready_address(added(start, l4)), 255, added(l5, l6))
            && sector_bytes(added(l5, l6), 255) != ready_build(added(start, l4), actions, dpi).0),
        restore_begins(
            ready_index(added(start, l4)),
            ready_address(added(start, l4)),
            255,
            ready_original(added(start, l4)),
            added(l6, fin),
        ),
        r is Err,
        r->Err_0@ == HidppErrorView::InvalidResponse(recovery_message(w, rec)),
        rec is Ok <==> restore_verified(
            ready_index(added(start, l4)),
            ready_address(added(start, l4)),
            255,
            ready_original(added(start, l4)),
            added(l6, fin),
        ),
    ensures
        extends(start, fin),
        profile_ready(added(start, fin), actions, dpi),
        ready_build(added(start, fin), actions, dpi) == ready_build(added(start, l4), actions, dpi),
        write_stage(added(start, fin), actions, dpi, r),
{
    let a4 = added(start, l4);
    lemma_segment(start, l4, l5);
    lemma_segment(start, l5, l6);
    lemma_segment(start, l6, fin);
    lemma_segment(l4, l5, l6);
    lemma_segment(l4, l6, fin);
    lemma_segment(start, l4, fin);
    let a = added(start, fin);
    lemma_ready_prefix(a4, a, actions, dpi);
    let q: int = 36 + added(l4, l5).len() as int;
    let k: int = q + added(l5, l6).len() as int;
    assert(a.subrange(36, q) =~= added(l4, l5));
    assert(a.subrange(q, k) =~= added(l5, l6));
    assert(a.subrange(k, a.len() as int) =~= added(l6, fin));
    let index = ready_index(a4);
    let address = ready_address(a4);
    let desired = ready_build(a4, actions, dpi).0;
    if outcome is Ok && q + 16 <= a.len() && sector_reads(index, address, 255, a.subrange(q, q + 16)) {
        let rb = added(l5, l6);
        if read_failed(index, address, 255, rb) {
            let j: int = rb.len() - 1;
            assert(a.subrange(q, q + 16)[j] == rb[j]);
            assert(piece_good(a.subrange(q, q + 16)[j]));
        } else {
            assert(rb.len() == 16);
            assert(a.subrange(q, q + 16) =~= rb);
        }
    }
    assert(restore_begins(index, address, 255, ready_original(a), a.subrange(k, a.len() as int)));
    assert(sector_write(index, address, 255, desired, a.subrange(36, q), outcome));
    assert(r->Err_0@ == HidppErrorView::InvalidResponse(recovery_message(w, rec)));
}

/// A profile write whose write was acknowledged and whose whole sector read back
/// equal to what was written is a success in `write_stage`.
proof fn lemma_stage_confirmed(
    start: Seq<Exchange>,
    l4: Seq<Exchange>,
    l5: Seq<Exchange>,
    l6: Seq<Exchange>,
    actions: Seq<OnboardButtonAction>,
    dpi: Option<ProfileDpiSettings>,
    r: Result<OnboardWriteResult, HidppError>,
)
    requires
        extends(start, l4),
        extends(l4, l5),
        extends(l5, l6),
        added(start, l4).len() == 36,
        profile_ready(added(start, l4), actions, dpi),
        sector_write(
            ready_index(added(start, l4)),
            ready_address(added(start, l4)),
            255,
            ready_build(added(start, l4), actions, dpi).0,
            added(l4, l5),
            Ok::<(), HidppErrorView>(()),
        ),
        sector_reads(ready_index(added(start, l4)), ready_address(added(start, l4)), 255, added(l5, l6)),
        sector_bytes(added(l5, l6), 255) == ready_build(added(start, l4), actions, dpi).0,
        r is Ok,
        r->Ok_0.profile_sector == ready_address(added(start, l4)),
        r->Ok_0.changed_buttons@ == ready_build(added(start, l4), actions, dpi).1,
        r->Ok_0.dpi_changed == ready_build(added(start, l4), actions, dpi).2,
        r->Ok_0.verified,
    ensures
        extends(start, l6),
        profile_ready(added(start, l6), actions, dpi),
        ready_build(added(start, l6), actions, dpi) == ready_build(added(start, l4), actions, dpi),
        write_stage(added(start, l6), actions, dpi, r),
{
    let a4 = added(start, l4);
    lemma_segment(start, l4, l5);
    lemma_segment(start, l5, l6);
    lemma_segment(l4, l5, l6);
    lemma_segment(start, l4, l6);
    let a = added(start, l6);
    lemma_ready_prefix(a4, a, actions, dpi);
    let q: int = 36 + added(l4, l5).len() as int;
    assert(a.subrange(36, q) =~= added(l4, l5));
    assert(a.subrange(q, q + 16) =~= added(l5, l6));
    assert(sector_write(ready_index(a4), ready_address(a4), 255, ready_build(a4, actions, dpi).0, a.subrange(36, q), Ok::<(), HidppErrorView>(())));
}

/// Rewrites the onboard profile sector with new button bindings and, optionally, DPI
/// slots. Only the verified layout (memory model 1, profile format 4, one profile,
/// six buttons, 255-byte sectors) is written. An unchanged sector is not written. A
/// write is confirmed by reading the whole sector back; when the write or the check
/// fails, the original sector is written back and checked too.
#[verifier::spinoff_prover]
#[verifier::rlimit(80)]
pub fn apply_profile_settings<T: Transport>(
    transport: &mut HidppLink<T>,
    actions: &[OnboardButtonAction; 6],
    dpi: Option<ProfileDpiSettings>,
) -> (r: Result<OnboardWriteResult, HidppError>)
    ensures
        r matches Ok(result) ==> write_outcome(result, actions@, dpi),
        extends(old(transport).log(), final(transport).log()),
        !no_memory_write(added(old(transport).log(), final(transport).log())) ==> guarded_write(
            added(old(transport).log(), final(transport).log()),
            actions@,
            dpi,
        ),
        r matches Ok(result) && result.changed_buttons@.len() == 0 && !result.dpi_changed ==> no_memory_write(
            added(old(transport).log(), final(transport).log()),
        ),
        r is Err && !no_memory_write(added(old(transport).log(), final(transport).log())) ==> write_restored(
            added(old(transport).log(), final(transport).log()),
            actions@,
            dpi,
        ),
        r matches Ok(result) && (result.changed_buttons@.len() > 0 || result.dpi_changed) ==> write_confirmed(
            added(old(transport).log(), final(transport).log()),
            actions@,
            dpi,
        ),
        profile_write_outcome(added(old(transport).log(), final(transport).log()), actions@, dpi, r),
{
    let ghost start = transport.log();
    let feature = get_feature(transport, ONBOARD_PROFILES_ID);
    let ghost l1 = transport.log();
    proof {
        lemma_one_more(start, l1, feature_query(ONBOARD_PROFILES_ID));
    }
    let feature = feature?;
    if feature.index == 0 {
        return Err(HidppError::InvalidResponse(text("设备未公开 ONBOARD_PROFILES (0x8100)")));
    }
    let info = read_onboard_profiles(transport, feature.index);
    let ghost l2 = transport.log();
    proof {
        lemma_memory_untouched_chain(start, l1, l2);
        lemma_segment(start, l1, l2);
    }
    let info = info?;
    if info.memory_model_id != 0x01 || info.profile_format_id != 0x04 || info.profile_count != 1
        || info.button_count != 6 || info.sector_size != 255 {
        let mut m = text("拒绝板载写入：未验证的格式 memory=0x");
        m.append(hex_text(info.memory_model_id as u64, 2).as_str());
        m.append(" profile=0x");
        m.append(hex_text(info.profile_format_id as u64, 2).as_str());
        m.append(" profiles=");
        m.append(decimal_text(info.profile_count as u64).as_str());
        m.append(" buttons=");
        m.append(decimal_text(info.button_count as u64).as_str());
        m.append(" sector_size=");
        m.append(decimal_text(info.sector_size as u64).as_str());
        return Err(HidppError::InvalidResponse(m));
    }
    proof {
        lemma_added_chain(start, l1, l2);
        let k = added(start, l1).len() as int;
        assert(added(start, l2)[k] == added(l1, l2)[0]);
        assert(description_answer(added(start, l2)[k], feature.index, info));
        assert(layout_checked(added(start, l2)));
    }
    let directory = read_onboard_sector(transport, feature.index, 0, info.sector_size);
    let ghost l3 = transport.log();
    proof {
        lemma_memory_untouched_chain(start, l2, l3);
        lemma_layout_checked_extend(start, l2, l3);
        lemma_segment(start, l2, l3);
    }
    let directory = directory?;
    validate_sector_crc(&directory)?;
    let profile_sector = u16_from_be(directory[0], directory[1]);
    if profile_sector == 0xffff || profile_sector >= info.sector_count as u16 {
        let mut m = text("拒绝板载写入：配置扇区地址 0x");
        m.append(hex_text(profile_sector as u64, 4).as_str());
        m.append(" 无效");
        return Err(HidppError::InvalidResponse(m));
    }
    let original = read_onboard_sector(transport, feature.index, profile_sector, info.sector_size);
    let ghost l4 = transport.log();
    proof {
        lemma_memory_untouched_chain(start, l3, l4);
        lemma_layout_checked_extend(start, l3, l4);
        lemma_segment(start, l3, l4);
        lemma_segment(l1, l2, l3);
        lemma_segment(l2, l3, l4);
        lemma_segment(start, l1, l3);
        lemma_segment(start, l2, l4);
        let a = added(start, l4);
        if a.len() == 36 {
            assert(a.subrange(20, 36) =~= added(l3, l4));
            if original is Err {
                assert(a.subrange(20, 36)[15] == added(l3, l4).last());
                assert(!profile_ready(a, actions@, dpi));
            }
        }
    }
    let original = original?;
    let ghost a4 = added(start, l4);
    proof {
        assert(a4.len() == 36);
        assert(a4[0] == added(start, l1)[0]);
        assert(a4.subrange(1, 4) =~= added(l1, l2));
        assert(a4.subrange(4, 20) =~= added(l2, l3));
        assert(a4.subrange(20, 36) =~= added(l3, l4));
        assert(ready_index(a4) == feature.index);
        assert(ready_info(a4) == info);
        assert(ready_directory(a4) == directory@);
        assert(ready_address(a4) == profile_sector);
        assert(ready_original(a4) == original@);
    }
    assert(profile_read(a4));
    let (desired, changed_buttons, dpi_changed) = build_profile_sector(
        &original,
        info.button_count,
        actions,
        dpi,
    )?;
    assert(spec_build_profile_sector(original@, 6, actions@, dpi) is Ok);
    assert(profile_ready(a4, actions@, dpi));
    if changed_buttons.len() == 0 && !dpi_changed {
        return Ok(OnboardWriteResult { profile_sector, changed_buttons, dpi_changed, verified: true });
    }
    let written = write_onboard_sector(transport, feature.index, profile_sector, info.sector_size, &desired);
    let ghost l5 = transport.log();
    proof {
        lemma_build_profile_sector_frame(original@, 6, actions@, dpi);
        assert(write_refusal(info.sector_size, desired@) is None);
        lemma_layout_checked_extend(start, l4, l5);
        lemma_added_chain(start, l4, l5);
        let x = added(start, l5);
        let p = added(start, l4).len() as int;
        assert(x.subrange(p, x.len() as int) =~= added(l4, l5));
        assert(x.subrange(0, p) =~= added(start, l4));
        assert(sector_write(
            feature.index,
            profile_sector,
            255,
            built_sector(original@, actions@, dpi),
            x.subrange(p, x.len() as int),
            unit_reply(written),
        ));
        assert(writes_profile(x, actions@, dpi));
    }
    if let Err(write_error) = written {
        let ghost before_restore = transport.log();
        let recovery = restore_onboard_sector(
            transport,
            feature.index,
            profile_sector,
            info.sector_size,
            &original,
        );
        proof {
            lemma_guarded_write_extend(start, l5, transport.log(), actions@, dpi);
            lemma_memory_untouched_refl(l5);
            lemma_write_restored(
                start,
                l4,
                l5,
                l5,
                transport.log(),
                feature.index,
                profile_sector,
                original@,
                unit_reply(written),
                actions@,
                dpi,
            );
        }
        let r = Err(write_failure_with_recovery(write_error, recovery));
        proof {
            lemma_stage_failed(
                start,
                l4,
                l5,
                l5,
                transport.log(),
                actions@,
                dpi,
                unit_reply(written),
                r,
                write_error@,
                result_view(recovery),
            );
        }
        return r;
    }
    let readback = read_onboard_sector(transport, feature.index, profile_sector, info.sector_size);
    let ghost l6 = transport.log();
    proof {
        lemma_guarded_write_extend(start, l5, l6, actions@, dpi);
    }
    let readback = match readback {
        Ok(readback) => readback,
        Err(read_error) => {
            let recovery = restore_onboard_sector(
                transport,
                feature.index,
                profile_sector,
                info.sector_size,
                &original,
            );
            proof {
                lemma_guarded_write_extend(start, l6, transport.log(), actions@, dpi);
                lemma_write_restored(
                    start,
                    l4,
                    l5,
                    l6,
                    transport.log(),
                    feature.index,
                    profile_sector,
                    original@,
                    unit_reply(written),
                    actions@,
                    dpi,
                );
            }
            let r = Err(write_failure_with_recovery(read_error, recovery));
            proof {
                lemma_stage_failed(
                    start,
                    l4,
                    l5,
                    l6,
                    transport.log(),
                    actions@,
                    dpi,
                    unit_reply(written),
                    r,
                    read_error@,
                    result_view(recovery),
                );
            }
            return r;
        },
    };
    if !bytes_equal(&readback, &desired) || validate_sector_crc(&readback).is_err() {
        let recovery = restore_onboard_sector(
            transport,
            feature.index,
            profile_sector,
            info.sector_size,
            &original,
        );
        proof {
            lemma_guarded_write_extend(start, l6, transport.log(), actions@, dpi);
            lemma_write_restored(
                start,
                l4,
                l5,
                l6,
                transport.log(),
                feature.index,
                profile_sector,
                original@,
                unit_reply(written),
                actions@,
                dpi,
            );
        }
        let mismatch = HidppError::InvalidResponse(text("板载配置写后整扇区回读不一致"));
        let ghost mismatch_view = mismatch@;
        let r = Err(write_failure_with_recovery(mismatch, recovery));
        proof {
            lemma_build_profile_sector_frame(original@, 6, actions@, dpi);
            lemma_stage_failed(
                start,
                l4,
                l5,
                l6,
                transport.log(),
                actions@,
                dpi,
                unit_reply(written),
                r,
                mismatch_view,
                result_view(recovery),
            );
        }
        return r;
    }
    proof {
        lemma_write_confirmed(
            start,
            l4,
            l5,
            l6,
            feature.index,
            profile_sector,
            original@,
            unit_reply(written),
            actions@,
            dpi,
        );
    }
    let r = Ok(OnboardWriteResult { profile_sector, changed_buttons, dpi_changed, verified: true });
    proof {
        lemma_stage_confirmed(start, l4, l5, l6, actions@, dpi, r);
    }
    r
}

// ---------------------------------------------------------------------------
// The G102 operations
// ---------------------------------------------------------------------------

/// Writes are attempted only on the product and firmware release they were checked on.
pub open spec fn identity_verified(product_id: u16, release_number: u16) -> bool {
    product_id == 0xc092 && release_number == 0x5200
}

/// The refusal of an operation on an unverified product or release.
pub open spec fn identity_refusal(operation: Seq<char>, product_id: u16, release_number: u16) -> Seq<char> {
    operation + "：仅验证过 046d:c092 release=5200，当前为 046d:"@ + hex4(product_id as int) + " release="@
        + hex4(release_number as int)
}

fn check_identity(operation: &str, product_id: u16, release_number: u16) -> (r: Result<(), HidppError>)
    ensures
        identity_verified(product_id, release_number) ==> r is Ok,
        !identity_verified(product_id, release_number) ==> r is Err && r->Err_0@ == HidppErrorView::InvalidResponse(
            identity_refusal(operation@, product_id, release_number),
        ),
{
    if product_id != 0xc092 || release_number != 0x5200 {
        let mut m = text(operation);
        m.append("：仅验证过 046d:c092 release=5200，当前为 046d:");
        m.append(hex_text(product_id as u64, 4).as_str());
        m.append(" release=");
        m.append(hex_text(release_number as u64, 4).as_str());
        return Err(HidppError::InvalidResponse(m));
    }
    Ok(())
}

/// Probes the mouse behind `transport`.
pub fn probe_first_g102<T: Transport>(transport: &mut HidppLink<T>) -> (r: Result<HidppProbeResult, HidppError>)
    ensures
        r matches Ok(result) ==> probe_outcome(result),
        probe_opening(added(old(transport).log(), final(transport).log()), r),
        memory_untouched(old(transport).log(), final(transport).log()),
        dpi_untouched(old(transport).log(), final(transport).log()),
{
    probe(transport)
}

/// A DPI read through the index that the root feature gave for ADJUSTABLE_DPI:
/// `dpi` is the current DPI that sensor 0 reported.
pub open spec fn first_dpi_read(lookup: Seq<u8>, response: Seq<u8>, dpi: u16) -> bool {
    let feature_index = feature_from(ADJUSTABLE_DPI_ID, lookup).index;
    &&& answers(feature_query(ADJUSTABLE_DPI_ID), lookup)
    &&& feature_index != 0
    &&& answers(sensor_dpi_query(feature_index, 0), response)
    &&& response.len() >= 9
    &&& response[4] == 0
    &&& dpi == be16(response[5], response[6])
}

/// Reads the current DPI of the first sensor, through ADJUSTABLE_DPI.
pub fn read_first_g102_dpi<T: Transport>(transport: &mut HidppLink<T>) -> (r: Result<u16, HidppError>)
    ensures
        memory_untouched(old(transport).log(), final(transport).log()),
        dpi_untouched(old(transport).log(), final(transport).log()),
        r is Ok ==> exists|lookup: Seq<u8>, response: Seq<u8>| #[trigger] first_dpi_read(lookup, response, r->Ok_0),
{
    let ghost untouched_from = transport.log();
    proof {
        lemma_memory_untouched_refl(untouched_from);
        lemma_dpi_untouched_refl(untouched_from);
    }
    let ghost prior = transport.log();
    let outcome = get_feature(transport, ADJUSTABLE_DPI_ID);
    proof {
        lemma_memory_untouched_chain(untouched_from, prior, transport.log());
        lemma_dpi_untouched_chain(untouched_from, prior, transport.log());
    }
    let feature = outcome?;
    if feature.index == 0 {
        return Err(HidppError::InvalidResponse(text("设备未公开 ADJUSTABLE_DPI (0x2201)")));
    }
    let ghost prior = transport.log();
    let outcome = request(transport, feature.index, 0, [0, 0, 0]);
    proof {
        lemma_memory_untouched_chain(untouched_from, prior, transport.log());
        lemma_dpi_untouched_chain(untouched_from, prior, transport.log());
    }
    let count_response = outcome?;
    if parameters(&count_response, 1)?[0] == 0 {
        return Err(HidppError::InvalidResponse(text("设备没有 DPI 传感器")));
    }
    let ghost prior = transport.log();
    let outcome = read_sensor_dpi(transport, feature.index, 0);
    proof {
        lemma_memory_untouched_chain(untouched_from, prior, transport.log());
        lemma_dpi_untouched_chain(untouched_from, prior, transport.log());
    }
    let (current, _) = outcome?;
    proof {
        let lookup = choose|response: Seq<u8>|
            #[trigger] answers(feature_query(ADJUSTABLE_DPI_ID), response) && feature == feature_from(
                ADJUSTABLE_DPI_ID,
                response,
            );
        let response = choose|response: Seq<u8>|
            #[trigger] answers(sensor_dpi_query(feature.index, 0), response) && response.len() >= 9 && response[4]
                == 0 && current == be16(response[5], response[6]);
        assert(first_dpi_read(lookup, response, current));
        assert(exists|l: Seq<u8>, a: Seq<u8>| #[trigger] first_dpi_read(l, a, current));
    }
    let r: Result<u16, HidppError> = Ok(current);
    assert(r->Ok_0 == current);
    assert(r is Ok ==> exists|l: Seq<u8>, a: Seq<u8>| #[trigger] first_dpi_read(l, a, r->Ok_0));
    r
}

/// A DPI set is due: `index` is where the device lists ADJUSTABLE_DPI, and its
/// first sensor accepts `requested` and does not already run at it.
pub open spec fn dpi_write_justified(features: Seq<HidppFeature>, index: u8, sensor: DpiSensorInfo, requested: u16) -> bool {
    &&& feature_at(features, ADJUSTABLE_DPI_ID, index)
    &&& sensor_listed(index, 0, sensor)
    &&& dpi_accepted(sensor, requested)
    &&& sensor.current != requested
}

/// A DPI write on the first sensor as the device's answers show it: `index` is where
/// the device lists ADJUSTABLE_DPI, `sensor` its first sensor, which accepts the
/// requested DPI; a change was acknowledged and read back.
pub open spec fn first_sensor_write(
    features: Seq<HidppFeature>,
    index: u8,
    sensor: DpiSensorInfo,
    requested: u16,
    result: DpiWriteResult,
) -> bool {
    &&& feature_at(features, ADJUSTABLE_DPI_ID, index)
    &&& sensor_listed(index, 0, sensor)
    &&& dpi_accepted(sensor, requested)
    &&& result.sensor_index == sensor.index
    &&& result.before == sensor.current
    &&& result.requested == requested
    &&& result.after == requested
    &&& result.changed == (sensor.current != requested)
    &&& result.changed ==> exists|ack: Seq<u8>| #[trigger]
        answers(set_dpi_command(index, sensor.index, requested), ack)
    &&& result.changed ==> exists|readback: Seq<u8>|
        #[trigger] answers(sensor_dpi_query(index, sensor.index), readback) && readback.len() >= 9 && readback[4]
            == sensor.index && be16(readback[5], readback[6]) == requested
}

/// The exchanges of a DPI set on the first sensor and what they give: the set
/// command; when acknowledged, a read of the sensor's DPI; the result reports the
/// change when the DPI read back is the requested one.
pub open spec fn dpi_set_exchanges(
    index: u8,
    sensor: DpiSensorInfo,
    requested: u16,
    log: Seq<Exchange>,
    r: Result<DpiWriteResult, HidppError>,
) -> bool {
    &&& 1 <= log.len() <= 2
    &&& log[0].request == set_dpi_command(index, sensor.index, requested)
    &&& match reply(log[0]) {
        Err(e) => log.len() == 1 && r is Err && r->Err_0@ == e,
        Ok(_) => {
            &&& log.len() == 2
            &&& log[1].request == sensor_dpi_query(index, sensor.index)
            &&& !sensor_dpi_answered(sensor.index, reply(log[1])) ==> r is Err
            &&& sensor_dpi_answered(sensor.index, reply(log[1])) ==> {
                let after = be16(reply(log[1])->Ok_0[5], reply(log[1])->Ok_0[6]);
                if after == requested {
                    r == Ok::<DpiWriteResult, HidppError>(
                        DpiWriteResult {
                            sensor_index: sensor.index,
                            before: sensor.current,
                            requested,
                            after: requested,
                            changed: true,
                        },
                    )
                } else {
                    r is Err && r->Err_0@ == HidppErrorView::InvalidResponse(
                        "DPI 写后回读不一致：请求 "@ + dec(requested as int) + "，设备返回 "@ + dec(after as int),
                    )
                }
            }
        },
    }
}

/// What setting the first sensor's DPI gives once the probe found `probed`; `log`
/// holds the exchanges made after the probe.
pub open spec fn probed_dpi_set(
    probed: HidppProbeResult,
    requested: u16,
    log: Seq<Exchange>,
    r: Result<DpiWriteResult, HidppError>,
) -> bool {
    let features = probed.features@;
    let sensor = probed.dpi_sensors@[0];
    if !lists_feature(features, ADJUSTABLE_DPI_ID) {
        &&& log.len() == 0
        &&& r is Err
        &&& r->Err_0@ == HidppErrorView::InvalidResponse("设备未公开 ADJUSTABLE_DPI (0x2201)"@)
    } else if probed.dpi_sensors@.len() == 0 {
        &&& log.len() == 0
        &&& r is Err
        &&& r->Err_0@ == HidppErrorView::InvalidResponse("设备没有 DPI 传感器"@)
    } else if !dpi_accepted(sensor, requested) {
        &&& log.len() == 0
        &&& r is Err
        &&& r->Err_0@ == (HidppErrorView::InvalidDpi {
            requested,
            minimum: sensor.minimum,
            maximum: sensor.maximum,
            step: sensor.step,
        })
    } else if sensor.current == requested {
        &&& log.len() == 0
        &&& r == Ok::<DpiWriteResult, HidppError>(
            DpiWriteResult {
                sensor_index: sensor.index,
                before: requested,
                requested,
                after: requested,
                changed: false,
            },
        )
    } else {
        forall|index: u8| #[trigger]
            feature_at(features, ADJUSTABLE_DPI_ID, index) ==> dpi_set_exchanges(index, sensor, requested, log, r)
    }
}

/// Sets the first sensor's DPI as the probe result `probed` describes the mouse: the
/// value is checked against the sensor's range and step, nothing is sent when the
/// sensor already runs at it, and a set is confirmed by reading the DPI back.
pub fn set_dpi_after_probe<T: Transport>(
    transport: &mut HidppLink<T>,
    probed: &HidppProbeResult,
    requested: u16,
) -> (r: Result<DpiWriteResult, HidppError>)
    ensures
        extends(old(transport).log(), final(transport).log()),
        probed_dpi_set(*probed, requested, added(old(transport).log(), final(transport).log()), r),
        memory_untouched(old(transport).log(), final(transport).log()),
        probe_outcome(*probed) && !dpi_untouched(old(transport).log(), final(transport).log()) ==> exists|
            features: Seq<HidppFeature>,
            index: u8,
            sensor: DpiSensorInfo,
        | #[trigger] dpi_write_justified(features, index, sensor, requested),
        r matches Ok(result) ==> result.requested == requested && result.after == requested && result.changed
            == (result.before != requested),
        probe_outcome(*probed) ==> (r matches Ok(result) ==> exists|
            features: Seq<HidppFeature>,
            index: u8,
            sensor: DpiSensorInfo,
        | #[trigger] first_sensor_write(features, index, sensor, requested, result)),
{
    let ghost start = transport.log();
    proof {
        lemma_memory_untouched_refl(start);
        lemma_dpi_untouched_refl(start);
        assert(added(start, start) =~= Seq::<Exchange>::empty());
    }
    let ghost features = probed.features@;
    let feature_index = match find_feature(&probed.features, ADJUSTABLE_DPI_ID) {
        Some(index) => index,
        None => {
            proof {
                if lists_feature(features, ADJUSTABLE_DPI_ID) {
                    let i = choose|i: int| 0 <= i < features.len() && #[trigger] features[i].id == ADJUSTABLE_DPI_ID;
                    assert(features[i].id != ADJUSTABLE_DPI_ID);
                }
            }
            return Err(HidppError::InvalidResponse(text("设备未公开 ADJUSTABLE_DPI (0x2201)")));
        },
    };
    proof {
        let first = choose|i: int|
            #[trigger] first_feature_entry(features, ADJUSTABLE_DPI_ID, i) && features[i].index == feature_index;
        assert(features[first].id == ADJUSTABLE_DPI_ID);
        assert(lists_feature(features, ADJUSTABLE_DPI_ID));
    }
    if probed.dpi_sensors.len() == 0 {
        return Err(HidppError::InvalidResponse(text("设备没有 DPI 传感器")));
    }
    let sensor = &probed.dpi_sensors[0];
    validate_requested_dpi(sensor, requested)?;
    proof {
        if probe_outcome(*probed) {
            let listed = choose|index: u8|
                #[trigger] feature_at(features, ADJUSTABLE_DPI_ID, index) && dpi_sensors_read(
                    index,
                    probed.dpi_sensors@,
                );
            lemma_feature_at_unique(features, ADJUSTABLE_DPI_ID, listed, feature_index);
            assert(sensor_listed(feature_index, 0, probed.dpi_sensors@[0]));
        }
    }
    if sensor.current == requested {
        let result = DpiWriteResult {
            sensor_index: sensor.index,
            before: sensor.current,
            requested,
            after: sensor.current,
            changed: false,
        };
        let r = Ok(result);
        proof {
            if probe_outcome(*probed) {
                assert(first_sensor_write(features, feature_index, *sensor, requested, result));
                assert(r matches Ok(x) && first_sensor_write(features, feature_index, *sensor, requested, x));
            }
        }
        return r;
    }
    proof {
        if probe_outcome(*probed) {
            assert(dpi_write_justified(features, feature_index, *sensor, requested));
        }
    }
    let set = set_sensor_dpi(transport, feature_index, sensor.index, requested);
    let ghost l1 = transport.log();
    proof {
        lemma_one_more(start, l1, set_dpi_command(feature_index, sensor.index, requested));
        assert forall|index: u8| #[trigger] feature_at(features, ADJUSTABLE_DPI_ID, index) implies index
            == feature_index by {
            lemma_feature_at_unique(features, ADJUSTABLE_DPI_ID, index, feature_index);
        }
    }
    if let Err(e) = set {
        return Err(e);
    }
    let read = read_sensor_dpi(transport, feature_index, sensor.index);
    proof {
        lemma_one_more(l1, transport.log(), sensor_dpi_query(feature_index, sensor.index));
        lemma_memory_untouched_chain(start, l1, transport.log());
        lemma_added_chain(start, l1, transport.log());
        assert(added(start, transport.log()) =~= seq![l1.last(), transport.log().last()]);
    }
    let (after, _) = read?;
    if after != requested {
        let mut m = text("DPI 写后回读不一致：请求 ");
        m.append(decimal_text(requested as u64).as_str());
        m.append("，设备返回 ");
        m.append(decimal_text(after as u64).as_str());
        return Err(HidppError::InvalidResponse(m));
    }
    let result = DpiWriteResult { sensor_index: sensor.index, before: sensor.current, requested, after, changed: true };
    let r = Ok(result);
    proof {
        if probe_outcome(*probed) {
            assert(first_sensor_write(features, feature_index, *sensor, requested, result));
            assert(r matches Ok(x) && first_sensor_write(features, feature_index, *sensor, requested, x));
        }
    }
    r
}

/// Sets the first sensor's DPI after checking it against the sensor's range and step,
/// and confirms the write by reading the DPI back. Nothing is written when the
/// sensor already runs at the requested DPI.
pub fn set_first_g102_dpi<T: Transport>(transport: &mut HidppLink<T>, requested: u16) -> (r: Result<DpiWriteResult, HidppError>)
    ensures
        memory_untouched(old(transport).log(), final(transport).log()),
        !dpi_untouched(old(transport).log(), final(transport).log()) ==> exists|
            features: Seq<HidppFeature>,
            index: u8,
            sensor: DpiSensorInfo,
        | #[trigger] dpi_write_justified(features, index, sensor, requested),
        r matches Ok(result) ==> result.requested == requested && result.after == requested && result.changed
            == (result.before != requested),
        r matches Ok(result) ==> exists|features: Seq<HidppFeature>, index: u8, sensor: DpiSensorInfo|
            #[trigger] first_sensor_write(features, index, sensor, requested, result),
        (r is Err && dpi_untouched(old(transport).log(), final(transport).log())) || exists|
            mid: Seq<Exchange>,
            probed: HidppProbeResult,
        |
            #![trigger probed_dpi_set(probed, requested, added(mid, final(transport).log()), r)]
            dpi_untouched(old(transport).log(), mid) && extends(mid, final(transport).log()) && probe_outcome(probed)
                && probed_dpi_set(probed, requested, added(mid, final(transport).log()), r),
{
    let ghost start = transport.log();
    let outcome = probe(transport);
    let ghost mid = transport.log();
    let probed = match outcome {
        Ok(probed) => probed,
        Err(e) => {
            return Err(e);
        },
    };
    let r = set_dpi_after_probe(transport, &probed, requested);
    proof {
        lemma_memory_untouched_chain(start, mid, transport.log());
        if !dpi_untouched(start, transport.log()) {
            if dpi_untouched(mid, transport.log()) {
                lemma_dpi_untouched_chain(start, mid, transport.log());
            }
        }
        assert(probed_dpi_set(probed, requested, added(mid, transport.log()), r));
    }
    r
}

/// Writes the Office button mapping into the onboard profile.
pub fn apply_first_g102_office_buttons<T: Transport>(transport: &mut HidppLink<T>, product_id: u16, release_number: u16) -> (r:
    Result<OnboardWriteResult, HidppError>)
    ensures
        !identity_verified(product_id, release_number) ==> r is Err && r->Err_0@ == HidppErrorView::InvalidResponse(
            identity_refusal("拒绝板载写入"@, product_id, release_number),
        ) && final(transport).log() == old(transport).log(),
        extends(old(transport).log(), final(transport).log()),
        !no_memory_write(added(old(transport).log(), final(transport).log())) ==> guarded_write(
            added(old(transport).log(), final(transport).log()),
            spec_office_button_actions(),
            None,
        ),
        r matches Ok(result) && result.changed_buttons@.len() == 0 && !result.dpi_changed ==> no_memory_write(
            added(old(transport).log(), final(transport).log()),
        ),
        r matches Ok(result) && (result.changed_buttons@.len() > 0 || result.dpi_changed) ==> write_confirmed(
            added(old(transport).log(), final(transport).log()),
            spec_office_button_actions(),
            None,
        ),
        r is Err && !no_memory_write(added(old(transport).log(), final(transport).log())) ==> write_restored(
            added(old(transport).log(), final(transport).log()),
            spec_office_button_actions(),
            None,
        ),
        r matches Ok(result) ==> identity_verified(product_id, release_number) && write_outcome(
            result,
            spec_office_button_actions(),
            None,
        ),
        identity_verified(product_id, release_number) ==> profile_write_outcome(
            added(old(transport).log(), final(transport).log()),
            spec_office_button_actions(),
            None,
            r,
        ),
{
    let actions = g102_office_button_actions();
    apply_first_g102_button_actions(transport, product_id, release_number, &actions)
}

/// Writes six button bindings into the onboard profile, leaving its DPI slots alone.
pub fn apply_first_g102_button_actions<T: Transport>(
    transport: &mut HidppLink<T>,
    product_id: u16,
    release_number: u16,
    actions: &[OnboardButtonAction; 6],
) -> (r: Result<OnboardWriteResult, HidppError>)
    ensures
        !identity_verified(product_id, release_number) ==> r is Err && r->Err_0@ == HidppErrorView::InvalidResponse(
            identity_refusal("拒绝板载写入"@, product_id, release_number),
        ) && final(transport).log() == old(transport).log(),
        extends(old(transport).log(), final(transport).log()),
        !no_memory_write(added(old(transport).log(), final(transport).log())) ==> guarded_write(
            added(old(transport).log(), final(transport).log()),
            actions@,
            None,
        ),
        r matches Ok(result) && result.changed_buttons@.len() == 0 && !result.dpi_changed ==> no_memory_write(
            added(old(transport).log(), final(transport).log()),
        ),
        r matches Ok(result) && (result.changed_buttons@.len() > 0 || result.dpi_changed) ==> write_confirmed(
            added(old(transport).log(), final(transport).log()),
            actions@,
            None,
        ),
        r is Err && !no_memory_write(added(old(transport).log(), final(transport).log())) ==> write_restored(
            added(old(transport).log(), final(transport).log()),
            actions@,
            None,
        ),
        r matches Ok(result) ==> identity_verified(product_id, release_number) && write_outcome(
            result,
            actions@,
            None,
        ),
        identity_verified(product_id, release_number) ==> profile_write_outcome(
            added(old(transport).log(), final(transport).log()),
            actions@,
            None,
            r,
        ),
{
    proof {
        lemma_memory_untouched_refl(transport.log());
    }
    check_identity("拒绝板载写入", product_id, release_number)?;
    apply_profile_settings(transport, actions, None)
}

/// The DPI settings of a profile write: the four cycle levels when given, else the
/// single default DPI.
pub open spec fn profile_dpi(dpi: u16, dpi_levels: Option<[u16; 4]>) -> ProfileDpiSettings {
    match dpi_levels {
        Some(levels) => ProfileDpiSettings::Levels { dpi, levels },
        None => ProfileDpiSettings::Single(dpi),
    }
}

/// Writes six button bindings and the DPI settings into the onboard profile.
pub fn apply_first_g102_profile<T: Transport>(
    transport: &mut HidppLink<T>,
    product_id: u16,
    release_number: u16,
    actions: &[OnboardButtonAction; 6],
    dpi: u16,
    dpi_levels: Option<[u16; 4]>,
) -> (r: Result<OnboardWriteResult, HidppError>)
    ensures
        !identity_verified(product_id, release_number) ==> r is Err && r->Err_0@ == HidppErrorView::InvalidResponse(
            identity_refusal("拒绝板载写入"@, product_id, release_number),
        ) && final(transport).log() == old(transport).log(),
        extends(old(transport).log(), final(transport).log()),
        !no_memory_write(added(old(transport).log(), final(transport).log())) ==> guarded_write(
            added(old(transport).log(), final(transport).log()),
            actions@,
            Some(profile_dpi(dpi, dpi_levels)),
        ),
        r matches Ok(result) && result.changed_buttons@.len() == 0 && !result.dpi_changed ==> no_memory_write(
            added(old(transport).log(), final(transport).log()),
        ),
        r matches Ok(result) && (result.changed_buttons@.len() > 0 || result.dpi_changed) ==> write_confirmed(
            added(old(transport).log(), final(transport).log()),
            actions@,
            Some(profile_dpi(dpi, dpi_levels)),
        ),
        r is Err && !no_memory_write(added(old(transport).log(), final(transport).log())) ==> write_restored(
            added(old(transport).log(), final(transport).log()),
            actions@,
            Some(profile_dpi(dpi, dpi_levels)),
        ),
        r matches Ok(result) ==> identity_verified(product_id, release_number) && write_outcome(
            result,
            actions@,
            Some(profile_dpi(dpi, dpi_levels)),
        ),
        identity_verified(product_id, release_number) ==> profile_write_outcome(
            added(old(transport).log(), final(transport).log()),
            actions@,
            Some(profile_dpi(dpi, dpi_levels)),
            r,
        ),
{
    proof {
        lemma_memory_untouched_refl(transport.log());
    }
    check_identity("拒绝板载写入", product_id, release_number)?;
    let settings = match dpi_levels {
        Some(levels) => ProfileDpiSettings::Levels { dpi, levels },
        None => ProfileDpiSettings::Single(dpi),
    };
    apply_profile_settings(transport, actions, Some(settings))
}

/// The onboard mode a checked mode answer reports.
pub open spec fn mode_of(x: Exchange) -> OnboardMode {
    spec_onboard_mode(reply(x)->Ok_0[4])
}

/// The feature index that a checked feature-lookup answer gives.
pub open spec fn index_of(x: Exchange) -> u8 {
    reply(x)->Ok_0[4]
}

/// The exchanges of a confirmed switch to onboard mode: the ONBOARD_PROFILES lookup,
/// a mode read, the switch command only when that mode was not already onboard,
/// and a mode read that reports onboard; `result` holds the two modes read.
pub open spec fn onboard_activation(log: Seq<Exchange>, result: OnboardModeWriteResult) -> bool {
    let index = index_of(log[0]);
    let switch = result.before != OnboardMode::Onboard;
    &&& log.len() == if switch { 4int } else { 3int }
    &&& log[0].request == feature_query(ONBOARD_PROFILES_ID)
    &&& reply(log[0]) is Ok
    &&& index != 0
    &&& log[1].request == mode_query(index)
    &&& reply(log[1]) is Ok
    &&& result.before == mode_of(log[1])
    &&& switch ==> log[2].request == set_mode_command(index, OnboardMode::Onboard) && reply(log[2]) is Ok
    &&& log.last().request == mode_query(index)
    &&& reply(log.last()) is Ok
    &&& result.after == mode_of(log.last())
    &&& result.after == OnboardMode::Onboard
}

/// The switch command is sent only after a mode read that did not report onboard.
pub open spec fn switch_only_when_needed(log: Seq<Exchange>) -> bool {
    log.len() >= 3 && log[2].request == set_mode_command(index_of(log[0]), OnboardMode::Onboard) ==> reply(log[1]) is Ok
        && mode_of(log[1]) != OnboardMode::Onboard
}

/// What a switch to onboard mode gives, by the device's answers in `log`: the
/// ONBOARD_PROFILES lookup, a mode read, the switch command only when that mode was
/// not onboard, and a mode read that must report onboard.
pub open spec fn activation_outcome(log: Seq<Exchange>, r: Result<OnboardModeWriteResult, HidppError>) -> bool {
    let index = index_of(log[0]);
    let before = mode_of(log[1]);
    let switch = before != OnboardMode::Onboard;
    let n: int = if switch { 4 } else { 3 };
    &&& log.len() >= 1
    &&& log[0].request == feature_query(ONBOARD_PROFILES_ID)
    &&& reply(log[0]) matches Err(e) ==> log.len() == 1 && r is Err && r->Err_0@ == e
    &&& reply(log[0]) is Ok && index == 0 ==> log.len() == 1 && r is Err && r->Err_0@
        == HidppErrorView::InvalidResponse("设备未公开 ONBOARD_PROFILES (0x8100)"@)
    &&& reply(log[0]) is Ok && index != 0 ==> {
        &&& log.len() >= 2
        &&& log[1].request == mode_query(index)
        &&& reply(log[1]) matches Err(e) ==> log.len() == 2 && r is Err && r->Err_0@ == e
        &&& reply(log[1]) is Ok && switch ==> log.len() >= 3 && log[2].request == set_mode_command(
            index,
            OnboardMode::Onboard,
        ) && (reply(log[2]) is Err ==> log.len() == 3 && r is Err)
        &&& reply(log[1]) is Ok && (!switch || reply(log[2]) is Ok) ==> {
            &&& log.len() == n
            &&& log.last().request == mode_query(index)
            &&& reply(log.last()) matches Err(e) ==> r is Err && r->Err_0@ == e
            &&& reply(log.last()) is Ok && mode_of(log.last()) == OnboardMode::Onboard ==> r
                == Ok::<OnboardModeWriteResult, HidppError>(
                OnboardModeWriteResult { before, after: OnboardMode::Onboard },
            )
            &&& reply(log.last()) is Ok && mode_of(log.last()) != OnboardMode::Onboard ==> r is Err && r->Err_0@
                == HidppErrorView::InvalidResponse(
                "板载模式写后回读不一致：设备返回 "@ + spec_mode_debug(mode_of(log.last())),
            )
        }
    }
}

/// Switches the mouse to its onboard profile and confirms the switch.
pub fn activate_first_g102_onboard_mode<T: Transport>(transport: &mut HidppLink<T>, product_id: u16, release_number: u16) -> (r:
    Result<OnboardModeWriteResult, HidppError>)
    ensures
        !identity_verified(product_id, release_number) ==> r is Err && r->Err_0@ == HidppErrorView::InvalidResponse(
            identity_refusal("拒绝模式切换"@, product_id, release_number),
        ) && final(transport).log() == old(transport).log(),
        extends(old(transport).log(), final(transport).log()),
        switch_only_when_needed(added(old(transport).log(), final(transport).log())),
        memory_untouched(old(transport).log(), final(transport).log()),
        dpi_untouched(old(transport).log(), final(transport).log()),
        r matches Ok(result) ==> identity_verified(product_id, release_number) && onboard_activation(
            added(old(transport).log(), final(transport).log()),
            result,
        ),
        identity_verified(product_id, release_number) ==> activation_outcome(
            added(old(transport).log(), final(transport).log()),
            r,
        ),
{
    let ghost start = transport.log();
    assert(start.subrange(0, start.len() as int) =~= start);
    proof {
        lemma_memory_untouched_refl(start);
        lemma_dpi_untouched_refl(start);
    }
    check_identity("拒绝模式切换", product_id, release_number)?;
    let feature = get_feature(transport, ONBOARD_PROFILES_ID);
    let ghost l1 = transport.log();
    proof {
        lemma_one_more(start, l1, feature_query(ONBOARD_PROFILES_ID));
        lemma_memory_untouched_chain(start, start, l1);
        lemma_dpi_untouched_chain(start, start, l1);
    }
    let feature = feature?;
    if feature.index == 0 {
        return Err(HidppError::InvalidResponse(text("设备未公开 ONBOARD_PROFILES (0x8100)")));
    }
    let before = read_onboard_mode(transport, feature.index);
    let ghost l2 = transport.log();
    proof {
        lemma_one_more(l1, l2, mode_query(feature.index));
        lemma_memory_untouched_chain(start, l1, l2);
        lemma_dpi_untouched_chain(start, l1, l2);
        lemma_added_chain(start, l1, l2);
        assert(added(start, l2) =~= seq![l1.last(), l2.last()]);
    }
    let before = before?;
    let mut l3 = Ghost(l2);
    if before != OnboardMode::Onboard {
        let switched = set_onboard_mode(transport, feature.index, OnboardMode::Onboard);
        proof {
            lemma_one_more(l2, transport.log(), set_mode_command(feature.index, OnboardMode::Onboard));
            lemma_memory_untouched_chain(start, l2, transport.log());
            lemma_dpi_untouched_chain(start, l2, transport.log());
            lemma_added_chain(start, l2, transport.log());
            assert(added(start, transport.log()) =~= seq![l1.last(), l2.last(), transport.log().last()]);
            l3@ = transport.log();
        }
        switched?;
    }
    let after = read_onboard_mode(transport, feature.index);
    proof {
        lemma_one_more(l3@, transport.log(), mode_query(feature.index));
        lemma_memory_untouched_chain(start, l3@, transport.log());
        lemma_dpi_untouched_chain(start, l3@, transport.log());
        lemma_added_chain(start, l3@, transport.log());
        assert(added(start, transport.log()) =~= added(start, l3@).push(transport.log().last()));
    }
    let after = after?;
    if after != OnboardMode::Onboard {
        let mut m = text("板载模式写后回读不一致：设备返回 ");
        m.append(mode_debug_text(after).as_str());
        return Err(HidppError::InvalidResponse(m));
    }
    Ok(OnboardModeWriteResult { before, after })
}

/// The `Debug` rendering of an onboard mode.
pub open spec fn spec_mode_debug(mode: OnboardMode) -> Seq<char> {
    match mode {
        OnboardMode::NoChange => "NoChange"@,
        OnboardMode::Onboard => "Onboard"@,
        OnboardMode::Host => "Host"@,
        OnboardMode::Unknown(value) => "Unknown("@ + dec(value as int) + ")"@,
    }
}

fn mode_debug_text(mode: OnboardMode) -> (s: String)
    ensures
        s@ == spec_mode_debug(mode),
{
    match mode {
        OnboardMode::NoChange => text("NoChange"),
        OnboardMode::Onboard => text("Onboard"),
        OnboardMode::Host => text("Host"),
        OnboardMode::Unknown(value) => {
            let mut m = text("Unknown(");
            m.append(decimal_text(value as u64).as_str());
            m.append(")");
            m
        },
    }
}

} // verus!
