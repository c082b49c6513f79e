//! HID++ 2.0 request construction and reply interpretation for the mouse.
//!
//! Every request built here is a read-only query: feature lookups, name and
//! type queries, and battery status.  None changes a setting on the receiver
//! or the mouse.

use vstd::prelude::*;
use crate::native_devices::PowerState;

verus! {

/// Report id of the 7-byte HID++ short report.
pub const HIDPP_SHORT_REPORT: u8 = 0x10;
/// Report id of the 20-byte HID++ long report.
pub const HIDPP_LONG_REPORT: u8 = 0x11;
/// Feature index that HID++ 2.0 uses for error replies.
pub const HIDPP_ERROR_INDEX: u8 = 0x8f;
/// A command is sent at most this many times.
pub const HIDPP_QUERY_ATTEMPTS: u8 = 3;

/// Device name and type feature.
pub const FEATURE_DEVICE_NAME: u16 = 0x0005;
/// Battery level and status feature.
pub const FEATURE_BATTERY_STATUS: u16 = 0x1000;
/// Battery voltage feature.
pub const FEATURE_BATTERY_VOLTAGE: u16 = 0x1001;
/// Unified battery feature.
pub const FEATURE_UNIFIED_BATTERY: u16 = 0x1004;

/// The function byte of the battery query: the unified battery feature reads
/// its status with function 1, the two older features with function 0.
pub open spec fn battery_function(feature: u16) -> u8 {
    if feature == FEATURE_UNIFIED_BATTERY {
        0x1a
    } else {
        0x0a
    }
}

/// The read-only battery query for the feature found at `index` on `slot`.
pub fn battery_request(slot: u8, feature: u16, index: u8) -> (r: [u8; 7])
    ensures
        r@ == seq![HIDPP_SHORT_REPORT, slot, index, battery_function(feature), 0u8, 0u8, 0u8],
{
    let function: u8 = if feature == FEATURE_UNIFIED_BATTERY {
        0x1a
    } else {
        0x0a
    };
    [HIDPP_SHORT_REPORT, slot, index, function, 0, 0, 0]
}

/// The function byte with `attempt` added to its software id, the low nibble.
pub open spec fn software_function(function: u8, attempt: u8) -> u8 {
    (function & 0xf0u8) | (((function & 0x0fu8) + attempt) as u8)
}

/// The request as sent on the given attempt: a fresh software id per attempt
/// keeps a late reply to an earlier attempt from being taken for the retry's.
pub fn request_for_attempt(request: [u8; 7], attempt: u8) -> (r: [u8; 7])
    requires
        (request@[3] & 0x0fu8) + attempt <= 255,
    ensures
        r@ == request@.update(3, software_function(request@[3], attempt)),
{
    let function = request[3];
    let mut r = request;
    r[3] = (function & 0xf0) | ((function & 0x0f) + attempt);
    r
}

/// A report answers `request` when it is a whole short or long HID++ report,
/// echoes the request's slot, feature index and function, and is not an error.
pub open spec fn reply_matches(request: Seq<u8>, response: Seq<u8>) -> bool {
    &&& (response.len() == 7 && response[0] == HIDPP_SHORT_REPORT) || (response.len() == 20
        && response[0] == HIDPP_LONG_REPORT)
    &&& response[1] == request[1]
    &&& response[2] == request[2]
    &&& response[3] == request[3]
    &&& response[2] != HIDPP_ERROR_INDEX
}

/// The first seven bytes of a report that answers `request`, if it does.
pub fn matching_reply(request: &[u8; 7], response: &[u8]) -> (r: Option<[u8; 7]>)
    ensures
        r is Some <==> reply_matches(request@, response@),
        r matches Some(reply) ==> reply@ == response@.subrange(0, 7),
{
    let n = response.len();
    let valid_size = n > 0 && ((response[0] == HIDPP_SHORT_REPORT && n == 7) || (response[0]
        == HIDPP_LONG_REPORT && n == 20));
    if valid_size && response[1] == request[1] && response[2] == request[2] && response[3]
        == request[3] && response[2] != HIDPP_ERROR_INDEX {
        let reply = [
            response[0],
            response[1],
            response[2],
            response[3],
            response[4],
            response[5],
            response[6],
        ];
        assert(reply@ =~= response@.subrange(0, 7));
        Some(reply)
    } else {
        None
    }
}


/// What a software id collision would look like: the request of one attempt.
pub open spec fn attempt_request(request: Seq<u8>, attempt: u8) -> Seq<u8> {
    request.update(3, software_function(request[3], attempt))
}

/// Two attempts whose software ids stay within the low nibble send different
/// function bytes.
pub proof fn lemma_attempts_use_distinct_ids(function: u8, a: u8, b: u8)
    requires
        (function & 0x0fu8) + a <= 15,
        (function & 0x0fu8) + b <= 15,
        a != b,
    ensures
        software_function(function, a) != software_function(function, b),
{
    assert(((function & 0x0fu8) + a <= 15 && (function & 0x0fu8) + b <= 15 && a != b) ==> (
    function & 0xf0u8) | (((function & 0x0fu8) + a) as u8) != (function & 0xf0u8) | (((function
        & 0x0fu8) + b) as u8)) by (bit_vector);
}

/// A late reply to one attempt is never taken as the reply to another
/// attempt of the same command.
pub proof fn lemma_late_reply_ignored(request: Seq<u8>, a: u8, b: u8, response: Seq<u8>)
    requires
        request.len() == 7,
        (request[3] & 0x0fu8) + a <= 15,
        (request[3] & 0x0fu8) + b <= 15,
        a != b,
        reply_matches(attempt_request(request, a), response),
    ensures
        !reply_matches(attempt_request(request, b), response),
{
    lemma_attempts_use_distinct_ids(request[3], a, b);
}

/// The charge state encoded in the status byte of the battery voltage feature.
pub open spec fn voltage_flags_power(flags: u8) -> PowerState {
    if flags & 0x80u8 == 0 {
        PowerState::Discharging
    } else if flags & 0x07u8 == 0 {
        PowerState::Charging
    } else if flags & 0x07u8 == 1 {
        PowerState::Full
    } else {
        PowerState::Unknown
    }
}

/// Decodes the status flags of the battery voltage feature: bit 7 says
/// external power is present, the low three bits say charging or full.
pub fn parse_battery_1001_power(flags: u8) -> (r: PowerState)
    ensures
        r == voltage_flags_power(flags),
{
    if flags & 0x80 == 0 {
        return PowerState::Discharging;
    }
    let charge = flags & 0x07;
    if charge == 0 {
        PowerState::Charging
    } else if charge == 1 {
        PowerState::Full
    } else {
        PowerState::Unknown
    }
}

/// Descending millivolt thresholds: a battery above entry `i` is at
/// `100 - i` percent.
pub const VOLTAGE_TABLE: [u16; 100] = [
    4186, 4156, 4143, 4133, 4122, 4113, 4103, 4094, 4086, 4075, 4067, 4059, 4051, 4043, 4035,
    4027, 4019, 4011, 4003, 3997, 3989, 3983, 3976, 3969, 3961, 3955, 3949, 3942, 3935, 3929,
    3922, 3916, 3909, 3902, 3896, 3890, 3883, 3877, 3870, 3865, 3859, 3853, 3848, 3842, 3837,
    3833, 3828, 3824, 3819, 3815, 3811, 3808, 3804, 3800, 3797, 3793, 3790, 3787, 3784, 3781,
    3778, 3775, 3772, 3770, 3767, 3764, 3762, 3759, 3757, 3754, 3751, 3748, 3744, 3741, 3737,
    3734, 3730, 3726, 3724, 3720, 3717, 3714, 3710, 3706, 3702, 3697, 3693, 3688, 3683, 3677,
    3671, 3666, 3662, 3658, 3654, 3646, 3633, 3612, 3579, 3537,
];

/// The first table index at or after `i` whose threshold `mv` exceeds, or 100
/// when there is none.
pub open spec fn first_exceeded(mv: u16, i: int) -> int
    decreases 100 - i,
{
    if i >= 100 {
        100
    } else if mv > VOLTAGE_TABLE@[i] {
        i
    } else {
        first_exceeded(mv, i + 1)
    }
}

/// The percentage that a battery voltage in millivolts stands for.
pub open spec fn voltage_percent(mv: u16) -> int {
    100 - first_exceeded(mv, 0)
}

proof fn lemma_first_exceeded_range(mv: u16, i: int)
    requires
        0 <= i <= 100,
    ensures
        i <= first_exceeded(mv, i) <= 100,
    decreases 100 - i,
{
    if i < 100 && !(mv > VOLTAGE_TABLE@[i]) {
        lemma_first_exceeded_range(mv, i + 1);
    }
}

/// Converts a battery voltage to a percentage with the 100-point lookup table.
pub fn voltage_to_percent(mv: u16) -> (r: u8)
    ensures
        r == voltage_percent(mv),
        r <= 100,
{
    proof {
        lemma_first_exceeded_range(mv, 0);
    }
    let mut i: usize = 0;
    while i < 100
        invariant
            i <= 100,
            first_exceeded(mv, 0) == first_exceeded(mv, i as int),
        decreases 100 - i,
    {
        if mv > VOLTAGE_TABLE[i] {
            return (100 - i) as u8;
        }
        i = i + 1;
    }
    0
}

proof fn lemma_first_exceeded_antitone(lo: u16, hi: u16, i: int)
    requires
        lo <= hi,
        0 <= i <= 100,
    ensures
        first_exceeded(hi, i) <= first_exceeded(lo, i),
    decreases 100 - i,
{
    if i < 100 && !(lo > VOLTAGE_TABLE@[i]) {
        lemma_first_exceeded_antitone(lo, hi, i + 1);
        lemma_first_exceeded_range(lo, i + 1);
    }
}

/// A higher battery voltage never reads as a lower percentage.
pub proof fn lemma_voltage_percent_monotonic(lo: u16, hi: u16)
    requires
        lo <= hi,
    ensures
        voltage_percent(lo) <= voltage_percent(hi),
{
    lemma_first_exceeded_antitone(lo, hi, 0);
}

/// The percentage byte that a battery feature reports in a reply, before the
/// range check.
pub open spec fn reported_percent(feature: u16, response: Seq<u8>) -> Option<int> {
    if feature == FEATURE_BATTERY_STATUS || feature == FEATURE_UNIFIED_BATTERY {
        Some(response[4] as int)
    } else if feature == FEATURE_BATTERY_VOLTAGE {
        Some(voltage_percent((response[4] as int * 256 + response[5] as int) as u16))
    } else {
        None
    }
}

/// The charge state that a battery feature reports in its status byte.
pub open spec fn reported_power(feature: u16, status: u8) -> PowerState {
    if feature == FEATURE_BATTERY_STATUS {
        if status == 0 {
            PowerState::Discharging
        } else if status == 1 || status == 2 || status == 4 {
            PowerState::Charging
        } else if status == 3 {
            PowerState::Full
        } else {
            PowerState::Unknown
        }
    } else if feature == FEATURE_UNIFIED_BATTERY {
        if status == 0 {
            PowerState::Discharging
        } else if status == 1 || status == 2 {
            PowerState::Charging
        } else if status == 3 {
            PowerState::Full
        } else {
            PowerState::Unknown
        }
    } else if feature == FEATURE_BATTERY_VOLTAGE {
        voltage_flags_power(status)
    } else {
        PowerState::Unknown
    }
}

/// The reading in a battery reply: a percentage of at most 100 and the charge
/// state; none for an unknown feature or an out-of-range percentage.
pub open spec fn battery_reading(feature: u16, response: Seq<u8>) -> Option<(u8, PowerState)> {
    match reported_percent(feature, response) {
        Some(p) => if p <= 100 {
            Some((p as u8, reported_power(feature, response[6])))
        } else {
            None
        },
        None => None,
    }
}

/// Interprets the reply to a battery query of the given feature.
pub fn parse_hidpp_battery(feature: u16, response: &[u8; 7]) -> (r: Option<(u8, PowerState)>)
    ensures
        r == battery_reading(feature, response@),
        r matches Some((p, _)) ==> p <= 100,
{
    let percent: u8 = if feature == FEATURE_BATTERY_STATUS || feature == FEATURE_UNIFIED_BATTERY {
        response[4]
    } else if feature == FEATURE_BATTERY_VOLTAGE {
        let mv: u16 = (response[4] as u16) * 256 + (response[5] as u16);
        voltage_to_percent(mv)
    } else {
        return None;
    };
    if percent > 100 {
        return None;
    }
    let status = response[6];
    let power = if feature == FEATURE_BATTERY_STATUS {
        if status == 0 {
            PowerState::Discharging
        } else if status == 1 || status == 2 || status == 4 {
            PowerState::Charging
        } else if status == 3 {
            PowerState::Full
        } else {
            PowerState::Unknown
        }
    } else if feature == FEATURE_UNIFIED_BATTERY {
        if status == 0 {
            PowerState::Discharging
        } else if status == 1 || status == 2 {
            PowerState::Charging
        } else if status == 3 {
            PowerState::Full
        } else {
            PowerState::Unknown
        }
    } else {
        parse_battery_1001_power(status)
    };
    Some((percent, power))
}


/// The battery status feature (0x1000) reports its level in byte 4 and its
/// charge state in byte 6: 0 on battery, 1, 2 or 4 charging, 3 full, any
/// other value unknown; a level above 100 is no reading.
pub proof fn lemma_battery_status_reply(response: Seq<u8>)
    requires
        response.len() == 7,
    ensures
        response[4] > 100 ==> battery_reading(0x1000, response) is None,
        response[4] <= 100 ==> battery_reading(0x1000, response) == Some(
            (
                response[4],
                if response[6] == 0 {
                    PowerState::Discharging
                } else if response[6] == 1 || response[6] == 2 || response[6] == 4 {
                    PowerState::Charging
                } else if response[6] == 3 {
                    PowerState::Full
                } else {
                    PowerState::Unknown
                },
            ),
        ),
{
}

/// The unified battery feature (0x1004) reports its level in byte 4 and its
/// charge state in byte 6: 0 on battery, 1 or 2 charging, 3 full, any other
/// value unknown; a level above 100 is no reading.
pub proof fn lemma_unified_battery_reply(response: Seq<u8>)
    requires
        response.len() == 7,
    ensures
        response[4] > 100 ==> battery_reading(0x1004, response) is None,
        response[4] <= 100 && response[6] == 0 ==> battery_reading(0x1004, response) == Some(
            (response[4], PowerState::Discharging),
        ),
        response[4] <= 100 && (response[6] == 1 || response[6] == 2) ==> battery_reading(0x1004, response)
            == Some((response[4], PowerState::Charging)),
        response[4] <= 100 && response[6] == 3 ==> battery_reading(0x1004, response) == Some(
            (response[4], PowerState::Full),
        ),
        response[4] <= 100 && response[6] > 3 ==> battery_reading(0x1004, response) == Some(
            (response[4], PowerState::Unknown),
        ),
{
}

/// The battery voltage feature (0x1001) reports the voltage big-endian in
/// bytes 4 and 5 and flags in byte 6: without bit 7 the device is on battery;
/// with it, low bits 0 mean charging, 1 full, anything else unknown.  The
/// level is the table percentage of the voltage.
pub proof fn lemma_battery_voltage_reply(response: Seq<u8>)
    requires
        response.len() == 7,
    ensures
        ({
            let mv = (response[4] as int * 256 + response[5] as int) as u16;
            let flags = response[6];
            battery_reading(0x1001, response) == Some(
                (
                    voltage_percent(mv) as u8,
                    if flags & 0x80u8 == 0 {
                        PowerState::Discharging
                    } else if flags & 0x07u8 == 0 {
                        PowerState::Charging
                    } else if flags & 0x07u8 == 1 {
                        PowerState::Full
                    } else {
                        PowerState::Unknown
                    },
                ),
            )
        }),
{
    lemma_first_exceeded_range((response[4] as int * 256 + response[5] as int) as u16, 0);
}

/// Only the three battery features give a reading.
pub proof fn lemma_other_features_give_no_reading(feature: u16, response: Seq<u8>)
    requires
        feature != 0x1000 && feature != 0x1001 && feature != 0x1004,
    ensures
        battery_reading(feature, response) is None,
{
}

/// The voltage table maps a voltage to 100 minus the position of the first
/// entry below it: every earlier entry is at or above the voltage, so a
/// voltage above the first entry is 100% and one at or below the last is 0%.
pub proof fn lemma_voltage_percent_is_table_position(mv: u16)
    ensures
        0 <= voltage_percent(mv) <= 100,
        voltage_percent(mv) > 0 ==> mv > VOLTAGE_TABLE@[100 - voltage_percent(mv)],
        forall|j: int| 0 <= j < 100 - voltage_percent(mv) ==> mv <= #[trigger] VOLTAGE_TABLE@[j],
        mv > 4186 ==> voltage_percent(mv) == 100,
        mv <= 3537 ==> voltage_percent(mv) == 0,
{
    lemma_first_exceeded_range(mv, 0);
    lemma_first_exceeded_is_first(mv, 0);
    if mv <= 3537 {
        assert forall|j: int| 0 <= j < 100 implies mv <= #[trigger] VOLTAGE_TABLE@[j] by {
            lemma_voltage_table_descends(j);
        }
        if first_exceeded(mv, 0) < 100 {
            assert(mv > VOLTAGE_TABLE@[first_exceeded(mv, 0)]);
        }
    }
}

proof fn lemma_voltage_table_descends(j: int)
    requires
        0 <= j < 100,
    ensures
        VOLTAGE_TABLE@[j] >= 3537,
{
    let table = seq![
        4186u16, 4156, 4143, 4133, 4122, 4113, 4103, 4094, 4086, 4075, 4067, 4059, 4051, 4043, 4035,
        4027, 4019, 4011, 4003, 3997, 3989, 3983, 3976, 3969, 3961, 3955, 3949, 3942, 3935, 3929,
        3922, 3916, 3909, 3902, 3896, 3890, 3883, 3877, 3870, 3865, 3859, 3853, 3848, 3842, 3837,
        3833, 3828, 3824, 3819, 3815, 3811, 3808, 3804, 3800, 3797, 3793, 3790, 3787, 3784, 3781,
        3778, 3775, 3772, 3770, 3767, 3764, 3762, 3759, 3757, 3754, 3751, 3748, 3744, 3741, 3737,
        3734, 3730, 3726, 3724, 3720, 3717, 3714, 3710, 3706, 3702, 3697, 3693, 3688, 3683, 3677,
        3671, 3666, 3662, 3658, 3654, 3646, 3633, 3612, 3579, 3537,
    ];
    assert(VOLTAGE_TABLE@ =~= table);
}

proof fn lemma_first_exceeded_is_first(mv: u16, i: int)
    requires
        0 <= i <= 100,
    ensures
        first_exceeded(mv, i) < 100 ==> mv > VOLTAGE_TABLE@[first_exceeded(mv, i)],
        forall|j: int| i <= j < first_exceeded(mv, i) ==> mv <= #[trigger] VOLTAGE_TABLE@[j],
    decreases 100 - i,
{
    if i < 100 && !(mv > VOLTAGE_TABLE@[i]) {
        lemma_first_exceeded_is_first(mv, i + 1);
    }
}

/// The outcome of sending one HID++ request.
#[derive(Debug, Clone, Copy, PartialEq, Eq)]
pub enum HidppQueryResult {
    /// A report answered the request.
    Reply([u8; 7]),
    /// No answer came, or the transport failed; a retry may help.
    TimedOut,
    /// The device answered with a HID++ error; a retry will not help.
    DeviceError,
}

/// What to make of one read from the receiver while waiting for a reply.
#[derive(Debug, Clone, Copy, PartialEq, Eq)]
pub enum ReportVerdict {
    /// Nothing relevant arrived; keep waiting until the deadline.
    Ignore,
    /// The attempt is over with this outcome.
    Outcome(HidppQueryResult),
}

/// A report is a HID++ error for `request` when it is at least six bytes
/// long, comes from the request's slot, carries an error feature index
/// (0x8f, or 0xff on receivers), and names the request's feature index and
/// function.
pub open spec fn error_report(request: Seq<u8>, buffer: Seq<u8>, read: int) -> bool {
    &&& read >= 6
    &&& buffer[1] == request[1]
    &&& (buffer[2] == HIDPP_ERROR_INDEX || buffer[2] == 0xffu8)
    &&& buffer[3] == request[2]
    &&& buffer[4] == request[3]
}

/// What a write of a request means: anything but all seven bytes written
/// ends the attempt as timed out.
pub fn classify_write(written: i32) -> (r: Option<HidppQueryResult>)
    ensures
        r == (if written == 7 { None } else { Some(HidppQueryResult::TimedOut) }),
{
    if written != 7 {
        Some(HidppQueryResult::TimedOut)
    } else {
        None
    }
}

/// Classifies one read of `read` bytes into `buffer` while waiting for the
/// reply to `request`: a failed read ends the attempt, an empty read is
/// skipped, a HID++ error ends it without retry, a matching reply ends it
/// with that reply, and any other report is skipped.
pub fn classify_report(request: &[u8; 7], read: i32, buffer: &[u8]) -> (r: ReportVerdict)
    requires
        read <= buffer@.len(),
    ensures
        read < 0 ==> r == ReportVerdict::Outcome(HidppQueryResult::TimedOut),
        read == 0 ==> r == ReportVerdict::Ignore,
        read > 0 && error_report(request@, buffer@, read as int) ==> r == ReportVerdict::Outcome(
            HidppQueryResult::DeviceError,
        ),
        read > 0 && !error_report(request@, buffer@, read as int) ==> (r is Ignore <==> !reply_matches(
            request@,
            buffer@.subrange(0, read as int),
        )),
        read > 0 && !error_report(request@, buffer@, read as int) && reply_matches(request@, buffer@.subrange(0, read as int))
            ==> (r matches ReportVerdict::Outcome(HidppQueryResult::Reply(reply)) && reply@ == buffer@.subrange(0, 7)),
{
    if read < 0 {
        return ReportVerdict::Outcome(HidppQueryResult::TimedOut);
    }
    if read == 0 {
        return ReportVerdict::Ignore;
    }
    if read >= 6 && buffer[1] == request[1] && (buffer[2] == HIDPP_ERROR_INDEX || buffer[2] == 0xff)
        && buffer[3] == request[2] && buffer[4] == request[3] {
        return ReportVerdict::Outcome(HidppQueryResult::DeviceError);
    }
    let n = read as usize;
    let report = &buffer[0..n];
    match matching_reply(request, report) {
        Some(reply) => ReportVerdict::Outcome(HidppQueryResult::Reply(reply)),
        None => ReportVerdict::Ignore,
    }
}

/// What to do after an attempt of a query.
#[derive(Debug, Clone, Copy, PartialEq, Eq)]
pub enum QueryStep {
    /// The query is over: the reply, or none.
    Finish(Option<[u8; 7]>),
    /// Wait the back-off, then send the request again as this attempt.
    Retry(u8),
}

/// What follows an attempt: a reply ends the query with it, a HID++ error
/// ends it without one, and a time-out is retried until the last attempt.
pub open spec fn query_step(attempt: u8, result: HidppQueryResult) -> QueryStep {
    match result {
        HidppQueryResult::Reply(reply) => QueryStep::Finish(Some(reply)),
        HidppQueryResult::DeviceError => QueryStep::Finish(None),
        HidppQueryResult::TimedOut => if attempt + 1 < HIDPP_QUERY_ATTEMPTS {
            QueryStep::Retry((attempt + 1) as u8)
        } else {
            QueryStep::Finish(None)
        },
    }
}

/// Decides what follows an attempt: a reply ends the query with it, a HID++
/// error ends it without one, and a time-out is retried until the last of the
/// attempts.
pub fn next_query_step(attempt: u8, result: HidppQueryResult) -> (r: QueryStep)
    requires
        attempt < HIDPP_QUERY_ATTEMPTS,
    ensures
        r == query_step(attempt, result),
{
    match result {
        HidppQueryResult::Reply(reply) => QueryStep::Finish(Some(reply)),
        HidppQueryResult::DeviceError => QueryStep::Finish(None),
        HidppQueryResult::TimedOut => if attempt + 1 < HIDPP_QUERY_ATTEMPTS {
            QueryStep::Retry(attempt + 1)
        } else {
            QueryStep::Finish(None)
        },
    }
}

/// A query is sent at most three times: a retry always names a later
/// attempt that is still below the limit.
pub proof fn lemma_retries_are_bounded(attempt: u8, result: HidppQueryResult, next: u8)
    requires
        attempt < HIDPP_QUERY_ATTEMPTS,
        query_step(attempt, result) == QueryStep::Retry(next),
    ensures
        attempt < next < HIDPP_QUERY_ATTEMPTS,
        result == HidppQueryResult::TimedOut,
{
}

/// The retry policy of a query: a reply ends it with that reply, a HID++
/// error ends it with none at once, and a time-out is retried as the next
/// attempt until the third attempt, whose time-out ends it with none.
pub proof fn lemma_retry_policy(attempt: u8, reply: [u8; 7])
    requires
        attempt < HIDPP_QUERY_ATTEMPTS,
    ensures
        query_step(attempt, HidppQueryResult::Reply(reply)) == QueryStep::Finish(Some(reply)),
        query_step(attempt, HidppQueryResult::DeviceError) == QueryStep::Finish(None),
        attempt < 2 ==> query_step(attempt, HidppQueryResult::TimedOut) == QueryStep::Retry((attempt + 1) as u8),
        attempt == 2 ==> query_step(attempt, HidppQueryResult::TimedOut) == QueryStep::Finish(None),
{
}

/// A reply answers one command only: a report that answers two requests
/// names the same slot, feature index and function in both, is never an
/// error report, and is a whole short (7-byte) or long (20-byte) report.
pub proof fn lemma_reply_answers_one_command(first: Seq<u8>, second: Seq<u8>, response: Seq<u8>)
    requires
        reply_matches(first, response),
        reply_matches(second, response),
    ensures
        first[1] == second[1] && first[2] == second[2] && first[3] == second[3],
        response[2] != 0x8f,
        response.len() == 7 || response.len() == 20,
{
}

/// A whole short report that echoes the request's slot, feature index and
/// function answers it, unless it carries the error index.
pub proof fn lemma_echo_answers(request: Seq<u8>, response: Seq<u8>)
    requires
        response.len() == 7,
        response[0] == 0x10,
        response[1] == request[1] && response[2] == request[2] && response[3] == request[3],
        response[2] != 0x8f,
    ensures
        reply_matches(request, response),
{
}

/// The first attempt sends the request as it is, and every attempt keeps the
/// function number in the high nibble.
pub proof fn lemma_first_attempt_unchanged(function: u8, attempt: u8)
    requires
        (function & 0x0fu8) + attempt <= 15,
    ensures
        software_function(function, 0) == function,
        software_function(function, attempt) & 0xf0u8 == function & 0xf0u8,
{
    assert((function & 0xf0u8) | (((function & 0x0fu8) + 0u8) as u8) == function) by (bit_vector);
    assert((function & 0x0fu8) + attempt <= 15 ==> ((function & 0xf0u8) | (((function & 0x0fu8) + attempt) as u8))
        & 0xf0u8 == function & 0xf0u8) by (bit_vector);
}

/// The unified battery feature is read with function 1 (0x1a), the status
/// and voltage features with function 0 (0x0a), all with software id 10.
pub proof fn lemma_battery_query_function(feature: u16)
    ensures
        feature == 0x1004 ==> battery_function(feature) == 0x1a,
        feature != 0x1004 ==> battery_function(feature) == 0x0a,
{
}

/// The presence check of `slot`: a protocol-version query whose last byte
/// the device echoes back.
pub open spec fn ping_query(slot: u8) -> Seq<u8> {
    seq![HIDPP_SHORT_REPORT, slot, 0u8, 0x1au8, 0u8, 0u8, 0x55u8]
}

/// Whether a reply to the presence check shows a device on `slot`: it comes
/// from that slot, is not an error, and echoes the check's last byte.
pub open spec fn ping_shows_device(slot: u8, reply: Seq<u8>) -> bool {
    reply[1] == slot && reply[2] == 0 && reply[6] == 0x55
}

/// The presence check of a paired slot: the receiver echoes the 0x55 marker
/// when a device answers on it.
pub fn ping_request(slot: u8) -> (r: [u8; 7])
    ensures
        r@ == ping_query(slot),
{
    [HIDPP_SHORT_REPORT, slot, 0x00, 0x1a, 0x00, 0x00, 0x55]
}

/// Whether a reply to the presence check shows a device on `slot`.
pub fn ping_answered(slot: u8, reply: &[u8; 7]) -> (r: bool)
    ensures
        r == ping_shows_device(slot, reply@),
{
    reply[1] == slot && reply[2] == 0 && reply[6] == 0x55
}

/// The root-feature lookup of `feature` on `slot`.
pub fn feature_index_request(slot: u8, feature: u16) -> (r: [u8; 7])
    ensures
        r@ == seq![HIDPP_SHORT_REPORT, slot, 0u8, 0x0au8, (feature / 256) as u8, (feature % 256) as u8, 0u8],
{
    let high = (feature / 256) as u8;
    let low = (feature % 256) as u8;
    [HIDPP_SHORT_REPORT, slot, 0, 0x0a, high, low, 0]
}

/// The feature index in a root-feature reply; index 0 is the root feature
/// itself and means the device lacks the feature.
pub fn feature_index_of(reply: &[u8; 7]) -> (r: Option<u8>)
    ensures
        r == (if reply@[4] == 0 { None } else { Some(reply@[4]) }),
{
    let index = reply[4];
    if index != 0 {
        Some(index)
    } else {
        None
    }
}

} // verus!
