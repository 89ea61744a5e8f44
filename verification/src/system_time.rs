//! What setting the system clock can answer.

use vstd::prelude::*;
use vstd::string::*;
use crate::clock::{CivilTime, UtcInstant};
use crate::text::{
    append_decimal, append_padded_decimal, append_signed_decimal, decimal, padded_decimal,
    signed_decimal,
};

verus! {

/// Why the system clock was not set.
#[derive(Debug)]
pub enum SystemSetTimeError {
    OperatingSystemNotSupported,
    PermissionError,
    OtherError(String),
}

impl Clone for SystemSetTimeError {
    fn clone(&self) -> (copy: Self)
        ensures
            copy == *self,
    {
        match self {
            SystemSetTimeError::OperatingSystemNotSupported => {
                SystemSetTimeError::OperatingSystemNotSupported
            },
            SystemSetTimeError::PermissionError => SystemSetTimeError::PermissionError,
            SystemSetTimeError::OtherError(message) => SystemSetTimeError::OtherError(
                message.clone(),
            ),
        }
    }
}

/// The error number by which `settimeofday` says that the caller lacks the
/// privilege to set the clock: `EPERM` as Linux numbers it.
pub const EPERM: i32 = 1;

/// The error code by which `SetSystemTime` says that the caller lacks the
/// privilege to set the clock: `ERROR_PRIVILEGE_NOT_HELD` of Windows.
pub const ERROR_PRIVILEGE_NOT_HELD: u32 = 1314;

/// The message that every [`SystemSetTimeError`] is reported with.
pub open spec fn error_message() -> Seq<char> {
    "Error setting system time, probably no permission for setting time"@
}

/// The text in front of the error number in the message of a failure of
/// `settimeofday` that is no lack of privilege.
pub open spec fn settimeofday_failure_prefix() -> Seq<char> {
    "Error setting system time, settimeofday failed with error number "@
}

/// The text in front of the error code in the message of a failure of
/// `SetSystemTime` that is no lack of privilege.
pub open spec fn set_system_time_failure_prefix() -> Seq<char> {
    "Error setting system time, SetSystemTime failed with error code "@
}

/// What `settimeofday` said with the answer `answer`, the error number
/// after the call being `error_number`: the answer zero is success, and
/// any other answer a failure whose reason the error number names.
pub open spec fn settimeofday_means(
    answer: i32,
    error_number: i32,
    outcome: Result<(), SystemSetTimeError>,
) -> bool {
    if answer == 0 {
        outcome is Ok
    } else if error_number == EPERM {
        outcome == Err::<(), SystemSetTimeError>(SystemSetTimeError::PermissionError)
    } else {
        outcome matches Err(SystemSetTimeError::OtherError(message)) && message@
            == settimeofday_failure_prefix() + signed_decimal(error_number as int)
    }
}

/// What `SetSystemTime` said with the answer `answer`, the last error code
/// after the call being `error_code`: any answer but zero is success, and
/// zero a failure whose reason the error code names.
pub open spec fn set_system_time_means(
    answer: i32,
    error_code: u32,
    outcome: Result<(), SystemSetTimeError>,
) -> bool {
    if answer != 0 {
        outcome is Ok
    } else if error_code == ERROR_PRIVILEGE_NOT_HELD {
        outcome == Err::<(), SystemSetTimeError>(SystemSetTimeError::PermissionError)
    } else {
        outcome matches Err(SystemSetTimeError::OtherError(message)) && message@
            == set_system_time_failure_prefix() + decimal(error_code as nat)
    }
}

impl SystemSetTimeError {
    /// The text this error is shown as: the same for every variant.
    pub fn message(&self) -> (text: String)
        ensures
            text@ == error_message(),
    {
        "Error setting system time, probably no permission for setting time".to_owned()
    }
}

/// Reads what `settimeofday` said. `answer` is what the call returned and
/// `error_number` the error number read right after it, which counts only
/// where the call failed. The answer zero is success. A failure for want of
/// the privilege to set the clock is a permission error, and any other
/// failure an error whose message names the error number.
pub fn settimeofday_outcome(answer: i32, error_number: i32) -> (outcome: Result<
    (),
    SystemSetTimeError,
>)
    ensures
        settimeofday_means(answer, error_number, outcome),
        outcome is Ok <==> answer == 0,
        outcome matches Err(SystemSetTimeError::PermissionError) <==> (answer != 0 && error_number
            == EPERM),
{
    if answer == 0 {
        Ok(())
    } else if error_number == EPERM {
        Err(SystemSetTimeError::PermissionError)
    } else {
        let mut message =
            "Error setting system time, settimeofday failed with error number ".to_owned();
        append_signed_decimal(&mut message, error_number as i64);
        Err(SystemSetTimeError::OtherError(message))
    }
}

/// Reads what the Windows call `SetSystemTime` said. `answer` is what the
/// call returned and `error_code` the last error code read right after it,
/// which counts only where the call failed. Any answer but zero is success.
/// A failure for want of the privilege to set the clock is a permission
/// error, and any other failure an error whose message names the code.
pub fn set_system_time_outcome(answer: i32, error_code: u32) -> (outcome: Result<
    (),
    SystemSetTimeError,
>)
    ensures
        set_system_time_means(answer, error_code, outcome),
        outcome is Ok <==> answer != 0,
        outcome matches Err(SystemSetTimeError::PermissionError) <==> (answer == 0 && error_code
            == ERROR_PRIVILEGE_NOT_HELD),
{
    if answer != 0 {
        Ok(())
    } else if error_code == ERROR_PRIVILEGE_NOT_HELD {
        Err(SystemSetTimeError::PermissionError)
    } else {
        let mut message =
            "Error setting system time, SetSystemTime failed with error code ".to_owned();
        append_decimal(&mut message, error_code as u64);
        Err(SystemSetTimeError::OtherError(message))
    }
}

/// The seconds and the microseconds into the second that `settimeofday`
/// takes for `instant`.
pub fn timeval_of(instant: &UtcInstant) -> (parts: (i64, i64))
    ensures
        parts.0 == instant.seconds,
        parts.1 == instant.nanoseconds / 1000,
        0 <= parts.1,
        instant.well_formed() ==> parts.1 < 1_000_000,
{
    (instant.seconds, (instant.nanoseconds / 1000) as i64)
}

/// The fields of the date and time that `SetSystemTime` takes, 16 bits
/// each.
#[derive(Debug, Clone, Copy, PartialEq, Eq, Structural)]
pub struct SystemTimeFields {
    pub year: u16,
    pub month: u16,
    pub day_of_week: u16,
    pub day: u16,
    pub hour: u16,
    pub minute: u16,
    pub second: u16,
    pub milliseconds: u16,
}

/// What is left of `value` in 16 bits.
pub open spec fn low_16_bits(value: int) -> int {
    value % 0x1_0000
}

/// The fields that stand for `time`, each cut to 16 bits. Setting the clock
/// does not read the day of the week; it is given as the day of the month
/// less one.
pub open spec fn system_time_fields_of(time: CivilTime) -> SystemTimeFields {
    SystemTimeFields {
        year: low_16_bits(time.year as int) as u16,
        month: low_16_bits(time.month as int) as u16,
        day_of_week: low_16_bits(time.day - 1) as u16,
        day: low_16_bits(time.day as int) as u16,
        hour: low_16_bits(time.hour as int) as u16,
        minute: low_16_bits(time.minute as int) as u16,
        second: low_16_bits(time.second as int) as u16,
        milliseconds: (time.nanosecond as int / 1_000_000) as u16,
    }
}

/// What is left of `value` in 16 bits.
fn cut_to_16_bits(value: u32) -> (low: u16)
    ensures
        low == low_16_bits(value as int),
        value <= 0xFFFF ==> low == value,
{
    (value % 0x1_0000) as u16
}

/// Narrows a date and time to the fields that `SetSystemTime` takes. The
/// milliseconds always fit. Every other field is exact where its value fits
/// 16 bits, which all but the year do for a well-formed time, and keeps its
/// low 16 bits otherwise.
pub fn system_time_fields(time: &CivilTime) -> (fields: SystemTimeFields)
    ensures
        fields == system_time_fields_of(*time),
        fields.milliseconds == time.nanosecond / 1_000_000,
        0 <= time.year <= 0xFFFF ==> fields.year == time.year,
        time.month <= 0xFFFF ==> fields.month == time.month,
        1 <= time.day <= 0x1_0000 ==> fields.day_of_week == time.day - 1,
        time.day <= 0xFFFF ==> fields.day == time.day,
        time.hour <= 0xFFFF ==> fields.hour == time.hour,
        time.minute <= 0xFFFF ==> fields.minute == time.minute,
        time.second <= 0xFFFF ==> fields.second == time.second,
        time.well_formed() ==> {
            &&& fields.month == time.month
            &&& fields.day_of_week == time.day - 1
            &&& fields.day == time.day
            &&& fields.hour == time.hour
            &&& fields.minute == time.minute
            &&& fields.second == time.second
        },
{
    let lifted: i64 = time.year as i64 + 0x8000_0000;
    proof {
        vstd::arithmetic::div_mod::lemma_mod_multiples_vanish(0x8000, time.year as int, 0x1_0000);
        assert(0x1_0000 * 0x8000 + time.year as int == lifted);
    }
    let year = (lifted % 0x1_0000) as u16;
    let day_of_week = if time.day == 0 {
        0xFFFFu16
    } else {
        cut_to_16_bits(time.day - 1)
    };
    SystemTimeFields {
        year,
        month: cut_to_16_bits(time.month),
        day_of_week,
        day: cut_to_16_bits(time.day),
        hour: cut_to_16_bits(time.hour),
        minute: cut_to_16_bits(time.minute),
        second: cut_to_16_bits(time.second),
        milliseconds: (time.nanosecond / 1_000_000) as u16,
    }
}

/// The text in front of the date in the command that sets the clock.
pub open spec fn set_date_prefix() -> Seq<char> {
    "powershell Set-Date -Date \""@
}

/// The command that sets the clock to `time`: the date and the time of day
/// with two digits each and the milliseconds with three, in quotes.
pub open spec fn set_date_command_of(time: CivilTime) -> Seq<char> {
    set_date_prefix() + padded_decimal(time.year as int, 2) + seq!['-'] + padded_decimal(
        time.month as int,
        2,
    ) + seq!['-'] + padded_decimal(time.day as int, 2) + seq!['T'] + padded_decimal(
        time.hour as int,
        2,
    ) + seq![':'] + padded_decimal(time.minute as int, 2) + seq![':'] + padded_decimal(
        time.second as int,
        2,
    ) + seq!['.'] + padded_decimal(time.nanosecond as int / 1_000_000, 3) + seq!['"']
}

/// The command line that sets the clock of a Windows machine to `time`,
/// exact to the millisecond.
pub fn set_date_command(time: &CivilTime) -> (command: String)
    ensures
        command@ == set_date_command_of(*time),
{
    proof {
        reveal_strlit("-");
        reveal_strlit("T");
        reveal_strlit(":");
        reveal_strlit(".");
        reveal_strlit("\"");
        assert("-"@ =~= seq!['-']);
        assert("T"@ =~= seq!['T']);
        assert(":"@ =~= seq![':']);
        assert("."@ =~= seq!['.']);
        assert("\""@ =~= seq!['"']);
    }
    let mut command = "powershell Set-Date -Date \"".to_owned();
    append_padded_decimal(&mut command, time.year as i64, 2);
    command.append("-");
    append_padded_decimal(&mut command, time.month as i64, 2);
    command.append("-");
    append_padded_decimal(&mut command, time.day as i64, 2);
    command.append("T");
    append_padded_decimal(&mut command, time.hour as i64, 2);
    command.append(":");
    append_padded_decimal(&mut command, time.minute as i64, 2);
    command.append(":");
    append_padded_decimal(&mut command, time.second as i64, 2);
    command.append(".");
    append_padded_decimal(&mut command, (time.nanosecond / 1_000_000) as i64, 3);
    command.append("\"");
    command
}

} // verus!
