//! What the library takes from other crates, and what it holds to be true of them.

use idevice::usbmuxd::UsbmuxdDevice;
use std::path::PathBuf;
use vstd::prelude::*;

verus! {

/// A device as `usbmuxd` reports it. The library carries such values and looks at nothing in them.
#[verifier::external_type_specification]
#[verifier::external_body]
pub struct ExUsbmuxdDevice(idevice::usbmuxd::UsbmuxdDevice);

/// A path on the host. The library carries such values and looks at nothing in them.
#[verifier::external_type_specification]
#[verifier::external_body]
pub struct ExPathBuf(std::path::PathBuf);

/// A property-list value.
#[verifier::external_type_specification]
#[verifier::external_body]
pub struct ExValue(plist::Value);

/// `Clone` of `UsbmuxdDevice`, which clones each field: the copy equals the device.
pub assume_specification[ <UsbmuxdDevice as Clone>::clone ](device: &UsbmuxdDevice) -> (copy:
    UsbmuxdDevice)
    ensures
        copy == *device,
;

/// `Clone` of `PathBuf`: the copy equals the path.
pub assume_specification[ <PathBuf as Clone>::clone ](path: &PathBuf) -> (copy: PathBuf)
    ensures
        copy == *path,
;

/// The entries of a property-list dictionary whose values are strings; no entries if the value is
/// no dictionary.
pub uninterp spec fn string_entries(value: plist::Value) -> Map<Seq<char>, Seq<char>>;

/// Calls `Value::as_dictionary` of `plist`, then `Dictionary::get` and `Value::as_string`: gives what
/// a dictionary holds under the key, if it is a string. A value that is no dictionary, a key without
/// an entry and an entry that is no string all give nothing.
#[verifier::external_body]
pub(crate) fn string_entry(value: &plist::Value, key: &str) -> (entry: Option<String>)
    ensures
        match entry {
            Some(text) => string_entries(*value).contains_key(key@)
                && string_entries(*value)[key@] == text@,
            None => !string_entries(*value).contains_key(key@),
        },
{
    value.as_dictionary()?.get(key)?.as_string().map(str::to_owned)
}

/// How a listing writes a date and a time of day.
pub const TIME_FORMAT: &'static str = "%Y-%m-%d %H:%M";

/// The text of a point in time, given in nanoseconds since the Unix epoch, written in UTC after
/// a `strftime` format.
pub uninterp spec fn time_text(nanos: i64, format: Seq<char>) -> Seq<char>;

/// Calls `DateTime::from_timestamp_nanos` of `chrono`, which covers every `i64`, takes the point in
/// time in UTC, calls `NaiveDateTime::format` and turns the result into text. What comes out is a
/// function of the two arguments, and `time_text` names it. Only the one format is admitted, since
/// turning a malformed one into text panics.
#[verifier::external_body]
pub(crate) fn format_time(nanos: i64, format: &str) -> (text: String)
    requires
        format@ == TIME_FORMAT@,
    ensures
        text@ == time_text(nanos, format@),
{
    chrono::DateTime::from_timestamp_nanos(nanos).naive_utc().format(format).to_string()
}

} // verus!
