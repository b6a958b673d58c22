//! What numerals, orders, searches, sizes and maps mean, said without the functions that compute
//! them.

use idevice::usbmuxd::UsbmuxdDevice;
use vstd::prelude::*;

use crate::discovery::{self, AnswerModel, AppInfo, DeviceAnswer};
use crate::name_map;
use crate::outside;
use crate::size;
use crate::text;

verus! {

/// The number that a row of decimal digits stands for.
pub open spec fn numeral_value(digits: Seq<char>) -> int
    decreases digits.len(),
{
    if digits.len() == 0 {
        0
    } else {
        10 * numeral_value(digits.drop_last()) + (digits.last() as int - '0' as int)
    }
}

/// Law: the numeral of a number is a row of digits that stands for the number and has no leading
/// zero.
pub proof fn numerals_stand_for_numbers(n: nat)
    ensures
        text::decimal(n).len() > 0,
        forall|i: int|
            0 <= i < text::decimal(n).len() ==> '0' <= #[trigger] text::decimal(n)[i] <= '9',
        text::decimal(n)[0] == '0' ==> n == 0 && text::decimal(n).len() == 1,
        numeral_value(text::decimal(n)) == n,
    decreases n,
{
    let digits = text::decimal(n);
    if n >= 10 {
        numerals_stand_for_numbers(n / 10);
        let before = text::decimal(n / 10);
        assert(digits.drop_last() =~= before);
        assert(digits[0] == before[0]);
        assert forall|i: int| 0 <= i < digits.len() implies '0' <= #[trigger] digits[i] <= '9' by {
            if i < before.len() {
                assert(digits[i] == before[i]);
            }
        }
    } else {
        assert(digits.drop_last() =~= seq![]);
        assert(numeral_value(seq![]) == 0);
    }
}

/// Law: a text occurs in another where it is one of its stretches.
pub proof fn occurrence_is_a_stretch(needle: Seq<char>, whole: Seq<char>)
    ensures
        text::occurs_in(needle, whole) <==> exists|i: int, j: int|
            0 <= i <= j <= whole.len() && #[trigger] whole.subrange(i, j) == needle,
{
    if text::occurs_in(needle, whole) {
        let i = choose|i: int|
            0 <= i && i + needle.len() <= whole.len() && #[trigger] whole.subrange(
                i,
                i + needle.len(),
            ) == needle;
        assert(whole.subrange(i, i + needle.len()) == needle);
    }
    if exists|i: int, j: int|
        0 <= i <= j <= whole.len() && #[trigger] whole.subrange(i, j) == needle {
        let (i, j) = choose|i: int, j: int|
            0 <= i <= j <= whole.len() && #[trigger] whole.subrange(i, j) == needle;
        assert(j == i + needle.len());
        assert(whole.subrange(i, i + needle.len()) == needle);
    }
}

/// Whether two rows of bytes agree up to a place and the first is less there: it ends, or its byte
/// is the smaller one.
pub open spec fn less_at(a: Seq<u8>, b: Seq<u8>, k: int) -> bool {
    &&& 0 <= k <= a.len() && k < b.len()
    &&& forall|i: int| 0 <= i < k ==> #[trigger] a[i] == b[i]
    &&& k < a.len() ==> a[k] < b[k]
}

/// Law: bytes are ordered by the first place where they differ.
pub proof fn bytes_are_ordered_by_the_first_difference(a: Seq<u8>, b: Seq<u8>)
    ensures
        text::bytes_less(a, b) <==> exists|k: int| less_at(a, b, k),
    decreases a.len(),
{
    if a.len() == 0 {
        assert(b.len() > 0 ==> less_at(a, b, 0));
    } else if b.len() > 0 {
        let (x, y) = (a.drop_first(), b.drop_first());
        bytes_are_ordered_by_the_first_difference(x, y);
        if text::bytes_less(a, b) {
            if a[0] < b[0] {
                assert(less_at(a, b, 0));
            } else {
                let k = choose|k: int| less_at(x, y, k);
                assert forall|i: int| 0 <= i < k + 1 implies #[trigger] a[i] == b[i] by {
                    if i > 0 {
                        assert(x[i - 1] == y[i - 1]);
                    }
                }
                assert(less_at(a, b, k + 1));
            }
        }
        if exists|k: int| less_at(a, b, k) {
            let k = choose|k: int| less_at(a, b, k);
            if k > 0 {
                assert(a[0] == b[0]);
                assert forall|i: int| 0 <= i < k - 1 implies #[trigger] x[i] == y[i] by {
                    assert(a[i + 1] == b[i + 1]);
                }
                assert(less_at(x, y, k - 1));
            }
        }
    }
}

/// Law: texts are ordered by their bytes in UTF-8.
pub proof fn texts_are_ordered_by_their_bytes(a: Seq<char>, b: Seq<char>)
    ensures
        text::text_less(a, b) <==> exists|k: int|
            less_at(vstd::utf8::encode_utf8(a), vstd::utf8::encode_utf8(b), k),
{
    bytes_are_ordered_by_the_first_difference(
        vstd::utf8::encode_utf8(a),
        vstd::utf8::encode_utf8(b),
    );
}

/// Law: rounding goes to the nearest multiple, and between two to the even one.
pub proof fn rounding_is_to_the_nearest(n: nat, d: nat)
    requires
        d > 0,
    ensures
        ({
            let q = size::round_half_even(n, d);
            &&& 2 * (n - q * d) <= d
            &&& 2 * (q * d - n) <= d
            &&& 2 * (n - q * d) == d || 2 * (q * d - n) == d ==> q % 2 == 0
        }),
{
    let (q, r) = (n / d, n % d);
    vstd::arithmetic::div_mod::lemma_fundamental_div_mod(n as int, d as int);
    assert((q + 1) * d == q * d + d) by (nonlinear_arith);
    assert(d * q == q * d) by (nonlinear_arith);
}

/// Law: the numbers of single precision lie a power of two apart, which leaves them 24 binary
/// digits.
pub proof fn single_precision_has_24_digits(n: nat)
    ensures
        exists|k: nat| size::single_step(n) == #[trigger] vstd::arithmetic::power2::pow2(k),
        n < 0x100_0000 ==> size::single_step(n) == 1,
        n >= 0x100_0000 ==> 0x80_0000 * size::single_step(n) <= n < 0x100_0000 * size::single_step(
            n,
        ),
    decreases n,
{
    if n >= 0x100_0000 {
        single_precision_has_24_digits(n / 2);
        let k = choose|k: nat| size::single_step(n / 2) == #[trigger] vstd::arithmetic::power2::pow2(k);
        vstd::arithmetic::power2::lemma_pow2_unfold(k + 1);
        assert(size::single_step(n) == vstd::arithmetic::power2::pow2(k + 1));
    } else {
        vstd::arithmetic::power2::lemma2_to64();
        assert(size::single_step(n) == vstd::arithmetic::power2::pow2(0));
    }
}

/// Law: a number is taken in single precision as the nearest one that lies a whole number of steps
/// from zero.
pub proof fn single_precision_is_nearest(n: nat)
    ensures
        ({
            let s = size::single_step(n);
            let v = size::single(n);
            &&& s > 0 && v % s == 0
            &&& 2 * (n - v) <= s
            &&& 2 * (v - n) <= s
            &&& 2 * (n - v) == s || 2 * (v - n) == s ==> (v / s) % 2 == 0
        }),
{
    let s = size::single_step(n);
    single_precision_has_24_digits(n);
    let k = choose|k: nat| s == #[trigger] vstd::arithmetic::power2::pow2(k);
    vstd::arithmetic::power2::lemma_pow2_pos(k);
    let q = size::round_half_even(n, s);
    rounding_is_to_the_nearest(n, s);
    vstd::arithmetic::div_mod::lemma_div_by_multiple(q as int, s as int);
    vstd::arithmetic::div_mod::lemma_mod_multiples_basic(q as int, s as int);
}

/// Law: a size below 1024 is written in bytes as it is; any other as the tenths of the largest unit
/// that it reaches, up to gibibytes, that come nearest to the size in single precision.
pub proof fn sizes_are_written_in_the_largest_unit(n: nat)
    ensures
        n < 1024 ==> size::size_text(n) == text::decimal(n) + " B"@,
        1024 <= n < 0x10_0000 ==> size::size_text(n) == text::decimal(size::tenths(n, 1024) / 10)
            + "."@ + text::decimal(size::tenths(n, 1024) % 10) + " KB"@,
        0x10_0000 <= n < 0x4000_0000 ==> size::size_text(n) == text::decimal(
            size::tenths(n, 0x10_0000) / 10,
        ) + "."@ + text::decimal(size::tenths(n, 0x10_0000) % 10) + " MB"@,
        0x4000_0000 <= n ==> size::size_text(n) == text::decimal(size::tenths(n, 0x4000_0000) / 10)
            + "."@ + text::decimal(size::tenths(n, 0x4000_0000) % 10) + " GB"@,
{
}

/// Law: the tenths of a unit that are written for a size are those nearest to it in single
/// precision.
pub proof fn tenths_are_nearest(n: nat, unit: nat)
    requires
        unit > 0,
    ensures
        ({
            let t = size::tenths(n, unit);
            let v = 10 * size::single(n);
            &&& 2 * (v - t * unit) <= unit
            &&& 2 * (t * unit - v) <= unit
            &&& 2 * (v - t * unit) == unit || 2 * (t * unit - v) == unit ==> t % 2 == 0
        }),
{
    rounding_is_to_the_nearest(10 * size::single(n), unit);
}

/// Law: a name is in a map where an entry has it, and it has the value of the last such entry.
pub proof fn lookups_find_the_last_entry<V>(entries: Seq<(Seq<char>, V)>, name: Seq<char>)
    ensures
        name_map::has_name(entries, name) <==> exists|i: int|
            0 <= i < entries.len() && (#[trigger] entries[i]).0 == name,
        name_map::lookup(entries, name) is Some <==> exists|i: int|
            0 <= i < entries.len() && (#[trigger] entries[i]).0 == name,
        forall|i: int|
            0 <= i < entries.len() && (#[trigger] entries[i]).0 == name && (forall|j: int|
                i < j < entries.len() ==> (#[trigger] entries[j]).0 != name)
                ==> name_map::lookup(entries, name) == Some(entries[i].1),
{
    name_map::lemma_place(entries, name);
}

/// Law: an insertion gives the name its value, leaves every other name what it had, and keeps the
/// order of the names; a new name comes last.
pub proof fn insertion_sets_one_name<V>(
    entries: Seq<(Seq<char>, V)>,
    name: Seq<char>,
    value: V,
)
    ensures
        ({
            let after = name_map::inserted(entries, name, value);
            &&& forall|i: int|
                0 <= i < entries.len() ==> (#[trigger] after[i]).0 == entries[i].0
            &&& name_map::lookup(after, name) == Some(value)
            &&& forall|other: Seq<char>|
                other != name ==> #[trigger] name_map::lookup(after, other) == name_map::lookup(
                    entries,
                    other,
                )
            &&& (exists|i: int| 0 <= i < entries.len() && (#[trigger] entries[i]).0 == name)
                ==> after.len() == entries.len()
            &&& (forall|i: int| 0 <= i < entries.len() ==> (#[trigger] entries[i]).0 != name)
                ==> after == entries.push((name, value))
        }),
{
    let after = name_map::inserted(entries, name, value);
    name_map::lemma_place(entries, name);
    name_map::lookup_after_insert(entries, name, value, name);
    assert forall|other: Seq<char>| other != name implies #[trigger] name_map::lookup(after, other)
        == name_map::lookup(entries, other) by {
        name_map::lookup_after_insert(entries, name, value, other);
    }
}

/// Law: a map that was collected from pairs has the names of the pairs, each once, with the value
/// that came last.
pub proof fn collected_maps_hold_the_pairs<V>(pairs: Seq<(Seq<char>, V)>, name: Seq<char>)
    ensures
        ({
            let map = name_map::collected(pairs);
            &&& forall|i: int, j: int|
                0 <= i < map.len() && 0 <= j < map.len() && i != j ==> (#[trigger] map[i]).0 != (
                #[trigger] map[j]).0
            &&& name_map::lookup(map, name) is Some <==> exists|i: int|
                0 <= i < pairs.len() && (#[trigger] pairs[i]).0 == name
            &&& forall|i: int|
                0 <= i < pairs.len() && (#[trigger] pairs[i]).0 == name && (forall|j: int|
                    i < j < pairs.len() ==> (#[trigger] pairs[j]).0 != name)
                    ==> name_map::lookup(map, name) == Some(pairs[i].1)
        }),
{
    name_map::collected_distinct(pairs);
    name_map::lookup_in_collected(pairs, name);
    lookups_find_the_last_entry(pairs, name);
}

/// Law: names are distinct where no two entries have the same one.
pub proof fn distinct_names_differ<V>(entries: Seq<(Seq<char>, V)>)
    ensures
        name_map::distinct_names(entries) <==> forall|i: int, j: int|
            0 <= i < entries.len() && 0 <= j < entries.len() && i != j ==> (
            #[trigger] entries[i]).0 != (#[trigger] entries[j]).0,
{
}

/// Law: a property list gives the text that stands under a key.
pub proof fn entries_stand_under_their_keys(value: plist::Value, key: Seq<char>)
    ensures
        discovery::entry_of(value, key) is Some <==> outside::string_entries(value).contains_key(
            key,
        ),
        outside::string_entries(value).contains_key(key) ==> discovery::entry_of(value, key)
            == Some(outside::string_entries(value)[key]),
{
}

/// Law: what a device answered is silence, values without a name, or the text under `DeviceName`.
pub proof fn devices_are_named_by_themselves(
    answers: Seq<(UsbmuxdDevice, Option<plist::Value>)>,
    i: int,
)
    requires
        0 <= i < answers.len(),
    ensures
        discovery::answers_of(answers).len() == answers.len(),
        discovery::answers_of(answers)[i].0 == answers[i].0,
        answers[i].1 is None ==> discovery::answers_of(answers)[i].1 == AnswerModel::Silent,
        answers[i].1 matches Some(values) ==> {
            let known = outside::string_entries(values);
            discovery::answers_of(answers)[i].1 == if known.contains_key("DeviceName"@) {
                AnswerModel::Named(known["DeviceName"@])
            } else {
                AnswerModel::Nameless
            }
        },
{
}

/// Law: an answer counts for what it says.
pub proof fn answers_count_for_what_they_say(answers: Seq<(UsbmuxdDevice, DeviceAnswer)>, i: int)
    requires
        0 <= i < answers.len(),
    ensures
        discovery::answers_view(answers).len() == answers.len(),
        discovery::answers_view(answers)[i].0 == answers[i].0,
        answers[i].1 matches DeviceAnswer::Named(name) ==> discovery::answers_view(answers)[i].1
            == AnswerModel::Named(name@),
        answers[i].1 is Nameless <==> discovery::answers_view(answers)[i].1 is Nameless,
        answers[i].1 is Silent <==> discovery::answers_view(answers)[i].1 is Silent,
{
}

/// Law: the devices found are those that gave a name, in their order; a search is spoiled by a
/// device that answered without one and by nothing else.
pub proof fn found_devices_are_those_with_names(answers: Seq<(UsbmuxdDevice, AnswerModel)>)
    ensures
        discovery::named(answers) == answers.filter(
            |answer: (UsbmuxdDevice, AnswerModel)| answer.1 is Named,
        ).map_values(
            |answer: (UsbmuxdDevice, AnswerModel)| (answer.1->Named_0, answer.0),
        ),
        !discovery::all_named(answers) <==> exists|i: int|
            0 <= i < answers.len() && (#[trigger] answers[i]).1 is Nameless,
    decreases answers.len(),
{
    let keep = |answer: (UsbmuxdDevice, AnswerModel)| answer.1 is Named;
    let pair = |answer: (UsbmuxdDevice, AnswerModel)| (answer.1->Named_0, answer.0);
    reveal(Seq::filter);
    if answers.len() > 0 {
        let init = answers.drop_last();
        found_devices_are_those_with_names(init);
        let kept = init.filter(keep);
        assert(kept.push(answers.last()).map_values(pair) =~= kept.map_values(pair).push(
            pair(answers.last()),
        ));
    } else {
        assert(answers.filter(keep).map_values(pair) =~= seq![]);
    }
}

/// Law: every answer with a name brings its device into the map, under that name unless a later
/// device has it too.
pub proof fn every_named_device_is_found(answers: Seq<(UsbmuxdDevice, AnswerModel)>, i: int)
    requires
        0 <= i < answers.len(),
        answers[i].1 is Named,
    ensures
        ({
            let name = answers[i].1->Named_0;
            let devices = name_map::collected(discovery::named(answers));
            &&& name_map::lookup(devices, name) is Some
            &&& (forall|j: int|
                i < j < answers.len() ==> (#[trigger] answers[j]).1 != AnswerModel::Named(name))
                ==> name_map::lookup(devices, name) == Some(answers[i].0)
        }),
    decreases answers.len(),
{
    let name = answers[i].1->Named_0;
    let pairs = discovery::named(answers);
    name_map::lookup_in_collected(pairs, name);
    let init = answers.drop_last();
    let before = discovery::named(init);
    if i < answers.len() - 1 {
        every_named_device_is_found(init, i);
        name_map::lookup_in_collected(before, name);
        name_map::lemma_place(before, name);
        name_map::lemma_place(pairs, name);
        if answers.last().1 is Named {
            assert(pairs.drop_last() =~= before);
        }
        if forall|j: int|
            i < j < answers.len() ==> (#[trigger] answers[j]).1 != AnswerModel::Named(name) {
            assert forall|j: int| i < j < init.len() implies (#[trigger] init[j]).1
                != AnswerModel::Named(name) by {
                assert(answers[j] == init[j]);
            }
            assert(answers.last() == answers[answers.len() - 1]);
        }
    } else {
        assert(pairs.last() == (name, answers[i].0));
    }
}

/// Law: an app is shown by its display name, or else by the identifier that it gives, or else by
/// the one under which it is installed.
pub proof fn apps_are_shown_by_the_best_name(infos: Seq<AppInfo>, i: int)
    requires
        0 <= i < infos.len(),
    ensures
        discovery::shown_apps(infos).len() == infos.len(),
        discovery::shown_apps(infos)[i].1 == infos[i].bundle_id,
        infos[i].display matches Some(name) ==> discovery::shown_apps(infos)[i].0 == name@,
        infos[i].display is None && infos[i].identifier is Some ==> discovery::shown_apps(infos)[i].0
            == infos[i].identifier->Some_0@,
        infos[i].display is None && infos[i].identifier is None ==> discovery::shown_apps(infos)[i].0
            == infos[i].bundle_id@,
{
}

/// Law: the names of an app are the texts under `CFBundleDisplayName` and `CFBundleIdentifier`.
pub proof fn apps_name_themselves(infos: Seq<(String, plist::Value)>, i: int)
    requires
        0 <= i < infos.len(),
    ensures
        ({
            let known = outside::string_entries(infos[i].1);
            let shown = discovery::apps_of(infos)[i];
            &&& discovery::apps_of(infos).len() == infos.len()
            &&& shown.1 == infos[i].0
            &&& shown.0 == if known.contains_key("CFBundleDisplayName"@) {
                known["CFBundleDisplayName"@]
            } else if known.contains_key("CFBundleIdentifier"@) {
                known["CFBundleIdentifier"@]
            } else {
                infos[i].0@
            }
        }),
{
}

} // verus!
