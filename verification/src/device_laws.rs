//! Which devices are listed and which one is chosen, told by what adb prints of them.

use vstd::prelude::*;

use crate::devices::{
    attribute, choice, choice_prefers_usb, device_lines, in_question, is_device_line, is_hex_serial,
    is_wired, listed_device, listed_devices, online, score, DeviceView,
};
use crate::text::{
    has_text, is_white, lines, lower, starts_with, trim, underscores_to_spaces, words,
    words_of_two_texts,
};
use crate::text_laws::{
    beginnings_and_ends, first_line_ends_at_feed, is_blank, part_splits, part_stands_anywhere,
    text_without_feed_is_one_line,
};

verus! {

/// Whether a part stands in a text.
pub open spec fn has_part(s: Seq<char>, part: Seq<char>) -> bool {
    exists|a: Seq<char>, b: Seq<char>| s == #[trigger] (a + part + b)
}

pub(crate) proof fn part_is_text(s: Seq<char>, part: Seq<char>)
    ensures
        has_text(s, part) <==> has_part(s, part),
{
    if has_text(s, part) {
        let (a, b) = part_splits(s, part);
        assert(s == a + part + b);
    }
    if has_part(s, part) {
        let (a, b) = choose|a: Seq<char>, b: Seq<char>| s == #[trigger] (a + part + b);
        part_stands_anywhere(a, part, b);
    }
}

/// Whether a serial number is one that a USB device has: six to sixteen hexadecimal digits.
pub open spec fn has_usb_serial(d: DeviceView) -> bool {
    &&& 6 <= d.serial.len() <= 16
    &&& forall|i: int|
        0 <= i < d.serial.len() ==> {
            ||| '0' <= #[trigger] d.serial[i] <= '9'
            ||| 'a' <= d.serial[i] <= 'f'
            ||| 'A' <= d.serial[i] <= 'F'
        }
}

/// A text that may be missing, with its ASCII letters in lower case.
pub open spec fn lower_text(s: Option<Seq<char>>) -> Seq<char> {
    match s {
        Some(s) => lower(s),
        None => seq![],
    }
}

/// What adds to the score of a device and what takes from it: the names that it bears, wherever they
/// stand, how it is connected, and what its serial number looks like.
pub proof fn score_adds_up(d: DeviceView)
    ensures
        ({
            let (model, product) = (lower_text(d.model), lower_text(d.product));
            score(d) == (if has_part(model, "desaysv"@) || has_part(product, "desay"@) {
                100int
            } else {
                0
            }) + (if has_part(product, "g7ph"@) || has_part(product, "t22"@) {
                40int
            } else {
                0
            }) + (if d.usb {
                30int
            } else {
                0
            }) + (if has_usb_serial(d) {
                20int
            } else {
                0
            }) + (if d.serial.contains(':') {
                -50int
            } else {
                0
            })
        }),
{
    let (model, product) = (lower_text(d.model), lower_text(d.product));
    part_is_text(model, "desaysv"@);
    part_is_text(product, "desay"@);
    part_is_text(product, "g7ph"@);
    part_is_text(product, "t22"@);
    hex_serials_are(d);
}

proof fn hex_serials_are(d: DeviceView)
    ensures
        is_hex_serial(d.serial) <==> has_usb_serial(d),
{
}

/// The choice has the highest score of the devices on USB, or of all if none is on USB, and is the
/// last of those that have it.
pub proof fn choice_is_the_last_best(devices: Seq<DeviceView>, j: int)
    requires
        0 <= j < devices.len(),
    ensures
        ({
            let k = choice(devices);
            &&& 0 <= k < devices.len()
            &&& devices[j].usb || has_usb_serial(devices[j]) ==> {
                &&& devices[k].usb || has_usb_serial(devices[k])
                &&& score(devices[j]) <= score(devices[k])
                &&& j > k ==> score(devices[j]) < score(devices[k])
            }
            &&& !(devices[k].usb || has_usb_serial(devices[k])) ==> {
                &&& score(devices[j]) <= score(devices[k])
                &&& j > k ==> score(devices[j]) < score(devices[k])
            }
        }),
{
    choice_prefers_usb(devices);
    let k = choice(devices);
    hex_serials_are(devices[j]);
    hex_serials_are(devices[k]);
    assert(is_wired(devices[j]) ==> in_question(devices, devices[j]));
    if !is_wired(devices[k]) {
        assert(in_question(devices, devices[k]));
        assert(in_question(devices, devices[j]));
    }
}

/// The devices that are ready for commands are those whose state is `device`, in their order.
pub proof fn ready_devices_are(devices: Seq<DeviceView>, last: DeviceView)
    ensures
        online(devices.push(last)) == if last.state == "device"@ {
            online(devices).push(last)
        } else {
            online(devices)
        },
        online(Seq::empty()) == Seq::<DeviceView>::empty(),
{
    reveal(Seq::filter);
    assert(devices.push(last).drop_last() =~= devices);
}

proof fn blank_adds_no_words(l: Seq<char>, s: Seq<char>)
    requires
        is_blank(l),
    ensures
        words(l + s) == words(s),
        words(s + l) == words(s),
    decreases l.len(),
{
    if l.len() > 0 {
        assert((l + s).skip(1) =~= l.skip(1) + s);
        assert((l + s)[0] == l[0]);
        assert(s + l =~= s.push(l[0]) + l.skip(1));
        words_of_two_texts(s, l[0], l.skip(1));
        blank_adds_no_words(l.skip(1), s);
        blank_adds_no_words(l.skip(1), Seq::empty());
        assert(l.skip(1) + Seq::<char>::empty() =~= l.skip(1));
        assert(words(l.skip(1)) == words(Seq::<char>::empty()));
        assert(words(s) + Seq::<Seq<char>>::empty() =~= words(s));
    } else {
        assert(l + s =~= s);
        assert(s + l =~= s);
    }
}

proof fn trimmed_words(s: Seq<char>)
    ensures
        words(trim(s)) == words(s),
    decreases s.len(),
{
    if s.len() > 0 && is_white(s[0]) {
        trimmed_words(s.skip(1));
        assert(trim(s) == trim(s.skip(1)));
    } else if s.len() > 0 && is_white(s.last()) {
        trimmed_words(s.drop_last());
        assert(trim(s) == trim(s.drop_last()));
        let l = seq![s.last()];
        assert(s =~= s.drop_last() + l);
        blank_adds_no_words(l, s.drop_last());
    }
}

/// The value of the last part that begins with a key is the value of the key.
proof fn last_attribute_counts(parts: Seq<Seq<char>>, key: Seq<char>, k: int)
    requires
        -1 <= k < parts.len(),
        k >= 0 ==> starts_with(parts[k], key),
        forall|j: int| k < j < parts.len() ==> !starts_with(#[trigger] parts[j], key),
    ensures
        attribute(parts, key) == if k >= 0 {
            Some(parts[k].skip(key.len() as int))
        } else {
            None
        },
    decreases parts.len(),
{
    if parts.len() > 0 {
        if k < parts.len() - 1 {
            assert forall|j: int| k < j < parts.drop_last().len() implies !starts_with(
                #[trigger] parts.drop_last()[j],
                key,
            ) by {
                assert(parts.drop_last()[j] == parts[j]);
            }
            if k >= 0 {
                assert(parts.drop_last()[k] == parts[k]);
            }
            assert(!starts_with(parts[parts.len() - 1], key));
            last_attribute_counts(parts.drop_last(), key, k);
        }
    }
}

/// Whether word `k` of a line is the last of those behind its first two words that begin with a key;
/// with -1 for `k`, whether none of them does.
pub open spec fn is_last_with(all: Seq<Seq<char>>, key: Seq<char>, k: int) -> bool {
    &&& k == -1 || (2 <= k < all.len() && starts_with(all[k], key))
    &&& forall|j: int| 2 <= j && k < j < all.len() ==> !starts_with(#[trigger] all[j], key)
}

proof fn last_word_counts(all: Seq<Seq<char>>, key: Seq<char>, k: int)
    requires
        all.len() >= 2,
        is_last_with(all, key, k),
    ensures
        attribute(all.skip(2), key) == if k >= 0 {
            Some(all[k].skip(key.len() as int))
        } else {
            None
        },
{
    let parts = all.skip(2);
    let at = if k >= 0 {
        k - 2
    } else {
        -1
    };
    assert forall|j: int| at < j < parts.len() implies !starts_with(#[trigger] parts[j], key) by {
        assert(parts[j] == all[j + 2]);
    }
    if k >= 0 {
        assert(parts[at] == all[k]);
    }
    last_attribute_counts(parts, key, at);
}

/// A line of two words or more, unless it is the heading, lists a device ahead of those of the other
/// lines: its serial number and state are the first two words. The words behind them that begin with
/// `model:` and `product:` name the model and the product, the last of each. It is on USB if such a
/// word begins with `usb:`, or if its serial number has no colon.
pub proof fn device_line_lists_the_device(
    line: Seq<char>,
    rest: Seq<char>,
    model: int,
    product: int,
    usb: int,
)
    requires
        !line.contains('\n'),
        line.len() == 0 || line.last() != '\r',
        words(line).len() >= 2,
        !starts_with(trim(line), "List of devices"@),
        is_last_with(words(line), "model:"@, model),
        is_last_with(words(line), "product:"@, product),
        is_last_with(words(line), "usb:"@, usb),
    ensures
        listed_devices(line.push('\n') + rest) == seq![
            DeviceView {
                serial: words(line)[0],
                state: words(line)[1],
                model: if model >= 0 {
                    Some(underscores_to_spaces(words(line)[model].skip("model:"@.len() as int)))
                } else {
                    None
                },
                product: if product >= 0 {
                    Some(words(line)[product].skip("product:"@.len() as int))
                } else {
                    None
                },
                usb: usb >= 0 || !words(line)[0].contains(':'),
            },
        ] + listed_devices(rest),
{
    let all = words(line);
    trimmed_words(line);
    last_word_counts(all, "model:"@, model);
    last_word_counts(all, "product:"@, product);
    last_word_counts(all, "usb:"@, usb);
    first_line_ends_at_feed(line, rest);
    assert(trim(line).len() > 0) by {
        if trim(line).len() == 0 {
            assert(words(trim(line)) == Seq::<Seq<char>>::empty());
        }
    }
    one_more_line(line, lines(rest));
    let made = |line: Seq<char>| listed_device(line);
    assert((seq![trim(line)] + device_lines(rest)).map_values(made) =~= seq![
        listed_device(trim(line)),
    ] + listed_devices(rest));
}

proof fn one_more_line(line: Seq<char>, others: Seq<Seq<char>>)
    ensures
        ({
            let cut = |line: Seq<char>| trim(line);
            let keep = |line: Seq<char>| is_device_line(line);
            (seq![line] + others).map_values(cut).filter(keep) == (if is_device_line(trim(line)) {
                seq![trim(line)]
            } else {
                seq![]
            }) + others.map_values(cut).filter(keep)
        }),
{
    reveal(Seq::filter);
    let cut = |line: Seq<char>| trim(line);
    let keep = |line: Seq<char>| is_device_line(line);
    let one = seq![trim(line)];
    assert((seq![line] + others).map_values(cut) =~= one + others.map_values(cut));
    Seq::filter_distributes_over_add(one, others.map_values(cut), keep);
    assert(one.drop_last() =~= Seq::empty());
    assert(one.last() == trim(line));
    assert(Seq::<Seq<char>>::empty().filter(keep) =~= Seq::empty());
    if is_device_line(trim(line)) {
        assert(one.filter(keep) =~= one);
    } else {
        assert(one.filter(keep) =~= Seq::empty());
    }
}

/// The heading, and a line of fewer than two words, lists no device.
pub proof fn other_lines_list_no_device(line: Seq<char>, more: Seq<char>, rest: Seq<char>)
    requires
        !line.contains('\n'),
        line.len() == 0 || line.last() != '\r',
        words(line).len() < 2 || trim(line) == "List of devices"@ + more,
    ensures
        listed_devices(line.push('\n') + rest) == listed_devices(rest),
{
    trimmed_words(line);
    first_line_ends_at_feed(line, rest);
    beginnings_and_ends("List of devices"@, more, line, line);
    one_more_line(line, lines(rest));
    let keep = |line: Seq<char>| is_device_line(line);
    assert(Seq::<Seq<char>>::empty() + device_lines(rest) =~= device_lines(rest));
}

/// The last line of a list counts as one that a line feed ends.
pub proof fn last_line_needs_no_feed(line: Seq<char>)
    requires
        !line.contains('\n'),
        line.len() > 0 && line.last() != '\r',
    ensures
        listed_devices(line) == listed_devices(line.push('\n')),
{
    text_without_feed_is_one_line(line);
    first_line_ends_at_feed(line, Seq::empty());
    assert(line.push('\n') + Seq::<char>::empty() =~= line.push('\n'));
    assert(seq![line] + Seq::<Seq<char>>::empty() =~= seq![line]);
}

}
