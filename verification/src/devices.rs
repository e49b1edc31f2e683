//! The devices that adb lists, and which of them is the head unit.

use vstd::prelude::*;

use crate::session::{
    failure, halt_of, run_output, session_is_live, AdbTarget, Halt, Session, Talk, TargetView,
};
use crate::text::{
    begins, chars_of, concat3, copies, has_text, includes, includes_char, lines, lower, lowered,
    owned, rows, same, slice, spaced, split_lines, split_words, starts_with, strs, text_of, texts,
    trim, trimmed, underscores_to_spaces, words,
};

verus! {

broadcast use session_is_live;

/// A device as `adb devices -l` lists it.
#[derive(Debug)]
pub struct ListedDevice {
    pub serial: String,
    pub state: String,
    pub model: Option<String>,
    pub product: Option<String>,
    pub usb: bool,
}

/// The value of a [`ListedDevice`].
pub struct DeviceView {
    pub serial: Seq<char>,
    pub state: Seq<char>,
    pub model: Option<Seq<char>>,
    pub product: Option<Seq<char>>,
    pub usb: bool,
}

/// A text that may be missing, as its value.
pub open spec fn maybe_text(s: Option<String>) -> Option<Seq<char>> {
    match s {
        Some(s) => Some(s@),
        None => None,
    }
}

impl View for ListedDevice {
    type V = DeviceView;

    open spec fn view(&self) -> DeviceView {
        DeviceView {
            serial: self.serial@,
            state: self.state@,
            model: maybe_text(self.model),
            product: maybe_text(self.product),
            usb: self.usb,
        }
    }
}

/// The values of a list of devices.
pub open spec fn device_views(v: Seq<ListedDevice>) -> Seq<DeviceView> {
    v.map_values(|d: ListedDevice| d@)
}

/// The values of a list of references to devices.
pub open spec fn device_refs(v: Seq<&ListedDevice>) -> Seq<DeviceView> {
    v.map_values(|d: &ListedDevice| d@)
}

/// What follows `key` in the last of the parts that begin with it.
pub open spec fn attribute(parts: Seq<Seq<char>>, key: Seq<char>) -> Option<Seq<char>>
    decreases parts.len(),
{
    if parts.len() == 0 {
        None
    } else if starts_with(parts.last(), key) {
        Some(parts.last().skip(key.len() as int))
    } else {
        attribute(parts.drop_last(), key)
    }
}

/// Whether a line, without the white space around it, tells of a device.
pub open spec fn is_device_line(line: Seq<char>) -> bool {
    &&& line.len() > 0
    &&& !starts_with(line, "List of devices"@)
    &&& words(line).len() >= 2
}

/// The device that a line tells of: its serial number, its state, its attributes. It is on USB if
/// the line says so, or if its serial number is no network address.
pub open spec fn listed_device(line: Seq<char>) -> DeviceView {
    let parts = words(line).skip(2);
    DeviceView {
        serial: words(line)[0],
        state: words(line)[1],
        model: match attribute(parts, "model:"@) {
            Some(model) => Some(underscores_to_spaces(model)),
            None => None,
        },
        product: attribute(parts, "product:"@),
        usb: attribute(parts, "usb:"@) is Some || !words(line)[0].contains(':'),
    }
}

/// The lines of a text, without the white space around them, that tell of a device.
pub open spec fn device_lines(text: Seq<char>) -> Seq<Seq<char>> {
    lines(text).map_values(|line: Seq<char>| trim(line)).filter(
        |line: Seq<char>| is_device_line(line),
    )
}

/// The devices that the output of `adb devices -l` lists.
pub open spec fn listed_devices(text: Seq<char>) -> Seq<DeviceView> {
    device_lines(text).map_values(|line: Seq<char>| listed_device(line))
}

/// What follows `key` in the last of the parts, from the third on, that begin with it.
fn find_attribute(parts: &Vec<Vec<char>>, key: &str) -> (r: Option<Vec<char>>)
    requires
        parts.len() >= 2,
    ensures
        match r {
            Some(v) => attribute(rows(parts@).skip(2), key@) == Some(v@),
            None => attribute(rows(parts@).skip(2), key@) is None,
        },
{
    let start = chars_of(key);
    let mut i: usize = parts.len();
    let ghost all = rows(parts@).skip(2);
    assert(all.take(i - 2) =~= all);
    while i > 2
        invariant
            2 <= i <= parts.len(),
            start@ == key@,
            all == rows(parts@).skip(2),
            attribute(all, key@) == attribute(all.take(i - 2), key@),
        decreases i,
    {
        i = i - 1;
        assert(all.take(i - 1).last() == parts@[i as int]@);
        assert(all.take(i - 1).drop_last() =~= all.take(i - 2));
        if begins(&parts[i], &start) {
            let value = slice(&parts[i], start.len(), parts[i].len());
            assert(value@ =~= parts@[i as int]@.skip(start@.len() as int));
            return Some(value);
        }
    }
    None
}

/// The device that a line tells of, given the line and its words.
fn read_device(line: &Vec<char>, parts: &Vec<Vec<char>>) -> (r: ListedDevice)
    requires
        rows(parts@) == words(line@),
        parts.len() >= 2,
    ensures
        r@ == listed_device(line@),
{
    let model = match find_attribute(parts, "model:") {
        Some(model) => Some(text_of(&spaced(&model))),
        None => None,
    };
    let product = match find_attribute(parts, "product:") {
        Some(product) => Some(text_of(&product)),
        None => None,
    };
    let usb: bool = find_attribute(parts, "usb:").is_some() || !includes_char(&parts[0], ':');
    assert(words(line@)[0] == parts@[0]@ && words(line@)[1] == parts@[1]@);
    ListedDevice { serial: text_of(&parts[0]), state: text_of(&parts[1]), model, product, usb }
}

/// Reads the devices from the output of `adb devices -l`.
pub fn parse_devices(text: &str) -> (r: Vec<ListedDevice>)
    ensures
        device_views(r@) == listed_devices(text@),
{
    let all = split_lines(&chars_of(text));
    let header = chars_of("List of devices");
    let mut devices: Vec<ListedDevice> = Vec::new();
    let ghost lines_trimmed = lines(text@).map_values(|line: Seq<char>| trim(line));
    let ghost keep = |line: Seq<char>| is_device_line(line);
    let ghost make = |line: Seq<char>| listed_device(line);
    let mut i: usize = 0;
    proof {
        reveal(Seq::filter);
        assert(device_views(devices@) =~= lines_trimmed.take(0).filter(keep).map_values(make));
    }
    while i < all.len()
        invariant
            i <= all.len(),
            header@ == "List of devices"@,
            rows(all@) == lines(text@),
            lines_trimmed == lines(text@).map_values(|line: Seq<char>| trim(line)),
            keep == (|line: Seq<char>| is_device_line(line)),
            make == (|line: Seq<char>| listed_device(line)),
            device_views(devices@) == lines_trimmed.take(i as int).filter(keep).map_values(make),
        decreases all.len() - i,
    {
        reveal(Seq::filter);
        let ghost before = device_views(devices@);
        let line = trimmed(&all[i]);
        assert(rows(all@)[i as int] == all@[i as int]@);
        assert(lines_trimmed.take(i + 1).drop_last() =~= lines_trimmed.take(i as int));
        assert(lines_trimmed.take(i + 1).last() == line@);
        if line.len() > 0 && !begins(&line, &header) {
            let parts = split_words(&line);
            assert(words(line@).len() == parts@.len());
            if parts.len() >= 2 {
                let device = read_device(&line, &parts);
                devices.push(device);
                assert(device_views(devices@) =~= before.push(device@));
                let ghost kept = lines_trimmed.take(i as int).filter(keep);
                assert(kept.push(line@).map_values(make) =~= kept.map_values(make).push(
                    make(line@),
                ));
            }
        }
        i = i + 1;
    }
    assert(lines_trimmed.take(all@.len() as int) =~= lines_trimmed);
    devices
}

/// A digit, or a letter from A to F in either case.
pub open spec fn is_hex_digit(c: char) -> bool {
    '0' <= c <= '9' || 'a' <= c <= 'f' || 'A' <= c <= 'F'
}

/// Whether a serial number is one that a USB device has: six to sixteen hexadecimal digits.
pub open spec fn is_hex_serial(serial: Seq<char>) -> bool {
    &&& 6 <= serial.len() <= 16
    &&& forall|i: int| 0 <= i < serial.len() ==> is_hex_digit(#[trigger] serial[i])
}

/// Whether a serial number is one that a USB device has: six to sixteen hexadecimal digits.
pub fn is_truncated_hex_serial(serial: &str) -> (r: bool)
    ensures
        r == is_hex_serial(serial@),
{
    let digits = chars_of(serial);
    if digits.len() < 6 || digits.len() > 16 {
        return false;
    }
    let mut i: usize = 0;
    while i < digits.len()
        invariant
            i <= digits.len(),
            digits@ == serial@,
            forall|k: int| 0 <= k < i ==> is_hex_digit(#[trigger] serial@[k]),
        decreases digits.len() - i,
    {
        let c: char = digits[i];
        if !(('0' <= c && c <= '9') || ('a' <= c && c <= 'f') || ('A' <= c && c <= 'F')) {
            assert(!is_hex_digit(serial@[i as int]));
            return false;
        }
        i = i + 1;
    }
    true
}

/// A text that may be missing, the empty one in its place, in lower case.
pub open spec fn lower_or_empty(s: Option<Seq<char>>) -> Seq<char> {
    match s {
        Some(s) => lower(s),
        None => seq![],
    }
}

/// Whether a device names the maker of the head units.
pub open spec fn is_desaysv(d: DeviceView) -> bool {
    has_text(lower_or_empty(d.model), "desaysv"@) || has_text(lower_or_empty(d.product), "desay"@)
}

/// How much a device looks like a head unit.
pub open spec fn score(d: DeviceView) -> int {
    let product = lower_or_empty(d.product);
    (if is_desaysv(d) {
        100int
    } else {
        0
    }) + (if has_text(product, "g7ph"@) || has_text(product, "t22"@) {
        40int
    } else {
        0
    }) + (if d.usb {
        30int
    } else {
        0
    }) + (if is_hex_serial(d.serial) {
        20int
    } else {
        0
    }) - (if d.serial.contains(':') {
        50int
    } else {
        0
    })
}

/// A text that may be missing, the empty one in its place, in lower case.
fn lowered_or_empty(s: &Option<String>) -> (r: Vec<char>)
    ensures
        r@ == lower_or_empty(maybe_text(*s)),
{
    match s {
        Some(s) => lowered(&chars_of(s.as_str())),
        None => Vec::new(),
    }
}

/// How much a device looks like a head unit.
pub fn head_unit_score(device: &ListedDevice) -> (r: i32)
    ensures
        r == score(device@),
{
    let mut points: i32 = 0;
    let model = lowered_or_empty(&device.model);
    let product = lowered_or_empty(&device.product);
    if includes(&model, &chars_of("desaysv")) || includes(&product, &chars_of("desay")) {
        points = points + 100;
    }
    if includes(&product, &chars_of("g7ph")) || includes(&product, &chars_of("t22")) {
        points = points + 40;
    }
    if device.usb {
        points = points + 30;
    }
    if is_truncated_hex_serial(device.serial.as_str()) {
        points = points + 20;
    }
    if includes_char(&chars_of(device.serial.as_str()), ':') {
        points = points - 50;
    }
    points
}

/// Whether a device is on USB, by what adb says of it or by its serial number.
pub open spec fn is_wired(d: DeviceView) -> bool {
    d.usb || is_hex_serial(d.serial)
}

/// Whether a device comes into question: one on USB does, and any does where none is on USB.
pub open spec fn in_question(devices: Seq<DeviceView>, d: DeviceView) -> bool {
    is_wired(d) || forall|k: int| 0 <= k < devices.len() ==> !is_wired(#[trigger] devices[k])
}

/// Whether device `k` is the choice: of those that come into question it has the highest score,
/// and it is the last of those that have.
pub open spec fn is_choice(devices: Seq<DeviceView>, k: int) -> bool {
    &&& 0 <= k < devices.len()
    &&& in_question(devices, devices[k])
    &&& forall|j: int|
        0 <= j < devices.len() && in_question(devices, #[trigger] devices[j]) ==> {
            &&& score(devices[j]) <= score(devices[k])
            &&& j > k ==> score(devices[j]) < score(devices[k])
        }
}

/// The choice among the given devices.
pub open spec fn choice(devices: Seq<DeviceView>) -> int {
    choose|k: int| is_choice(devices, k)
}

/// There is at most one choice.
pub proof fn lemma_choice_unique(devices: Seq<DeviceView>, a: int, b: int)
    requires
        is_choice(devices, a),
        is_choice(devices, b),
    ensures
        a == b,
{
    assert(in_question(devices, devices[a]) && in_question(devices, devices[b]));
}

/// Chooses the head unit among the given devices, and prefers one on USB to the others.
pub fn select_head_unit<'a>(devices: &[&'a ListedDevice]) -> (r: Option<&'a ListedDevice>)
    ensures
        r is None <==> devices@.len() == 0,
        r matches Some(d) ==> is_choice(device_refs(devices@), choice(device_refs(devices@))) && d
            == devices@[choice(device_refs(devices@))],
{
    let ghost views = device_refs(devices@);
    let mut wired: bool = false;
    let mut i: usize = 0;
    while i < devices.len()
        invariant
            i <= devices.len(),
            views == device_refs(devices@),
            wired == exists|k: int| 0 <= k < i && is_wired(#[trigger] views[k]),
        decreases devices.len() - i,
    {
        assert(views[i as int] == devices@[i as int]@);
        if devices[i].usb || is_truncated_hex_serial(devices[i].serial.as_str()) {
            wired = true;
        }
        i = i + 1;
    }
    let mut best: Option<usize> = None;
    let mut best_score: i32 = 0;
    let mut j: usize = 0;
    while j < devices.len()
        invariant
            j <= devices.len(),
            views == device_refs(devices@),
            wired == exists|k: int| 0 <= k < views.len() && is_wired(#[trigger] views[k]),
            best is None ==> forall|k: int|
                0 <= k < j ==> !in_question(views, #[trigger] views[k]),
            best matches Some(b) ==> {
                &&& b < j
                &&& in_question(views, views[b as int])
                &&& best_score == score(views[b as int])
                &&& forall|k: int|
                    0 <= k < j && in_question(views, #[trigger] views[k]) ==> {
                        &&& score(views[k]) <= best_score
                        &&& k > b ==> score(views[k]) < best_score
                    }
            },
        decreases devices.len() - j,
    {
        assert(views[j as int] == devices@[j as int]@);
        let comes: bool = !wired || devices[j].usb || is_truncated_hex_serial(
            devices[j].serial.as_str(),
        );
        assert(comes == in_question(views, views[j as int]));
        if comes {
            let points = head_unit_score(devices[j]);
            let better: bool = match best {
                Some(_) => points >= best_score,
                None => true,
            };
            if better {
                best = Some(j);
                best_score = points;
            }
        }
        j = j + 1;
    }
    match best {
        Some(b) => {
            proof {
                assert(is_choice(views, b as int));
                lemma_choice_unique(views, b as int, choice(views));
            }
            Some(devices[b])
        },
        None => {
            proof {
                if views.len() > 0 {
                    assert(!in_question(views, views[0]));
                    if wired {
                        let k = choose|k: int| 0 <= k < views.len() && is_wired(#[trigger] views[k]);
                        assert(in_question(views, views[k]));
                    }
                }
            }
            None
        },
    }
}

/// The arguments that make adb list the devices.
pub open spec fn devices_args() -> Seq<Seq<char>> {
    seq!["devices"@, "-l"@]
}

/// The devices that are ready for commands.
pub open spec fn online(devices: Seq<DeviceView>) -> Seq<DeviceView> {
    devices.filter(|d: DeviceView| d.state == "device"@)
}

impl Talk {
    /// Asks adb for the devices.
    pub open spec fn list_adb_devices(self, path: Seq<Seq<char>>) -> (Talk, Seq<DeviceView>) {
        let (t, out) = self.run_output(path, devices_args());
        if t.halt is None && !out.success {
            (
                t.fail("Не удалось получить список ADB-устройств: "@ + out.stdout + out.stderr),
                seq![],
            )
        } else {
            (t, listed_devices(out.stdout))
        }
    }

    /// Asks adb for the devices and chooses the head unit.
    pub open spec fn resolve_head_unit(self, path: Seq<Seq<char>>) -> (Talk, TargetView) {
        let (t, devices) = self.list_adb_devices(path);
        let ready = online(devices);
        (
            if ready.len() == 0 {
                t.fail("ADB-устройство не подключено или не авторизовано"@)
            } else {
                t
            },
            TargetView { path, serial: ready[choice(ready)].serial },
        )
    }
}

/// Asks adb for the devices.
pub fn list_adb_devices(adb_path: &Vec<String>, session: &mut Session) -> (r: Result<
    Vec<ListedDevice>,
    Halt,
>)
    ensures
        old(session)@.list_adb_devices(texts(adb_path@)).0 == final(session)@.with(halt_of(r)),
        r matches Ok(devices) ==> device_views(devices@) == old(session)@.list_adb_devices(
            texts(adb_path@),
        ).1,
{
    let args = ["devices", "-l"];
    assert(strs(args@) =~= devices_args());
    let out = run_output(adb_path, owned(&args), session)?;
    if !out.success {
        return Err(
            failure(
                concat3(
                    "Не удалось получить список ADB-устройств: ",
                    out.stdout.as_str(),
                    out.stderr.as_str(),
                ).as_str(),
            ),
        );
    }
    Ok(parse_devices(out.stdout.as_str()))
}

/// Asks adb for the devices and chooses the head unit.
pub fn resolve_head_unit(adb_path: &Vec<String>, session: &mut Session) -> (r: Result<
    AdbTarget,
    Halt,
>)
    ensures
        old(session)@.resolve_head_unit(texts(adb_path@)).0 == final(session)@.with(halt_of(r)),
        r matches Ok(target) ==> target@ == old(session)@.resolve_head_unit(texts(adb_path@)).1,
{
    let devices = list_adb_devices(adb_path, session)?;
    let ready_state = chars_of("device");
    let mut ready: Vec<&ListedDevice> = Vec::new();
    let mut i: usize = 0;
    let ghost keep = |d: DeviceView| d.state == "device"@;
    let ghost views = device_views(devices@);
    proof {
        reveal(Seq::filter);
        assert(device_refs(ready@) =~= views.take(0).filter(keep));
    }
    while i < devices.len()
        invariant
            i <= devices.len(),
            ready_state@ == "device"@,
            keep == (|d: DeviceView| d.state == "device"@),
            views == device_views(devices@),
            device_refs(ready@) == views.take(i as int).filter(keep),
        decreases devices.len() - i,
    {
        reveal(Seq::filter);
        let ghost before = device_refs(ready@);
        assert(views.take(i + 1).drop_last() =~= views.take(i as int));
        assert(views.take(i + 1).last() == devices@[i as int]@);
        if same(&chars_of(devices[i].state.as_str()), &ready_state) {
            ready.push(&devices[i]);
            assert(device_refs(ready@) =~= before.push(devices@[i as int]@));
        }
        i = i + 1;
    }
    assert(views.take(devices@.len() as int) =~= views);
    if ready.len() == 0 {
        return Err(failure("ADB-устройство не подключено или не авторизовано"));
    }
    match select_head_unit(ready.as_slice()) {
        Some(selected) => Ok(
            AdbTarget { path: copies(adb_path), serial: selected.serial.clone() },
        ),
        None => Err(failure("ГУ не найдено среди подключенных ADB-устройств")),
    }
}

/// Asks adb for the devices and chooses the head unit.
pub fn ensure_device(adb_path: &Vec<String>, session: &mut Session) -> (r: Result<AdbTarget, Halt>)
    ensures
        old(session)@.resolve_head_unit(texts(adb_path@)).0 == final(session)@.with(halt_of(r)),
        r matches Ok(target) ==> target@ == old(session)@.resolve_head_unit(texts(adb_path@)).1,
{
    resolve_head_unit(adb_path, session)
}

/// Whether device `k` is the choice as far as the first `n` devices go.
spec fn leads(devices: Seq<DeviceView>, n: int, k: int) -> bool {
    &&& 0 <= k < n
    &&& in_question(devices, devices[k])
    &&& forall|j: int|
        0 <= j < n && in_question(devices, #[trigger] devices[j]) ==> {
            &&& score(devices[j]) <= score(devices[k])
            &&& j > k ==> score(devices[j]) < score(devices[k])
        }
}

proof fn one_leads(devices: Seq<DeviceView>, n: int, i: int)
    requires
        0 <= i < n <= devices.len(),
        in_question(devices, devices[i]),
    ensures
        exists|k: int| leads(devices, n, k),
    decreases n,
{
    let last = n - 1;
    if exists|j: int| 0 <= j < last && in_question(devices, #[trigger] devices[j]) {
        let j = choose|j: int| 0 <= j < last && in_question(devices, #[trigger] devices[j]);
        one_leads(devices, last, j);
        let k = choose|k: int| leads(devices, last, k);
        if in_question(devices, devices[last]) && score(devices[last]) >= score(devices[k]) {
            assert(leads(devices, n, last));
        } else {
            assert(leads(devices, n, k));
        }
    } else {
        assert(leads(devices, n, last));
    }
}

/// Where there is a device, there is a choice, and a device on USB is never passed over for one
/// that is not.
pub proof fn choice_prefers_usb(devices: Seq<DeviceView>)
    requires
        devices.len() > 0,
    ensures
        is_choice(devices, choice(devices)),
        (exists|k: int| 0 <= k < devices.len() && is_wired(#[trigger] devices[k])) ==> is_wired(
            devices[choice(devices)],
        ),
{
    let i = if exists|k: int| 0 <= k < devices.len() && is_wired(#[trigger] devices[k]) {
        choose|k: int| 0 <= k < devices.len() && is_wired(#[trigger] devices[k])
    } else {
        0
    };
    assert(in_question(devices, devices[i]));
    one_leads(devices, devices.len() as int, i);
    let k = choose|k: int| leads(devices, devices.len() as int, k);
    assert(is_choice(devices, k));
}

/// A head unit that is found is a device of the list that is ready for commands.
pub proof fn head_unit_is_ready(t: Talk, path: Seq<Seq<char>>)
    requires
        t.halt is None,
        t.resolve_head_unit(path).0.halt is None,
    ensures
        exists|d: DeviceView| #[trigger]
            t.list_adb_devices(path).1.contains(d) && d.state == "device"@ && d.serial
                == t.resolve_head_unit(path).1.serial,
{
    let devices = t.list_adb_devices(path).1;
    let ready = online(devices);
    choice_prefers_usb(ready);
    let is_ready = |d: DeviceView| d.state == "device"@;
    devices.lemma_filter_pred(is_ready, choice(ready));
    devices.lemma_filter_contains_rev(is_ready, ready[choice(ready)]);
}

/// A DesaySV head unit on USB is not passed over for a device of another make, be it on USB too.
pub proof fn choice_prefers_desaysv(devices: Seq<DeviceView>, k: int)
    requires
        0 <= k < devices.len(),
        is_desaysv(devices[k]),
        devices[k].usb,
        !devices[k].serial.contains(':'),
    ensures
        is_desaysv(devices[choice(devices)]),
{
    choice_prefers_usb(devices);
    assert(in_question(devices, devices[k]));
}

}
