//! Android's binary XML: the package name that a binary `AndroidManifest.xml` declares.
//!
//! Such a file is a header and then chunks, each of which starts with its type (two bytes), the
//! size of its header (two bytes) and its size (four bytes). Numbers are little endian. A string
//! pool chunk holds the strings that the elements name by their index.

use vstd::prelude::*;
use vstd::slice::slice_subrange;
use vstd::utf8::{decode_utf8, valid_utf8};

use crate::decode::{text_from_utf16, text_from_utf8, utf16_lossy, utf8_text};
use crate::error::{ErrorView, InstallerError};
use crate::text::texts;

verus! {

/// The type of a binary XML file.
pub const AXML_FILE: usize = 0x0003;

/// The type of a string pool chunk.
pub const AXML_STRING_POOL: usize = 0x0001;

/// The type of a chunk that opens an element.
pub const AXML_START_ELEMENT: usize = 0x0102;

/// Whether `n` bytes can be read at position `o`.
pub open spec fn fits(d: Seq<u8>, o: int, n: int) -> bool {
    0 <= o && o + n <= d.len()
}

/// The number in the two bytes at position `o`.
pub open spec fn le16(d: Seq<u8>, o: int) -> int {
    d[o] + 0x100 * d[o + 1]
}

/// The number in the four bytes at position `o`.
pub open spec fn le32(d: Seq<u8>, o: int) -> int {
    d[o] + 0x100 * d[o + 1] + 0x1_0000 * d[o + 2] + 0x100_0000 * d[o + 3]
}

/// The position, in a pool entry of UTF-8 at `o`, behind the count of characters. It takes two
/// bytes when the first one has its top bit set.
pub open spec fn after_char_count(d: Seq<u8>, o: int) -> int {
    if d[o] >= 0x80 {
        o + 2
    } else {
        o + 1
    }
}

/// Where the bytes of the pool entry of UTF-8 at `o` stand, and how many they are. The entry is a
/// count of characters, a count of bytes, the bytes; a count takes two bytes when the first one
/// has its top bit set. `None` if the entry runs over the end.
pub open spec fn utf8_span(d: Seq<u8>, o: int) -> Option<(int, int)> {
    let b = after_char_count(d, o);
    if !fits(d, o, 1) || !fits(d, b, 1) {
        None
    } else if d[b] < 0x80 {
        if fits(d, b + 1, d[b] as int) {
            Some((b + 1, d[b] as int))
        } else {
            None
        }
    } else if fits(d, b, 2) && fits(d, b + 2, (d[b] - 0x80) * 0x100 + d[b + 1]) {
        Some((b + 2, (d[b] - 0x80) * 0x100 + d[b + 1]))
    } else {
        None
    }
}

/// Where the units of the pool entry of UTF-16 at `o` stand, and how many they are. The entry is a
/// count of units, the units; the count takes two units, the upper half first, when the first one
/// has its top bit set. `None` if the entry runs over the end.
pub open spec fn utf16_span(d: Seq<u8>, o: int) -> Option<(int, int)> {
    if !fits(d, o, 2) {
        None
    } else if le16(d, o) < 0x8000 {
        if fits(d, o + 2, 2 * le16(d, o)) {
            Some((o + 2, le16(d, o)))
        } else {
            None
        }
    } else {
        let n = (le16(d, o) - 0x8000) * 0x1_0000 + le16(d, o + 2);
        if fits(d, o, 4) && fits(d, o + 4, 2 * n) {
            Some((o + 4, n))
        } else {
            None
        }
    }
}

/// The `n` UTF-16 units at position `o`.
pub open spec fn utf16_units(d: Seq<u8>, o: int, n: int) -> Seq<u16> {
    Seq::new(n as nat, |k: int| le16(d, o + 2 * k) as u16)
}

/// How many strings the pool at `o` holds.
pub open spec fn pool_count(d: Seq<u8>, o: int) -> int {
    le32(d, o + 8)
}

/// Whether the pool at `o` holds UTF-8; it holds UTF-16 otherwise.
pub open spec fn pool_is_utf8(d: Seq<u8>, o: int) -> bool {
    (le32(d, o + 16) / 0x100) % 2 == 1
}

/// Where the pool at `o` says where its string `i` starts.
pub open spec fn pool_slot(d: Seq<u8>, o: int, i: int) -> int {
    o + le16(d, o + 2) + 4 * i
}

/// Where string `i` of the pool at `o` starts.
pub open spec fn pool_entry(d: Seq<u8>, o: int, i: int) -> int {
    o + le32(d, o + 20) + le32(d, pool_slot(d, o, i))
}

/// Where the contents of string `i` of the pool at `o` stand, and how many bytes or units they are.
/// `None` if reading them runs over the end.
pub open spec fn pool_span(d: Seq<u8>, o: int, i: int) -> Option<(int, int)> {
    if !fits(d, pool_slot(d, o, i), 4) {
        None
    } else if pool_is_utf8(d, o) {
        utf8_span(d, pool_entry(d, o, i))
    } else {
        utf16_span(d, pool_entry(d, o, i))
    }
}

/// Whether all strings of the pool at `o` can be read without running over the end.
pub open spec fn pool_readable(d: Seq<u8>, o: int) -> bool {
    &&& fits(d, o, 24)
    &&& forall|i: int| 0 <= i < pool_count(d, o) ==> (#[trigger] pool_span(d, o, i)) is Some
}

/// The bytes of string `i` of the pool of UTF-8 at `o`.
pub open spec fn pool_bytes(d: Seq<u8>, o: int, i: int) -> Seq<u8> {
    let (start, n) = pool_span(d, o, i)->0;
    d.subrange(start, start + n)
}

/// String `i` of the pool at `o`.
pub open spec fn pool_string(d: Seq<u8>, o: int, i: int) -> Seq<char> {
    if pool_is_utf8(d, o) {
        utf8_text(pool_bytes(d, o, i))
    } else {
        let (start, n) = pool_span(d, o, i)->0;
        utf16_lossy(utf16_units(d, start, n))
    }
}

/// The strings of the pool at `o`.
pub open spec fn pool_strings(d: Seq<u8>, o: int) -> Seq<Seq<char>> {
    Seq::new(pool_count(d, o) as nat, |i: int| pool_string(d, o, i))
}

/// Reads a little endian number of two bytes.
pub fn le_u16(data: &[u8], offset: usize) -> (r: usize)
    requires
        fits(data@, offset as int, 2),
    ensures
        r == le16(data@, offset as int),
{
    data[offset] as usize + 0x100 * (data[offset + 1] as usize)
}

/// Reads a little endian number of four bytes.
pub fn le_u32(data: &[u8], offset: usize) -> (r: usize)
    requires
        fits(data@, offset as int, 4),
    ensures
        r == le32(data@, offset as int),
{
    data[offset] as usize + 0x100 * (data[offset + 1] as usize) + 0x1_0000 * (data[offset
        + 2] as usize) + 0x100_0000 * (data[offset + 3] as usize)
}

/// Whether `n` bytes can be read at position `o`.
fn in_bounds(data: &[u8], o: usize, n: usize) -> (r: bool)
    ensures
        r == fits(data@, o as int, n as int),
        data@.len() <= usize::MAX,
{
    o <= data.len() && n <= data.len() - o
}

/// Where the bytes of the pool entry of UTF-8 at `o` stand, and how many they are.
fn find_utf8(data: &[u8], o: usize) -> (r: Option<(usize, usize)>)
    ensures
        match r {
            Some(s) => utf8_span(data@, o as int) == Some((s.0 as int, s.1 as int)),
            None => utf8_span(data@, o as int) is None,
        },
{
    if !in_bounds(data, o, 1) {
        return None;
    }
    let skip: usize = if data[o] >= 0x80 {
        2
    } else {
        1
    };
    if data.len() - o <= skip {
        return None;
    }
    let b: usize = o + skip;
    if data[b] < 0x80 {
        let n: usize = data[b] as usize;
        if in_bounds(data, b + 1, n) {
            Some((b + 1, n))
        } else {
            None
        }
    } else if in_bounds(data, b, 2) {
        let n: usize = (data[b] as usize - 0x80) * 0x100 + data[b + 1] as usize;
        if in_bounds(data, b + 2, n) {
            Some((b + 2, n))
        } else {
            None
        }
    } else {
        None
    }
}

/// Where the units of the pool entry of UTF-16 at `o` stand, and how many they are.
fn find_utf16(data: &[u8], o: usize) -> (r: Option<(usize, usize)>)
    ensures
        match r {
            Some(s) => utf16_span(data@, o as int) == Some((s.0 as int, s.1 as int)),
            None => utf16_span(data@, o as int) is None,
        },
{
    if !in_bounds(data, o, 2) {
        return None;
    }
    let first: usize = le_u16(data, o);
    if first < 0x8000 {
        if in_bounds(data, o + 2, 2 * first) {
            Some((o + 2, first))
        } else {
            None
        }
    } else if in_bounds(data, o, 4) {
        let n: usize = (first - 0x8000) * 0x1_0000 + le_u16(data, o + 2);
        if in_bounds(data, o + 4, 2 * n) {
            Some((o + 4, n))
        } else {
            None
        }
    } else {
        None
    }
}

/// Where the contents of string `i` of the pool at `offset` stand, and how many bytes or units
/// they are.
fn find_string(data: &[u8], offset: usize, i: usize) -> (r: Option<(usize, usize)>)
    requires
        fits(data@, offset as int, 24),
    ensures
        match r {
            Some(s) => pool_span(data@, offset as int, i as int) == Some((s.0 as int, s.1 as int)),
            None => pool_span(data@, offset as int, i as int) is None,
        },
{
    let size: usize = data.len();
    let base: usize = match offset.checked_add(le_u16(data, offset + 2)) {
        Some(base) => base,
        None => { return None; },
    };
    if base > size || i > (size - base) / 4 {
        return None;
    }
    let slot: usize = base + 4 * i;
    if !in_bounds(data, slot, 4) {
        return None;
    }
    let start: usize = match offset.checked_add(le_u32(data, offset + 20)) {
        Some(start) => start,
        None => { return None; },
    };
    let entry: usize = match start.checked_add(le_u32(data, slot)) {
        Some(entry) => entry,
        None => { return None; },
    };
    if (le_u32(data, offset + 16) / 0x100) % 2 == 1 {
        find_utf8(data, entry)
    } else {
        find_utf16(data, entry)
    }
}

/// Whether all strings of the pool at `offset` can be read without running over the end.
fn pool_in_bounds(data: &[u8], offset: usize) -> (r: bool)
    ensures
        r == pool_readable(data@, offset as int),
{
    if !in_bounds(data, offset, 24) {
        return false;
    }
    let count: usize = le_u32(data, offset + 8);
    let mut i: usize = 0;
    while i < count
        invariant
            i <= count,
            fits(data@, offset as int, 24),
            count == pool_count(data@, offset as int),
            forall|k: int| 0 <= k < i ==> (#[trigger] pool_span(data@, offset as int, k)) is Some,
        decreases count - i,
    {
        if find_string(data, offset, i).is_none() {
            assert(pool_span(data@, offset as int, i as int) is None);
            return false;
        }
        i = i + 1;
    }
    true
}

/// Reads the `n` UTF-16 units at position `o`.
fn read_units(data: &[u8], o: usize, n: usize) -> (r: Vec<u16>)
    requires
        fits(data@, o as int, 2 * n),
    ensures
        r@ == utf16_units(data@, o as int, n as int),
{
    let size: usize = data.len();
    let mut units: Vec<u16> = Vec::new();
    let mut k: usize = 0;
    while k < n
        invariant
            k <= n,
            data@.len() == size,
            fits(data@, o as int, 2 * n),
            units@ == utf16_units(data@, o as int, k as int),
        decreases n - k,
    {
        units.push(le_u16(data, o + 2 * k) as u16);
        k = k + 1;
        assert(units@ =~= utf16_units(data@, o as int, k as int));
    }
    units
}

/// Reads the strings of the string pool chunk at `offset`. They are stored in UTF-8 or in UTF-16,
/// each behind its length, which has a variable size.
pub fn axml_strings(data: &[u8], offset: usize) -> (r: Vec<String>)
    requires
        pool_readable(data@, offset as int),
    ensures
        texts(r@) == pool_strings(data@, offset as int),
        pool_is_utf8(data@, offset as int) ==> forall|i: int|
            0 <= i < r@.len() && valid_utf8(pool_bytes(data@, offset as int, i)) ==> (
            #[trigger] r@[i])@ == decode_utf8(pool_bytes(data@, offset as int, i)),
{
    let size: usize = data.len();
    let count: usize = le_u32(data, offset + 8);
    let utf8: bool = (le_u32(data, offset + 16) / 0x100) % 2 == 1;
    let mut strings: Vec<String> = Vec::new();
    let mut i: usize = 0;
    while i < count
        invariant
            i <= count,
            data@.len() == size,
            pool_readable(data@, offset as int),
            count == pool_count(data@, offset as int),
            utf8 == pool_is_utf8(data@, offset as int),
            texts(strings@) == pool_strings(data@, offset as int).take(i as int),
        decreases count - i,
    {
        let ghost before = texts(strings@);
        assert(pool_span(data@, offset as int, i as int) is Some);
        let (start, n) = find_string(data, offset, i).unwrap();
        let text: String = if utf8 {
            text_from_utf8(slice_subrange(data, start, start + n))
        } else {
            let units = read_units(data, start, n);
            text_from_utf16(units.as_slice())
        };
        strings.push(text);
        assert(texts(strings@) =~= before.push(text@));
        assert(texts(strings@) =~= pool_strings(data@, offset as int).take(i + 1));
        i = i + 1;
    }
    assert(texts(strings@) =~= pool_strings(data@, offset as int));
    assert forall|i: int| 0 <= i < strings@.len() implies (#[trigger] strings@[i])@ == pool_string(
        data@,
        offset as int,
        i,
    ) by {
        assert(texts(strings@)[i] == strings@[i]@);
    }
    strings
}

/// Whether string `i` of a list is `name`.
pub open spec fn named(strings: Seq<Seq<char>>, i: int, name: Seq<char>) -> bool {
    0 <= i < strings.len() && strings[i] == name
}

/// The error for data that is no binary XML.
pub open spec fn not_binary() -> ErrorView {
    ErrorView::Message("AndroidManifest.xml не в бинарном формате"@)
}

/// The error for a package attribute that names no string.
pub open spec fn package_empty() -> ErrorView {
    ErrorView::Message("package в манифесте пуст"@)
}

/// The error for a manifest that names no package.
pub open spec fn package_missing() -> ErrorView {
    ErrorView::Message("не нашёл package в AndroidManifest.xml"@)
}

/// String `i` of a list as the package name.
pub open spec fn named_package(strings: Seq<Seq<char>>, i: int) -> Result<Seq<char>, ErrorView> {
    if 0 <= i < strings.len() {
        Ok(strings[i])
    } else {
        Err(package_empty())
    }
}

/// The value of the attribute at `o` as the package name. The value is a string's index, in the
/// raw field or, where that holds no index, in the typed field. `None` if reading it runs over the
/// end.
pub open spec fn attribute_value(d: Seq<u8>, strings: Seq<Seq<char>>, o: int) -> Option<
    Result<Seq<char>, ErrorView>,
> {
    if !fits(d, o + 8, 4) {
        None
    } else if le32(d, o + 8) != 0xFFFF_FFFF {
        Some(named_package(strings, le32(d, o + 8)))
    } else if fits(d, o + 16, 4) {
        Some(named_package(strings, le32(d, o + 16)))
    } else {
        None
    }
}

/// The package name that the first attribute named `package` gives, among `left` attributes of
/// `size` bytes of which the first stands at `o`. `None` if reading runs over the end.
pub open spec fn package_attribute(
    d: Seq<u8>,
    strings: Seq<Seq<char>>,
    o: int,
    size: int,
    left: nat,
) -> Option<Result<Seq<char>, ErrorView>>
    decreases left,
{
    if left == 0 {
        Some(Err(package_missing()))
    } else if !fits(d, o + 4, 4) {
        None
    } else if named(strings, le32(d, o + 4), "package"@) {
        attribute_value(d, strings, o)
    } else {
        package_attribute(d, strings, o + size, size, (left - 1) as nat)
    }
}

/// The package name that the attributes of the element at `o` give. `None` if reading runs over
/// the end.
pub open spec fn element_package(d: Seq<u8>, strings: Seq<Seq<char>>, o: int) -> Option<
    Result<Seq<char>, ErrorView>,
> {
    if fits(d, o, 30) {
        package_attribute(
            d,
            strings,
            o + 16 + le16(d, o + 24),
            le16(d, o + 26),
            le16(d, o + 28) as nat,
        )
    } else {
        None
    }
}

/// The package name that the chunks from `o` on give: that of the first element named `manifest`,
/// whose names are those of the string pool before it. The chunks end with the data or with one
/// that has no valid size. `None` if reading runs over the end.
pub open spec fn chunks_package(d: Seq<u8>, o: int, strings: Seq<Seq<char>>) -> Option<
    Result<Seq<char>, ErrorView>,
>
    decreases d.len() - o,
{
    if !fits(d, o, 8) || le32(d, o + 4) < 8 || !fits(d, o, le32(d, o + 4)) {
        Some(Err(package_missing()))
    } else if le16(d, o) == AXML_STRING_POOL {
        if pool_readable(d, o) {
            chunks_package(d, o + le32(d, o + 4), pool_strings(d, o))
        } else {
            None
        }
    } else if le16(d, o) == AXML_START_ELEMENT {
        if !fits(d, o, 24) {
            None
        } else if named(strings, le32(d, o + 20), "manifest"@) {
            element_package(d, strings, o)
        } else {
            chunks_package(d, o + le32(d, o + 4), strings)
        }
    } else {
        chunks_package(d, o + le32(d, o + 4), strings)
    }
}

/// The package name that a binary manifest declares, or why there is none. `None` if reading it
/// runs over the end.
pub open spec fn manifest_package(d: Seq<u8>) -> Option<Result<Seq<char>, ErrorView>> {
    if !fits(d, 0, 2) {
        None
    } else if le16(d, 0) != AXML_FILE {
        Some(Err(not_binary()))
    } else if !fits(d, 0, 4) {
        None
    } else {
        chunks_package(d, le16(d, 2), seq![])
    }
}

/// A package name, or why there is none, as its value.
pub open spec fn name_view(r: Result<String, InstallerError>) -> Result<Seq<char>, ErrorView> {
    match r {
        Ok(name) => Ok(name@),
        Err(e) => Err(e@),
    }
}

/// The same of a result that may be missing.
pub open spec fn maybe_name_view(r: Option<Result<String, InstallerError>>) -> Option<
    Result<Seq<char>, ErrorView>,
> {
    match r {
        Some(r) => Some(name_view(r)),
        None => None,
    }
}

/// The error for a manifest that names no package.
fn no_package() -> (r: InstallerError)
    ensures
        r@ == package_missing(),
{
    InstallerError::message("не нашёл package в AndroidManifest.xml")
}

/// String `i` of a list as the package name.
fn name_package(strings: &Vec<String>, i: usize) -> (r: Result<String, InstallerError>)
    ensures
        name_view(r) == named_package(texts(strings@), i as int),
{
    if i < strings.len() {
        Ok(strings[i].clone())
    } else {
        Err(InstallerError::message("package в манифесте пуст"))
    }
}

/// The value of the attribute at `o` as the package name.
fn read_attribute(data: &[u8], strings: &Vec<String>, o: usize) -> (r: Option<
    Result<String, InstallerError>,
>)
    requires
        fits(data@, o + 4, 4),
    ensures
        maybe_name_view(r) == attribute_value(data@, texts(strings@), o as int),
{
    let size: usize = data.len();
    if !in_bounds(data, o + 8, 4) {
        return None;
    }
    let raw: usize = le_u32(data, o + 8);
    if raw != 0xFFFF_FFFF {
        return Some(name_package(strings, raw));
    }
    if size - o < 20 {
        return None;
    }
    Some(name_package(strings, le_u32(data, o + 16)))
}

/// The package name that the attributes of the element at `o` give.
fn read_element(data: &[u8], strings: &Vec<String>, o: usize) -> (r: Option<
    Result<String, InstallerError>,
>)
    ensures
        maybe_name_view(r) == element_package(data@, texts(strings@), o as int),
{
    let data_size: usize = data.len();
    if !in_bounds(data, o, 30) {
        return None;
    }
    let package: String = "package".to_owned();
    let size: usize = le_u16(data, o + 26);
    let count: usize = le_u16(data, o + 28);
    let mut at: usize = match (o + 16).checked_add(le_u16(data, o + 24)) {
        Some(at) => at,
        None => {
            if count == 0 {
                return Some(Err(no_package()));
            }
            return None;
        },
    };
    let mut left: usize = count;
    while left > 0
        invariant
            data_size == data@.len(),
            package@ == "package"@,
            element_package(data@, texts(strings@), o as int) == package_attribute(
                data@,
                texts(strings@),
                at as int,
                size as int,
                left as nat,
            ),
        decreases left,
    {
        if data_size < 8 || at > data_size - 8 {
            return None;
        }
        let name: usize = le_u32(data, at + 4);
        if name < strings.len() && strings[name] == package {
            return read_attribute(data, strings, at);
        }
        left = left - 1;
        at = match at.checked_add(size) {
            Some(next) => next,
            None => {
                proof {
                    reveal_with_fuel(package_attribute, 2);
                }
                if left == 0 {
                    return Some(Err(no_package()));
                }
                return None;
            },
        };
    }
    Some(Err(no_package()))
}

/// The package name that the chunks from `start` on give.
fn read_chunks(data: &[u8], start: usize) -> (r: Option<Result<String, InstallerError>>)
    ensures
        maybe_name_view(r) == chunks_package(data@, start as int, seq![]),
{
    let manifest: String = "manifest".to_owned();
    let mut strings: Vec<String> = Vec::new();
    let mut offset: usize = start;
    assert(texts(strings@) =~= seq![]);
    while in_bounds(data, offset, 8)
        invariant
            manifest@ == "manifest"@,
            chunks_package(data@, start as int, seq![]) == chunks_package(
                data@,
                offset as int,
                texts(strings@),
            ),
        decreases data@.len() - offset,
    {
        let chunk_type: usize = le_u16(data, offset);
        let chunk_size: usize = le_u32(data, offset + 4);
        if chunk_size < 8 || !in_bounds(data, offset, chunk_size) {
            return Some(Err(no_package()));
        }
        if chunk_type == AXML_STRING_POOL {
            if !pool_in_bounds(data, offset) {
                return None;
            }
            strings = axml_strings(data, offset);
        } else if chunk_type == AXML_START_ELEMENT {
            if !in_bounds(data, offset, 24) {
                return None;
            }
            let name: usize = le_u32(data, offset + 20);
            if name < strings.len() && strings[name] == manifest {
                return read_element(data, &strings, offset);
            }
        }
        offset = offset + chunk_size;
    }
    Some(Err(no_package()))
}

/// The package name that a binary manifest declares, or why there is none; `None` if reading it
/// runs over the end.
fn read_manifest(data: &[u8]) -> (r: Option<Result<String, InstallerError>>)
    ensures
        maybe_name_view(r) == manifest_package(data@),
{
    if !in_bounds(data, 0, 2) {
        return None;
    }
    if le_u16(data, 0) != AXML_FILE {
        return Some(Err(InstallerError::message("AndroidManifest.xml не в бинарном формате")));
    }
    if !in_bounds(data, 0, 4) {
        return None;
    }
    read_chunks(data, le_u16(data, 2))
}

/// Whether a binary manifest can be read for its package name without running over the end.
pub fn manifest_readable(data: &[u8]) -> (r: bool)
    ensures
        r == (manifest_package(data@) is Some),
{
    read_manifest(data).is_some()
}

/// The package name that a binary manifest declares, or why there is none.
pub fn manifest_package_name(data: &[u8]) -> (r: Result<String, InstallerError>)
    requires
        manifest_package(data@) is Some,
    ensures
        Some(name_view(r)) == manifest_package(data@),
{
    read_manifest(data).unwrap()
}

}
