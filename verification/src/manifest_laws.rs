//! What is read from binary manifests, told by how they are laid out.

use vstd::prelude::*;
use vstd::utf8::{encode_utf8, encode_utf8_decode_utf8, encode_utf8_valid_utf8};

use crate::axml::{
    chunks_package, manifest_package, package_attribute, pool_readable, pool_span, pool_string,
    pool_strings, utf16_units,
};
use crate::decode::utf16_lossy;
use crate::error::ErrorView;

verus! {

/// The number that two bytes of the data make, the lower one first.
pub open spec fn u16_at(d: Seq<u8>, o: int) -> int {
    d[o] as int + 256 * (d[o + 1] as int)
}

/// The number that four bytes of the data make, the lowest one first.
pub open spec fn u32_at(d: Seq<u8>, o: int) -> int {
    u16_at(d, o) + 65536 * u16_at(d, o + 2)
}

/// Whether there is a chunk: a head of eight bytes, and a size that holds the head and lies within
/// the data.
pub open spec fn is_chunk(d: Seq<u8>, o: int) -> bool {
    &&& 0 <= o
    &&& o + 8 <= d.len()
    &&& 8 <= u32_at(d, o + 4)
    &&& o + u32_at(d, o + 4) <= d.len()
}

/// Whether a number picks the given text from a list.
pub open spec fn picks(strings: Seq<Seq<char>>, i: int, text: Seq<char>) -> bool {
    i < strings.len() && strings[i] == text
}

/// A chunk that is neither a string pool nor the start of an element is stepped over: the package
/// name is the one from the chunk behind it on.
pub proof fn other_chunks_are_stepped_over(d: Seq<u8>, o: int, strings: Seq<Seq<char>>)
    requires
        is_chunk(d, o),
        u16_at(d, o) != 0x0001,
        u16_at(d, o) != 0x0102,
    ensures
        chunks_package(d, o, strings) == chunks_package(d, o + u32_at(d, o + 4), strings),
{
}

/// A string pool gives the strings for the chunks behind it.
pub proof fn pool_gives_the_strings(d: Seq<u8>, o: int, strings: Seq<Seq<char>>)
    requires
        is_chunk(d, o),
        u16_at(d, o) == 0x0001,
        pool_readable(d, o),
    ensures
        chunks_package(d, o, strings) == chunks_package(
            d,
            o + u32_at(d, o + 4),
            pool_strings(d, o),
        ),
{
}

/// The start of an element that has another name than `manifest` is stepped over.
pub proof fn other_elements_are_stepped_over(d: Seq<u8>, o: int, strings: Seq<Seq<char>>)
    requires
        is_chunk(d, o),
        u16_at(d, o) == 0x0102,
        o + 24 <= d.len(),
        !picks(strings, u32_at(d, o + 20), "manifest"@),
    ensures
        chunks_package(d, o, strings) == chunks_package(d, o + u32_at(d, o + 4), strings),
{
}

/// Where no chunk begins any more, there is no package name.
pub proof fn chunks_end_without_a_name(d: Seq<u8>, o: int, strings: Seq<Seq<char>>)
    requires
        0 <= o,
        !is_chunk(d, o),
    ensures
        chunks_package(d, o, strings) == Some(
            Err::<Seq<char>, ErrorView>(
                ErrorView::Message("не нашёл package в AndroidManifest.xml"@),
            ),
        ),
{
}

/// Where attribute `k` of the element at `o` stands.
pub open spec fn attribute_at(d: Seq<u8>, o: int, k: int) -> int {
    o + 16 + u16_at(d, o + 24) + k * u16_at(d, o + 26)
}

/// Whether the first `k` attributes of the element at `o` can be read and none is a `package`.
pub open spec fn no_package_before(d: Seq<u8>, o: int, strings: Seq<Seq<char>>, k: int) -> bool {
    forall|j: int|
        0 <= j < k ==> #[trigger] attribute_at(d, o, j) + 8 <= d.len() && !picks(
            strings,
            u32_at(d, attribute_at(d, o, j) + 4),
            "package"@,
        )
}

/// The number of the string that the attribute at `o` has for its value: the raw one, if it has one,
/// and else the typed one.
pub open spec fn value_at(d: Seq<u8>, o: int) -> int {
    if u32_at(d, o + 8) == 0xFFFF_FFFF {
        u32_at(d, o + 16)
    } else {
        u32_at(d, o + 8)
    }
}

proof fn attributes_before_are_passed(
    d: Seq<u8>,
    o: int,
    strings: Seq<Seq<char>>,
    k: int,
    j: int,
)
    requires
        0 <= o,
        o + 30 <= d.len(),
        0 <= j <= k <= u16_at(d, o + 28),
        no_package_before(d, o, strings, k),
    ensures
        package_attribute(
            d,
            strings,
            attribute_at(d, o, j),
            u16_at(d, o + 26),
            (u16_at(d, o + 28) - j) as nat,
        ) == package_attribute(
            d,
            strings,
            attribute_at(d, o, k),
            u16_at(d, o + 26),
            (u16_at(d, o + 28) - k) as nat,
        ),
    decreases k - j,
{
    if j < k {
        attributes_before_are_passed(d, o, strings, k, j + 1);
        let size = u16_at(d, o + 26);
        assert((j + 1) * size == j * size + size) by (nonlinear_arith);
        assert(attribute_at(d, o, j) + size == attribute_at(d, o, j + 1));
        assert(j * size >= 0) by (nonlinear_arith)
            requires
                j >= 0,
                size >= 0,
        ;
    }
}

/// The start of the element `manifest` gives the package name: the value of the first attribute
/// `package`, wherever it stands among the others.
pub proof fn manifest_element_names_the_package(
    d: Seq<u8>,
    o: int,
    strings: Seq<Seq<char>>,
    k: int,
)
    requires
        is_chunk(d, o),
        u16_at(d, o) == 0x0102,
        o + 30 <= d.len(),
        picks(strings, u32_at(d, o + 20), "manifest"@),
        0 <= k < u16_at(d, o + 28),
        no_package_before(d, o, strings, k),
        attribute_at(d, o, k) + 20 <= d.len(),
        picks(strings, u32_at(d, attribute_at(d, o, k) + 4), "package"@),
    ensures
        ({
            let v = value_at(d, attribute_at(d, o, k));
            chunks_package(d, o, strings) == Some(
                if v < strings.len() {
                    Ok(strings[v])
                } else {
                    Err(ErrorView::Message("package в манифесте пуст"@))
                },
            )
        }),
{
    attributes_before_are_passed(d, o, strings, k, 0);
    let size = u16_at(d, o + 26);
    assert(0 * size == 0);
    assert(k * size >= 0) by (nonlinear_arith)
        requires
            k >= 0,
            size >= 0,
    ;
}

/// An element `manifest` without an attribute `package` ends the search.
pub proof fn manifest_element_without_package(d: Seq<u8>, o: int, strings: Seq<Seq<char>>)
    requires
        is_chunk(d, o),
        u16_at(d, o) == 0x0102,
        o + 30 <= d.len(),
        picks(strings, u32_at(d, o + 20), "manifest"@),
        no_package_before(d, o, strings, u16_at(d, o + 28)),
    ensures
        chunks_package(d, o, strings) == Some(
            Err::<Seq<char>, ErrorView>(
                ErrorView::Message("не нашёл package в AndroidManifest.xml"@),
            ),
        ),
{
    attributes_before_are_passed(d, o, strings, u16_at(d, o + 28), 0);
    assert(0 * u16_at(d, o + 26) == 0);
}

/// Whether chunks follow one another at the given positions, each where the one before it ends.
pub open spec fn are_chunks(d: Seq<u8>, at: Seq<int>) -> bool {
    &&& forall|i: int| 0 <= i < at.len() ==> is_chunk(d, #[trigger] at[i])
    &&& forall|i: int|
        0 <= i < at.len() - 1 ==> #[trigger] at[i] + u32_at(d, at[i] + 4) == at[i + 1]
}

proof fn stepped_over(d: Seq<u8>, at: Seq<int>, i: int, strings: Seq<Seq<char>>)
    requires
        are_chunks(d, at),
        0 <= i < at.len(),
        forall|j: int|
            i <= j < at.len() - 1 ==> u16_at(d, #[trigger] at[j]) != 0x0001 && u16_at(d, at[j])
                != 0x0102,
    ensures
        chunks_package(d, at[i], strings) == chunks_package(d, at.last(), strings),
    decreases at.len() - i,
{
    if i < at.len() - 1 {
        other_chunks_are_stepped_over(d, at[i], strings);
        stepped_over(d, at, i + 1, strings);
    }
}

/// A manifest gives the package name that its element declares, whatever chunks of other types stand
/// between the string pool and the element.
pub proof fn manifest_gives_its_package(d: Seq<u8>, at: Seq<int>, k: int)
    requires
        d.len() >= 4,
        u16_at(d, 0) == 0x0003,
        at.len() >= 2,
        at[0] == u16_at(d, 2),
        are_chunks(d, at),
        u16_at(d, at[0]) == 0x0001,
        pool_readable(d, at[0]),
        forall|j: int|
            1 <= j < at.len() - 1 ==> u16_at(d, #[trigger] at[j]) != 0x0001 && u16_at(d, at[j])
                != 0x0102,
        u16_at(d, at.last()) == 0x0102,
        at.last() + 30 <= d.len(),
        picks(pool_strings(d, at[0]), u32_at(d, at.last() + 20), "manifest"@),
        0 <= k < u16_at(d, at.last() + 28),
        no_package_before(d, at.last(), pool_strings(d, at[0]), k),
        attribute_at(d, at.last(), k) + 20 <= d.len(),
        picks(
            pool_strings(d, at[0]),
            u32_at(d, attribute_at(d, at.last(), k) + 4),
            "package"@,
        ),
        value_at(d, attribute_at(d, at.last(), k)) < pool_strings(d, at[0]).len(),
    ensures
        manifest_package(d) == Some(
            Ok::<Seq<char>, ErrorView>(
                pool_strings(d, at[0])[value_at(d, attribute_at(d, at.last(), k))],
            ),
        ),
{
    let strings = pool_strings(d, at[0]);
    pool_gives_the_strings(d, at[0], seq![]);
    stepped_over(d, at, 1, strings);
    manifest_element_names_the_package(d, at.last(), strings, k);
}

/// What does not begin as a binary file is no manifest.
pub proof fn other_files_are_refused(d: Seq<u8>)
    requires
        d.len() >= 2,
        u16_at(d, 0) != 0x0003,
    ensures
        manifest_package(d) == Some(
            Err::<Seq<char>, ErrorView>(
                ErrorView::Message("AndroidManifest.xml не в бинарном формате"@),
            ),
        ),
{
}

/// Where string `i` of the pool at `o` begins.
pub open spec fn string_at(d: Seq<u8>, o: int, i: int) -> int {
    o + u32_at(d, o + 20) + u32_at(d, o + u16_at(d, o + 2) + 4 * i)
}

/// A pool holds as many strings as it says, and each of them can be read where all can.
pub proof fn pool_holds_its_strings(d: Seq<u8>, o: int)
    requires
        0 <= o,
        o + 24 <= d.len(),
    ensures
        pool_strings(d, o).len() == u32_at(d, o + 8),
        forall|i: int|
            0 <= i < u32_at(d, o + 8) ==> #[trigger] pool_strings(d, o)[i] == pool_string(d, o, i),
        (forall|i: int| 0 <= i < u32_at(d, o + 8) ==> (#[trigger] pool_span(d, o, i)) is Some)
            ==> pool_readable(d, o),
{
}

/// A string of a UTF-8 pool is the text that its bytes encode. They stand behind a count of
/// characters and a count of bytes, each of which takes a second byte where its first one has the
/// top bit set.
pub proof fn utf8_string_is_read(d: Seq<u8>, o: int, i: int, start: int, n: int, text: Seq<char>)
    requires
        0 <= o,
        o + 24 <= d.len(),
        0 <= i,
        o + u16_at(d, o + 2) + 4 * i + 4 <= d.len(),
        (u32_at(d, o + 16) / 256) % 2 == 1,
        ({
            let e = string_at(d, o, i);
            let b = if d[e] < 128 {
                e + 1
            } else {
                e + 2
            };
            &&& b < d.len()
            &&& if d[b] < 128 {
                start == b + 1 && n == d[b]
            } else {
                start == b + 2 && n == (d[b] - 128) * 256 + d[b + 1]
            }
        }),
        start + n <= d.len(),
        d.subrange(start, start + n) == encode_utf8(text),
    ensures
        pool_span(d, o, i) is Some,
        pool_string(d, o, i) == text,
{
    encode_utf8_valid_utf8(text);
    encode_utf8_decode_utf8(text);
}

proof fn unit_is_character(u: u16, c: char)
    requires
        c as int == u as int,
    ensures
        u as char == c,
        u < 0xD800 || u > 0xDFFF,
{
}

proof fn plain_units_are_characters(units: Seq<u16>, text: Seq<char>)
    requires
        units.len() == text.len(),
        forall|k: int| 0 <= k < text.len() ==> (#[trigger] text[k]) as int == units[k] as int,
    ensures
        utf16_lossy(units) == text,
    decreases units.len(),
{
    if units.len() > 0 {
        let c = text[0];
        assert(c as int == units[0] as int);
        unit_is_character(units[0], c);
        assert forall|k: int| 0 <= k < text.skip(1).len() implies (#[trigger] text.skip(1)[k]) as int
            == units.skip(1)[k] as int by {
            assert(text.skip(1)[k] == text[k + 1]);
        }
        plain_units_are_characters(units.skip(1), text.skip(1));
        assert(seq![c] + text.skip(1) =~= text);
    } else {
        assert(text =~= seq![]);
    }
}

/// A string of a UTF-16 pool is the text of its units. They stand behind their count, which takes a
/// second unit where the first one has the top bit set.
pub proof fn utf16_string_is_read(d: Seq<u8>, o: int, i: int, start: int, text: Seq<char>)
    requires
        0 <= o,
        o + 24 <= d.len(),
        0 <= i,
        o + u16_at(d, o + 2) + 4 * i + 4 <= d.len(),
        (u32_at(d, o + 16) / 256) % 2 == 0,
        ({
            let e = string_at(d, o, i);
            &&& e + 2 <= d.len()
            &&& if u16_at(d, e) < 32768 {
                start == e + 2 && text.len() == u16_at(d, e)
            } else {
                &&& start == e + 4
                &&& e + 4 <= d.len()
                &&& text.len() == (u16_at(d, e) - 32768) * 65536 + u16_at(d, e + 2)
            }
        }),
        start + 2 * text.len() <= d.len(),
        forall|k: int|
            0 <= k < text.len() ==> (#[trigger] text[k]) as int == u16_at(d, start + 2 * k),
    ensures
        pool_span(d, o, i) is Some,
        pool_string(d, o, i) == text,
{
    let n = text.len() as int;
    let units = utf16_units(d, start, n);
    assert forall|k: int| 0 <= k < text.len() implies (#[trigger] text[k]) as int == units[k] as int by {
        assert(u16_at(d, start + 2 * k) < 65536);
    }
    plain_units_are_characters(units, text);
}

/// Two units that make a pair are the one character that they stand for.
pub proof fn pair_of_units_is_one_character(high: u16, low: u16, rest: Seq<u16>, c: char)
    requires
        c as int >= 0x10000,
        high as int == 0xD800 + (c as int - 0x10000) / 0x400,
        low as int == 0xDC00 + (c as int - 0x10000) % 0x400,
    ensures
        utf16_lossy(seq![high, low] + rest) == seq![c] + utf16_lossy(rest),
{
    let units = seq![high, low] + rest;
    assert(units.skip(2) =~= rest);
    let code = 0x10000 + (high - 0xD800) * 0x400 + (low - 0xDC00);
    assert(code == c as int);
    assert(code as char == c);
}

/// Where the contents of string `i` of the pool at `o` stand, and how many bytes or units they are,
/// by the counts ahead of them; `None` where they or the counts are cut off.
pub open spec fn string_place(d: Seq<u8>, o: int, i: int) -> Option<(int, int)> {
    let e = string_at(d, o, i);
    let utf8 = (u32_at(d, o + 16) / 256) % 2 == 1;
    let b = if d[e] < 128 {
        e + 1
    } else {
        e + 2
    };
    let (counted, start, n) = if utf8 && e < d.len() && b < d.len() && d[b] < 128 {
        (true, b + 1, d[b] as int)
    } else if utf8 {
        (e < d.len() && b + 1 < d.len(), b + 2, (d[b] - 128) * 256 + d[b + 1])
    } else if e + 1 < d.len() && u16_at(d, e) < 32768 {
        (true, e + 2, u16_at(d, e))
    } else {
        (e + 3 < d.len(), e + 4, (u16_at(d, e) - 32768) * 65536 + u16_at(d, e + 2))
    };
    let size = if utf8 {
        n
    } else {
        2 * n
    };
    if o + u16_at(d, o + 2) + 4 * i + 4 <= d.len() && counted && start + size <= d.len() {
        Some((start, n))
    } else {
        None
    }
}

/// A string of a pool is found behind its counts, whatever it holds, unless it is cut off.
pub proof fn strings_are_found_behind_their_counts(d: Seq<u8>, o: int, i: int)
    requires
        0 <= o,
        o + 24 <= d.len(),
        0 <= i,
    ensures
        pool_span(d, o, i) == string_place(d, o, i),
{
}

/// A manifest that is cut off where it would have to be read on is not read.
pub proof fn cut_off_manifests_are_not_read(d: Seq<u8>, o: int, strings: Seq<Seq<char>>, k: int)
    requires
        0 <= o,
        0 <= k,
    ensures
        d.len() < 2 ==> manifest_package(d) is None,
        d.len() < 4 && u16_at(d, 0) == 0x0003 ==> manifest_package(d) is None,
        is_chunk(d, o) && u16_at(d, o) == 0x0001 && !pool_readable(d, o) ==> chunks_package(
            d,
            o,
            strings,
        ) is None,
        is_chunk(d, o) && u16_at(d, o) == 0x0102 && o + 24 > d.len() ==> chunks_package(
            d,
            o,
            strings,
        ) is None,
        is_chunk(d, o) && u16_at(d, o) == 0x0102 && picks(
            strings,
            u32_at(d, o + 20),
            "manifest"@,
        ) && o + 24 <= d.len() < o + 30 ==> chunks_package(d, o, strings) is None,
        ({
            &&& is_chunk(d, o)
            &&& u16_at(d, o) == 0x0102
            &&& o + 30 <= d.len()
            &&& picks(strings, u32_at(d, o + 20), "manifest"@)
            &&& k < u16_at(d, o + 28)
            &&& no_package_before(d, o, strings, k)
            &&& attribute_at(d, o, k) + 8 > d.len()
        }) ==> chunks_package(d, o, strings) is None,
{
    if is_chunk(d, o) && o + 30 <= d.len() && k < u16_at(d, o + 28) && no_package_before(
        d,
        o,
        strings,
        k,
    ) {
        attributes_before_are_passed(d, o, strings, k, 0);
        assert(0 * u16_at(d, o + 26) == 0);
    }
}

}
