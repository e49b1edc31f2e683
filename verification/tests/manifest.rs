use chery_apk_install::apk::{apk_package_name, package_reply, readable_apk_package_name};
use chery_apk_install::axml::{
    axml_strings, le_u16, le_u32, manifest_package_name, manifest_readable,
};
use chery_apk_install::error::InstallerError;
use chery_apk_install::session::{command_output, Reply};
use std::io::Write;

fn put16(out: &mut Vec<u8>, n: u16) {
    out.extend_from_slice(&n.to_le_bytes());
}

fn put32(out: &mut Vec<u8>, n: u32) {
    out.extend_from_slice(&n.to_le_bytes());
}

fn utf8_entry(s: &str) -> Vec<u8> {
    let mut out = Vec::new();
    for n in [s.chars().count(), s.len()] {
        if n < 0x80 {
            out.push(n as u8);
        } else {
            out.push(0x80 | (n >> 8) as u8);
            out.push(n as u8);
        }
    }
    out.extend_from_slice(s.as_bytes());
    out.push(0);
    out
}

fn utf16_entry(s: &str) -> Vec<u8> {
    let units: Vec<u16> = s.encode_utf16().collect();
    let mut out = Vec::new();
    put16(&mut out, units.len() as u16);
    for u in units {
        put16(&mut out, u);
    }
    put16(&mut out, 0);
    out
}

fn pool(entries: &[Vec<u8>], utf8: bool) -> Vec<u8> {
    let mut offsets = Vec::new();
    let mut bytes = Vec::new();
    for e in entries {
        offsets.push(bytes.len() as u32);
        bytes.extend_from_slice(e);
    }
    let start = 28 + 4 * offsets.len();
    let mut out = Vec::new();
    put16(&mut out, 0x0001);
    put16(&mut out, 28);
    put32(&mut out, (start + bytes.len()) as u32);
    put32(&mut out, offsets.len() as u32);
    put32(&mut out, 0);
    put32(&mut out, if utf8 { 0x100 } else { 0 });
    put32(&mut out, start as u32);
    put32(&mut out, 0);
    for o in offsets {
        put32(&mut out, o);
    }
    out.extend_from_slice(&bytes);
    out
}

fn utf8_pool(strings: &[&str]) -> Vec<u8> {
    let entries: Vec<Vec<u8>> = strings.iter().map(|s| utf8_entry(s)).collect();
    pool(&entries, true)
}

fn utf16_pool(strings: &[&str]) -> Vec<u8> {
    let entries: Vec<Vec<u8>> = strings.iter().map(|s| utf16_entry(s)).collect();
    pool(&entries, false)
}

/// An element with attributes, each of them the numbers of its name, raw and typed values.
fn element(name: u32, attributes: &[(u32, u32, u32)]) -> Vec<u8> {
    let mut out = Vec::new();
    put16(&mut out, 0x0102);
    put16(&mut out, 16);
    put32(&mut out, (36 + 20 * attributes.len()) as u32);
    put32(&mut out, 1);
    put32(&mut out, 0xFFFF_FFFF);
    put32(&mut out, 0xFFFF_FFFF);
    put32(&mut out, name);
    put16(&mut out, 20);
    put16(&mut out, 20);
    put16(&mut out, attributes.len() as u16);
    put16(&mut out, 0);
    put16(&mut out, 0);
    put16(&mut out, 0);
    for (key, raw, typed) in attributes {
        put32(&mut out, 0xFFFF_FFFF);
        put32(&mut out, *key);
        put32(&mut out, *raw);
        put32(&mut out, 0x0300_0008);
        put32(&mut out, *typed);
    }
    out
}

fn unknown_chunk(size: u32) -> Vec<u8> {
    let mut out = Vec::new();
    put16(&mut out, 0x0180);
    put16(&mut out, 8);
    put32(&mut out, size);
    while out.len() < size as usize {
        out.push(0xAA);
    }
    out
}

fn file(chunks: &[Vec<u8>]) -> Vec<u8> {
    let body: Vec<u8> = chunks.concat();
    let mut out = Vec::new();
    put16(&mut out, 0x0003);
    put16(&mut out, 8);
    put32(&mut out, (8 + body.len()) as u32);
    out.extend_from_slice(&body);
    out
}

const STRINGS: [&str; 4] = ["manifest", "package", "ru.vk.store", "versionName"];

fn zipped(name: &str, contents: &[u8], deflated: bool) -> Vec<u8> {
    let method = if deflated {
        zip::CompressionMethod::Deflated
    } else {
        zip::CompressionMethod::Stored
    };
    let options = zip::write::SimpleFileOptions::default().compression_method(method);
    let mut writer = zip::ZipWriter::new(std::io::Cursor::new(Vec::new()));
    writer.start_file("other.txt", options).unwrap();
    writer.write_all(b"other").unwrap();
    writer.start_file(name, options).unwrap();
    writer.write_all(contents).unwrap();
    writer.finish().unwrap().into_inner()
}

fn message_of(r: Result<String, InstallerError>) -> String {
    match r {
        Err(InstallerError::Message(m)) => m,
        other => panic!("{:?}", other),
    }
}

#[test]
fn numbers_are_little_endian() {
    let data = [0x01, 0x02, 0x03, 0x84];
    assert_eq!(le_u16(&data, 0), 0x0201);
    assert_eq!(le_u16(&data, 2), 0x8403);
    assert_eq!(le_u32(&data, 0), 0x8403_0201);
}

#[test]
fn strings_of_utf8_are_read() {
    let long = "я".repeat(100);
    let data = utf8_pool(&["manifest", "", "путь", &long]);
    assert_eq!(axml_strings(&data, 0), vec!["manifest", "", "путь", long.as_str()]);
}

#[test]
fn strings_of_utf16_are_read() {
    let data = utf16_pool(&["manifest", "", "путь", "a😀b"]);
    assert_eq!(axml_strings(&data, 0), vec!["manifest", "", "путь", "a😀b"]);
}

#[test]
fn a_pool_is_read_where_it_stands() {
    let mut data = vec![7, 7, 7];
    data.extend_from_slice(&utf8_pool(&["x", "y"]));
    assert_eq!(axml_strings(&data, 3), vec!["x", "y"]);
}

#[test]
fn bytes_that_are_no_utf8_are_replaced() {
    let data = pool(&[vec![3, 3, b'a', 0xFF, b'b', 0]], true);
    assert_eq!(axml_strings(&data, 0), vec!["a\u{FFFD}b"]);
}

#[test]
fn surrogates_without_partners_are_replaced() {
    let data = pool(&[vec![4, 0, 0x00, 0xD8, 0x61, 0x00, 0x00, 0xDC, 0x3D, 0xD8]], false);
    assert_eq!(axml_strings(&data, 0), vec!["\u{FFFD}a\u{FFFD}\u{FFFD}"]);
}

#[test]
fn a_count_of_units_can_take_two_units() {
    let data = pool(&[vec![0x00, 0x80, 1, 0, 0x41, 0x00]], false);
    assert_eq!(axml_strings(&data, 0), vec!["A"]);
    let long = "ж".repeat(0x1_0002);
    let mut entry = vec![0x01, 0x80, 0x02, 0x00];
    for u in long.encode_utf16() {
        put16(&mut entry, u);
    }
    let data = pool(&[entry, utf16_entry("next")], false);
    assert_eq!(axml_strings(&data, 0), vec![long.as_str(), "next"]);
}

#[test]
fn a_long_count_that_is_cut_off_is_not_readable() {
    for entry in [vec![0x00, 0x80, 1, 0, 0x41], vec![0x00, 0x80, 1], vec![0xFF, 0xFF, 0xFF, 0xFF]] {
        assert!(!manifest_readable(&file(&[pool(&[entry], false)])));
    }
    let whole = pool(&[vec![0x00, 0x80, 1, 0, 0x41, 0x00]], false);
    assert!(manifest_readable(&file(&[whole])));
}

#[test]
fn the_package_is_read_from_the_manifest() {
    for strings in [utf8_pool(&STRINGS), utf16_pool(&STRINGS)] {
        let data = file(&[strings, unknown_chunk(12), element(0, &[(3, 2, 2), (1, 2, 0)])]);
        assert!(manifest_readable(&data));
        assert_eq!(manifest_package_name(&data).unwrap(), "ru.vk.store");
    }
}

#[test]
fn a_value_without_raw_text_is_typed() {
    let data = file(&[utf8_pool(&STRINGS), element(0, &[(1, 0xFFFF_FFFF, 2)])]);
    assert_eq!(manifest_package_name(&data).unwrap(), "ru.vk.store");
}

#[test]
fn a_value_that_is_no_string_of_the_pool_is_empty() {
    let data = file(&[utf8_pool(&STRINGS), element(0, &[(1, 4, 2)])]);
    assert_eq!(message_of(manifest_package_name(&data)), "package в манифесте пуст");
}

#[test]
fn other_elements_are_passed_over() {
    let data = file(&[utf8_pool(&STRINGS), element(3, &[(1, 0, 0)]), element(0, &[(1, 2, 0)])]);
    assert_eq!(manifest_package_name(&data).unwrap(), "ru.vk.store");
}

#[test]
fn a_later_pool_takes_the_place_of_an_earlier_one() {
    let other = utf8_pool(&["package", "manifest", "x.y"]);
    let data = file(&[utf8_pool(&STRINGS), other, element(1, &[(0, 2, 0)])]);
    assert_eq!(manifest_package_name(&data).unwrap(), "x.y");
}

#[test]
fn only_the_first_manifest_element_counts() {
    let none = "не нашёл package в AndroidManifest.xml";
    let data = file(&[utf8_pool(&STRINGS), element(0, &[(3, 2, 2)]), element(0, &[(1, 2, 0)])]);
    assert_eq!(message_of(manifest_package_name(&data)), none);
    let empty = file(&[]);
    assert_eq!(message_of(manifest_package_name(&empty)), none);
    let cut = file(&[utf8_pool(&STRINGS), unknown_chunk(12)[..8].to_vec()]);
    assert_eq!(message_of(manifest_package_name(&cut)), none);
    let mut small = unknown_chunk(8);
    small[4] = 7;
    let data = file(&[utf8_pool(&STRINGS), small, element(0, &[(1, 2, 0)])]);
    assert_eq!(message_of(manifest_package_name(&data)), none);
}

#[test]
fn a_text_manifest_is_refused() {
    let data = b"<manifest package=\"a.b\"/>";
    assert_eq!(
        message_of(manifest_package_name(data)),
        "AndroidManifest.xml не в бинарном формате"
    );
}

#[test]
fn a_manifest_that_is_cut_off_is_not_readable() {
    assert!(!manifest_readable(&[]));
    assert!(!manifest_readable(&[3]));
    assert!(!manifest_readable(&[3, 0, 8]));
    let mut bad = utf8_pool(&STRINGS);
    bad[8] = 200;
    assert!(!manifest_readable(&file(&[bad])));
    let mut element = element(0, &[(1, 2, 0)]);
    element[28] = 9;
    assert!(manifest_readable(&file(&[utf8_pool(&STRINGS), element.clone()])));
    element[40] = 3;
    assert!(!manifest_readable(&file(&[utf8_pool(&STRINGS), element])));
}

#[test]
fn the_package_of_an_apk_is_read() {
    let manifest = file(&[utf8_pool(&STRINGS), element(0, &[(1, 2, 0)])]);
    for deflated in [false, true] {
        let apk = zipped("AndroidManifest.xml", &manifest, deflated);
        assert_eq!(apk_package_name(&apk).unwrap(), "ru.vk.store");
        assert_eq!(readable_apk_package_name(&apk).unwrap().unwrap(), "ru.vk.store");
        assert!(matches!(package_reply(&apk), Some(Reply::Text(name)) if name == "ru.vk.store"));
    }
}

#[test]
fn an_apk_without_a_manifest_is_an_error_of_the_archive() {
    let apk = zipped("Manifest.xml", b"", false);
    match readable_apk_package_name(&apk) {
        Some(Err(InstallerError::Zip(text))) => {
            assert_eq!(text, zip::result::ZipError::FileNotFound.to_string())
        }
        other => panic!("{:?}", other),
    }
    assert!(matches!(
        readable_apk_package_name(b"no archive"),
        Some(Err(InstallerError::Zip(_)))
    ));
    assert!(matches!(package_reply(b"no archive"), Some(Reply::Failed(InstallerError::Zip(_)))));
}

#[test]
fn an_entry_with_a_wrong_checksum_is_an_input_error() {
    let manifest = file(&[utf8_pool(&STRINGS), element(0, &[(1, 2, 0)])]);
    let mut apk = zipped("AndroidManifest.xml", &manifest, false);
    let at = apk.windows(11).position(|w| w == b"ru.vk.store").unwrap();
    apk[at] = b'z';
    assert!(matches!(readable_apk_package_name(&apk), Some(Err(InstallerError::Io(_)))));
}

#[test]
fn an_apk_with_a_broken_manifest_has_no_reply() {
    let apk = zipped("AndroidManifest.xml", &[3], false);
    assert!(readable_apk_package_name(&apk).is_none());
    assert!(package_reply(&apk).is_none());
    let text = zipped("AndroidManifest.xml", b"<manifest/>", false);
    assert!(matches!(
        package_reply(&text),
        Some(Reply::Failed(InstallerError::Message(m)))
            if m == "AndroidManifest.xml не в бинарном формате"
    ));
}

#[test]
fn the_output_of_a_command_is_text() {
    let args = vec!["-s".to_string(), "x".to_string(), "shell".to_string()];
    let out = command_output("/opt/adb", &args, true, "да\n".as_bytes(), &[b'e', 0xC3]);
    assert!(out.success);
    assert_eq!(out.stdout, "да\n");
    assert_eq!(out.stderr, "e\u{FFFD}");
    assert_eq!(out.command, "/opt/adb -s x shell");
    let bare = command_output("adb", &vec![], false, &[], &[]);
    assert!(!bare.success);
    assert_eq!(bare.command, "adb ");
}
