use chery_apk_install::commands::refusal_reason;
use chery_apk_install::components::{
    extract_component_candidates, extract_device_admin_candidates,
    extract_notification_listener_candidates, is_safe_component_class_name,
    normalize_component_candidate, push_unique,
};
use chery_apk_install::devices::{
    head_unit_score, is_truncated_hex_serial, parse_devices, select_head_unit, ListedDevice,
};
use chery_apk_install::packages::{
    find_new_package, is_safe_package_name, output_lists_package, parse_packages,
    parse_permissions, parse_uninstallable,
};

fn device(serial: &str, model: Option<&str>, product: Option<&str>, usb: bool) -> ListedDevice {
    ListedDevice {
        serial: serial.to_string(),
        state: "device".to_string(),
        model: model.map(str::to_string),
        product: product.map(str::to_string),
        usb,
    }
}

fn strings(list: &[&str]) -> Vec<String> {
    list.iter().map(|s| s.to_string()).collect()
}

#[test]
fn devices_are_read_from_the_list() {
    let text = "List of devices attached\n\
                bd6bf956               device usb:1-1 product:g7ph model:DesaySV_T22 device:x transport_id:1\n\
                192.168.1.5:5555       device product:watch model:Watch_7\n\
                \n\
                emulator               offline\n\
                lonely\n\
                * daemon started\n";
    let devices = parse_devices(text);
    assert_eq!(devices.len(), 4);
    assert_eq!(devices[0].serial, "bd6bf956");
    assert_eq!(devices[0].state, "device");
    assert_eq!(devices[0].model.as_deref(), Some("DesaySV T22"));
    assert_eq!(devices[0].product.as_deref(), Some("g7ph"));
    assert!(devices[0].usb);
    assert_eq!(devices[1].serial, "192.168.1.5:5555");
    assert_eq!(devices[1].model.as_deref(), Some("Watch 7"));
    assert_eq!(devices[1].product.as_deref(), Some("watch"));
    assert!(!devices[1].usb);
    assert_eq!(devices[2].serial, "emulator");
    assert_eq!(devices[2].state, "offline");
    assert_eq!(devices[2].model, None);
    assert_eq!(devices[2].product, None);
    assert!(devices[2].usb);
    assert_eq!(devices[3].serial, "*");
    assert_eq!(devices[3].state, "daemon");
}

#[test]
fn the_last_of_repeated_attributes_counts() {
    let devices = parse_devices("h:1 device model:a model:b product:c product:d usb:2\r\n");
    assert_eq!(devices[0].model.as_deref(), Some("b"));
    assert_eq!(devices[0].product.as_deref(), Some("d"));
    assert!(devices[0].usb);
    assert_eq!(parse_devices("").len(), 0);
    assert_eq!(parse_devices("   List of devices attached").len(), 0);
}

#[test]
fn hex_serials_have_six_to_sixteen_digits() {
    assert!(is_truncated_hex_serial("bd6bf956"));
    assert!(is_truncated_hex_serial("ABCDEF"));
    assert!(is_truncated_hex_serial("0123456789abcdef"));
    assert!(!is_truncated_hex_serial("abcde"));
    assert!(!is_truncated_hex_serial("0123456789abcdef0"));
    assert!(!is_truncated_hex_serial("bd6bf95g"));
    assert!(!is_truncated_hex_serial("12:34:56"));
    assert!(!is_truncated_hex_serial("ёёё"));
}

#[test]
fn scores_add_up() {
    assert_eq!(head_unit_score(&device("x", None, None, false)), 0);
    assert_eq!(head_unit_score(&device("x", Some("DesaySV T22"), None, false)), 100);
    assert_eq!(head_unit_score(&device("x", None, Some("DESAY"), false)), 100);
    assert_eq!(head_unit_score(&device("x", Some("desay"), None, false)), 0);
    assert_eq!(head_unit_score(&device("x", None, Some("G7PH"), false)), 40);
    assert_eq!(head_unit_score(&device("x", Some("t22"), Some("aT22b"), false)), 40);
    assert_eq!(head_unit_score(&device("x", None, None, true)), 30);
    assert_eq!(head_unit_score(&device("bd6bf956", None, None, false)), 20);
    assert_eq!(head_unit_score(&device("h:1", None, None, false)), -50);
    assert_eq!(head_unit_score(&device("bd6bf956", Some("DESAYSV"), Some("desay_g7ph"), true)), 190);
}

#[test]
fn a_device_on_usb_is_preferred() {
    let network = device("10.0.0.2:5555", Some("DesaySV"), Some("g7ph"), false);
    let phone = device("phone", None, None, true);
    assert_eq!(head_unit_score(&network), 90);
    assert_eq!(select_head_unit(&[&network, &phone]).unwrap().serial, "phone");
    assert_eq!(select_head_unit(&[&phone, &network]).unwrap().serial, "phone");
}

#[test]
fn the_highest_score_wins_and_the_last_of_equals() {
    let a = device("aaa", None, None, true);
    let b = device("bbb", None, None, true);
    let head = device("bd6bf956", Some("DesaySV"), None, true);
    assert_eq!(select_head_unit(&[&a, &b]).unwrap().serial, "bbb");
    assert_eq!(select_head_unit(&[&b, &a]).unwrap().serial, "aaa");
    assert_eq!(select_head_unit(&[&a, &head, &b]).unwrap().serial, "bd6bf956");
    let far = device("h:1", None, None, false);
    let farther = device("h:2", None, Some("t22"), false);
    assert_eq!(select_head_unit(&[&far, &farther, &far]).unwrap().serial, "h:2");
    assert!(select_head_unit(&[]).is_none());
}

#[test]
fn package_names_are_checked() {
    assert!(is_safe_package_name("ru.vk.store"));
    assert!(is_safe_package_name("."));
    assert!(is_safe_package_name("A_1.b"));
    assert!(!is_safe_package_name(""));
    assert!(!is_safe_package_name("nodots"));
    assert!(!is_safe_package_name("a.b;reboot"));
    assert!(!is_safe_package_name("a.b c"));
    assert!(!is_safe_package_name("a.b$c"));
    assert!(!is_safe_package_name("a.б"));
    assert!(!is_safe_package_name("a.b\n"));
}

#[test]
fn packages_are_read_from_the_list() {
    let text = "package:a.b\r\n package:c.d\nnonsense\npackage:\npackage:e f\n";
    assert_eq!(parse_packages(text), strings(&["a.b", "", "e f"]));
    assert!(output_lists_package(text, "a.b"));
    assert!(output_lists_package(text, "c.d"));
    assert!(!output_lists_package(text, "a"));
    assert!(!output_lists_package("package:a.b.c\n", "a.b"));
    assert!(!output_lists_package("", "a.b"));
}

#[test]
fn uninstallable_packages_are_safe_and_sorted() {
    let text = "package:b.b\n  package:a.z \npackage:unsafe\npackage:a.b;c\npackage:a.B\nx\npackage:b.b";
    assert_eq!(parse_uninstallable(text), strings(&["a.B", "a.z", "b.b", "b.b"]));
    assert_eq!(parse_uninstallable(""), strings(&[]));
}

#[test]
fn the_first_new_package_is_found() {
    let before = strings(&["a.a", "b.b"]);
    assert_eq!(
        find_new_package(&strings(&["b.b", "n.n", "a.a", "m.m"]), &before).as_deref(),
        Some("n.n")
    );
    assert_eq!(find_new_package(&before, &before), None);
    assert_eq!(find_new_package(&strings(&[]), &before), None);
}

#[test]
fn requested_permissions_are_read() {
    let text = "Packages:\n\
                \x20 android.permission.TOO_EARLY\n\
                \x20   requested permissions:\n\
                \x20     android.permission.INTERNET\n\
                \x20     android.permission.CAMERA: restricted=true\n\
                \x20     com.x.MY_PERM\n\
                \x20     android.permission.INTERNET\n\
                \x20     requested permissions:\n\
                \x20     android.permission.VIBRATE: granted=true\n\
                \x20   install permissions:\n\
                \x20     android.permission.TOO_LATE\n";
    assert_eq!(
        parse_permissions(text),
        strings(&["android.permission.INTERNET", "android.permission.CAMERA", "com.x.MY_PERM"])
    );
    assert_eq!(parse_permissions("android.permission.X\n"), strings(&[]));
    assert_eq!(
        parse_permissions("requested permissions:\na.permission.B"),
        strings(&["a.permission.B"])
    );
    assert_eq!(
        parse_permissions("install permissions:\nrequested permissions:\na.permission.B"),
        strings(&["a.permission.B"])
    );
    assert_eq!(
        parse_permissions(
            "  requested permissions:\n    android.permission.CAMERA\n  runtime permissions:\n    \
             android.permission.CAMERA: granted=true\n"
        ),
        strings(&["android.permission.CAMERA"])
    );
}

#[test]
fn permissions_have_names_of_their_own() {
    let is_one =
        |name: &str| parse_permissions(&format!("requested permissions:\n{}\n", name)).len() == 1;
    assert!(is_one("a.B"));
    assert!(is_one("a_1.b2..C_3"));
    assert!(is_one("..A"));
    assert!(is_one("A.B.9"));
    assert!(!is_one("a.b"));
    assert!(!is_one("a.permission.b"));
    assert!(!is_one("a.Bc"));
    assert!(!is_one("a.B c"));
    assert!(!is_one(".A"));
    assert!(!is_one("a."));
    assert!(!is_one("A"));
    assert!(!is_one("."));
    assert!(!is_one("a-b.C"));
    assert!(!is_one("a.B; reboot"));
    assert!(!is_one("я.B"));
    assert!(!is_one("a.Я"));
    assert!(!is_one(": restricted=true"));
    assert!(!is_one("a.B: restricted=true: restricted=true"));
}

#[test]
fn class_names_are_checked() {
    assert!(is_safe_component_class_name(".Receiver"));
    assert!(is_safe_component_class_name("a.B$C_1"));
    assert!(!is_safe_component_class_name(""));
    assert!(!is_safe_component_class_name("a/b"));
    assert!(!is_safe_component_class_name("a b"));
    assert!(!is_safe_component_class_name("я"));
}

#[test]
fn components_are_normalized() {
    let normal = |token: &str| normalize_component_candidate("a.b", token);
    assert_eq!(normal("a.b/.Receiver").as_deref(), Some("a.b/.Receiver"));
    assert_eq!(normal("a.b/a.b.Receiver").as_deref(), Some("a.b/a.b.Receiver"));
    assert_eq!(normal("a.b.Receiver").as_deref(), Some("a.b/a.b.Receiver"));
    assert_eq!(normal("a.b."), None);
    assert_eq!(normal("a.b/"), None);
    assert_eq!(normal("a.b"), None);
    assert_eq!(normal("a.bc"), None);
    assert_eq!(normal("a.b/x/y"), None);
    assert_eq!(normal("a.b.c/.D"), None);
    assert_eq!(normal("z.a.b/.C"), None);
}

#[test]
fn a_component_normalizes_to_itself() {
    for token in ["a.b/.R", "a.b/a.b.R", "a.b.R$1", "a.b.c.D"] {
        let once = normalize_component_candidate("a.b", token).unwrap();
        let twice = normalize_component_candidate("a.b", once.as_str()).unwrap();
        assert_eq!(once, twice);
    }
}

#[test]
fn nothing_is_added_twice() {
    let mut list = strings(&["a"]);
    push_unique(&mut list, "b".to_string());
    push_unique(&mut list, "a".to_string());
    assert_eq!(list, strings(&["a", "b"]));
}

#[test]
fn components_are_extracted_from_words() {
    let mut found = strings(&["a.b/.First"]);
    extract_component_candidates(
        "a.b",
        "ServiceInfo{a.b/.Second} (a.b.Third), \"a.b/.First\" other/.X a.b/.Second; a.b/bad-name {a.b/.Fourth}:",
        &mut found,
    );
    assert_eq!(found, strings(&["a.b/.First", "a.b/a.b.Third", "a.b/.Second", "a.b/.Fourth"]));
}

#[test]
fn what_a_list_holds_stays_ahead_of_what_is_added() {
    let mut found = strings(&["not a component", "x", "x"]);
    extract_component_candidates("a.b", "a.b/.One x a.b/.Two a.b/.One", &mut found);
    assert_eq!(found, strings(&["not a component", "x", "x", "a.b/.One", "a.b/.Two"]));
}

#[test]
fn joined_texts_add_what_they_add_in_turn() {
    let (first, second) = ("a.b/.One a.b/.Tw", "o a.b/.Two\na.b/.One");
    let mut whole = Vec::new();
    extract_component_candidates("a.b", &format!("{}\n{}", first, second), &mut whole);
    let mut turns = Vec::new();
    extract_component_candidates("a.b", first, &mut turns);
    extract_component_candidates("a.b", second, &mut turns);
    assert_eq!(whole, strings(&["a.b/.One", "a.b/.Tw", "a.b/.Two"]));
    assert_eq!(turns, whole);
}

#[test]
fn a_second_run_adds_nothing() {
    let text = numbered(10, "android.app.device_admin");
    let mut found = strings(&["a.b/.C7"]);
    extract_device_admin_candidates("a.b", &text, &mut found);
    let once = found.clone();
    assert_eq!(once.len(), 13);
    extract_device_admin_candidates("a.b", &text, &mut found);
    assert_eq!(found, once);
    extract_component_candidates("a.b", &text, &mut found);
    let all = found.clone();
    assert_eq!(all.len(), 20);
    extract_component_candidates("a.b", &text, &mut found);
    assert_eq!(found, all);
}

fn numbered(marked: usize, mark: &str) -> String {
    let mut text = String::new();
    for i in 0..20 {
        text.push_str(&format!("a.b/.C{}", i));
        if i == marked {
            text.push(' ');
            text.push_str(mark);
        }
        text.push('\n');
    }
    text
}

#[test]
fn components_are_taken_from_six_lines_around_a_mark() {
    let mut found = Vec::new();
    extract_notification_listener_candidates(
        "a.b",
        &numbered(10, "android.service.notification.NotificationListenerService"),
        &mut found,
    );
    let expected: Vec<String> = (4..17).map(|i| format!("a.b/.C{}", i)).collect();
    assert_eq!(found, expected);

    let mut found = Vec::new();
    extract_notification_listener_candidates(
        "a.b",
        &numbered(2, "android.permission.BIND_NOTIFICATION_LISTENER_SERVICE"),
        &mut found,
    );
    let expected: Vec<String> = (0..9).map(|i| format!("a.b/.C{}", i)).collect();
    assert_eq!(found, expected);

    let mut found = Vec::new();
    extract_notification_listener_candidates(
        "a.b",
        &numbered(10, "android.permission.BIND_DEVICE_ADMIN"),
        &mut found,
    );
    assert_eq!(found, strings(&[]));
}

#[test]
fn device_administrators_have_three_marks() {
    for mark in [
        "android.app.action.DEVICE_ADMIN_ENABLED",
        "android.permission.BIND_DEVICE_ADMIN",
        "android.app.device_admin",
    ] {
        let mut found = Vec::new();
        extract_device_admin_candidates("a.b", &numbered(19, mark), &mut found);
        let expected: Vec<String> = (13..20).map(|i| format!("a.b/.C{}", i)).collect();
        assert_eq!(found, expected, "{}", mark);
    }
    let mut found = Vec::new();
    extract_device_admin_candidates(
        "a.b",
        &numbered(0, "android.service.notification.NotificationListenerService"),
        &mut found,
    );
    assert_eq!(found, strings(&[]));
}

#[test]
fn the_last_line_about_the_package_is_the_reason() {
    let log = "W one a.b\n  W two a.b  \r\nW three c.d\n";
    assert_eq!(refusal_reason(log, "a.b"), "W two a.b");
    assert_eq!(refusal_reason(log, "e.f"), "причина не найдена в логе PackageManager");
    assert_eq!(refusal_reason("", "a.b"), "причина не найдена в логе PackageManager");
}
