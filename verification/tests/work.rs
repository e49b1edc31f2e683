use chery_apk_install::commands::{
    check_device, grant_all_permissions, install_apk, list_uninstallable_packages,
    uninstall_package, DeviceInfo,
};
use chery_apk_install::components::{device_admin_candidates, notification_listener_candidates};
use chery_apk_install::devices::{ensure_device, list_adb_devices, resolve_head_unit};
use chery_apk_install::error::InstallerError;
use chery_apk_install::grants::{
    all_appops, allow_each_listener, grant_all_permissions_inner, grant_manifest_permissions,
    set_appops, verify_mock_location, whitelist_package, MOCK_LOCATION_ATTEMPTS,
};
use chery_apk_install::packages::{
    detect_new_package, is_package_installed, list_packages, requested_permissions,
};
use chery_apk_install::session::{
    append_output, run_adb, run_adb_checked, run_adb_optional, run_output, AdbTarget, Ask,
    CommandOutput, Halt, Reply, Session,
};
use chery_apk_install::tools::{
    adb_exe_name, app_data_dir, ensure_adb, resource_localinstall, Platform, ADB_VERSION,
};
use chery_apk_install::vehicle::{
    apply_device_owner_inner, apply_vehicle_management_inner, apply_vehicle_preinstall,
};

const LINUX: Platform = Platform { windows: false, unix: true };
const WINDOWS: Platform = Platform { windows: true, unix: false };

fn path(names: &[String]) -> String {
    names.join("/")
}

fn show(ask: &Ask) -> String {
    match ask {
        Ask::DataDir => "data dir".to_string(),
        Ask::IsFile(p) => format!("is file {}", path(p)),
        Ask::Exists(p) => format!("exists {}", path(p)),
        Ask::RemoveDir(p) => format!("remove {}", path(p)),
        Ask::CreateDir(p) => format!("create {}", path(p)),
        Ask::Unpack(p) => format!("unpack {}", path(p)),
        Ask::SetMode(p, mode) => format!("mode {} {:o}", path(p), mode),
        Ask::Rename(a, b) => format!("rename {} {}", path(a), path(b)),
        Ask::ShowPath(p) => format!("show {}", path(p)),
        Ask::ApkIsFile(p) => format!("apk is file {}", p),
        Ask::ApkPackage(p) => format!("apk package {}", p),
        Ask::Helper => "helper".to_string(),
        Ask::Sleep(s) => format!("sleep {}", s),
        Ask::Run(p, args) => format!("{}: {}", path(p), args.join(" ")),
    }
}

fn ran(success: bool, stdout: &str, stderr: &str) -> Reply {
    Reply::Output(CommandOutput {
        success,
        stdout: stdout.to_string(),
        stderr: stderr.to_string(),
        command: "the command".to_string(),
    })
}

fn ok(stdout: &str) -> Reply {
    ran(true, stdout, "")
}

fn io(text: &str) -> Reply {
    Reply::Failed(InstallerError::Io(text.to_string()))
}

struct Run<T> {
    result: Result<T, Halt>,
    asked: Vec<String>,
    log: Vec<String>,
}

impl<T> Run<T> {
    fn message(&self) -> String {
        match &self.result {
            Err(Halt::Failed(InstallerError::Message(m))) => m.clone(),
            Err(halt) => panic!("{:?}", halt),
            Ok(_) => panic!("no error"),
        }
    }
}

/// Runs work to its end: each time it waits, the question is answered and the work run again.
fn drive<T>(
    work: impl Fn(&mut Session) -> Result<T, Halt>,
    mut world: impl FnMut(&str) -> Reply,
) -> Run<T> {
    let mut session = Session::new();
    let mut asked: Vec<String> = Vec::new();
    loop {
        session.rewind();
        let result = work(&mut session);
        if let Err(Halt::Waiting(ask)) = &result {
            let question = show(ask);
            let reply = world(question.as_str());
            asked.push(question);
            session.answer(reply);
            continue;
        }
        let log =
            session.steps().into_iter().map(|s| format!("{}: {}", s.level, s.message)).collect();
        return Run { result, asked, log };
    }
}

fn target() -> AdbTarget {
    AdbTarget {
        path: vec!["adb".to_string(), "37.0.1".to_string(), "adb".to_string()],
        serial: "bd6bf956".to_string(),
    }
}

/// The command of a question that is to be run on the device.
fn on_device(question: &str) -> Option<&str> {
    question.strip_prefix("adb/37.0.1/adb: -s bd6bf956 ")
}

/// A head unit on which everything works; what is listed as installed depends on what was done.
fn head_unit(question: &str, installed: bool) -> Reply {
    if let Some(command) = on_device(question) {
        return match command {
            "shell pm list packages" => ok("package:a.old\n"),
            "shell pm list packages a.b" => ok(if installed { "package:a.b\n" } else { "" }),
            "shell pm list packages -3" => ok("package:z.z\npackage:a.b\npackage:bad\n"),
            "shell dumpsys package a.b" => ok(
                "a.b/.Listener\nandroid.permission.BIND_NOTIFICATION_LISTENER_SERVICE\n\
                 requested permissions:\nandroid.permission.CAMERA\nandroid.permission.INTERNET\n\
                 install permissions:\n",
            ),
            "shell cmd appops get a.b android:mock_location" => ok("MOCK_LOCATION: allow"),
            "shell getprop ro.product.model" => ok("DesaySV T22\n"),
            "shell getprop ro.build.version.release" => ok("12\n"),
            _ => ok(""),
        };
    }
    match question {
        "adb/37.0.1/adb: devices -l" => {
            ok("List of devices attached\nbd6bf956 device usb:1 model:DesaySV\n10.0.0.9:5555 device\n")
        }
        "data dir" => Reply::Done,
        "is file adb/37.0.1/adb" => Reply::Flag(true),
        "show adb/37.0.1/adb" => Reply::Text("/data/adb/37.0.1/adb".to_string()),
        "apk is file /home/me/x.apk" => Reply::Flag(true),
        "apk package /home/me/x.apk" => Reply::Text("a.b".to_string()),
        "helper" => Reply::Text("/res/localinstall.apk".to_string()),
        "sleep 2" => Reply::Done,
        other => panic!("{}", other),
    }
}

const READY: [&str; 3] =
    ["data dir", "is file adb/37.0.1/adb", "adb/37.0.1/adb: devices -l"];

fn commands(asked: &[String]) -> Vec<String> {
    asked.iter().filter_map(|q| on_device(q)).map(str::to_string).collect()
}

fn grant_commands() -> Vec<String> {
    let mut all: Vec<String> = vec![
        "shell dumpsys package a.b".to_string(),
        "shell pm grant a.b android.permission.CAMERA".to_string(),
        "shell pm grant a.b android.permission.INTERNET".to_string(),
    ];
    for op in all_appops() {
        all.push(format!("shell appops set a.b {} allow", op));
    }
    for rest in [
        "shell cmd appops set a.b AUTO_REVOKE_PERMISSIONS_IF_UNUSED ignore",
        "shell dumpsys deviceidle whitelist +a.b",
        "shell cmd package query-services -a android.service.notification.NotificationListenerService a.b",
        "shell dumpsys package a.b",
        "shell cmd notification allow_listener a.b/.Listener",
        "shell cmd appops get a.b android:mock_location",
    ] {
        all.push(rest.to_string());
    }
    all
}

fn grant_log() -> Vec<String> {
    let mut all: Vec<String> = vec![
        "info: Выдаю все права: a.b".to_string(),
        "info: Выдаю runtime permissions из manifest".to_string(),
        "info: permission: android.permission.CAMERA".to_string(),
        "info: permission: android.permission.INTERNET".to_string(),
        "info: Выставляю полный набор appops (фон, установка, VPN, экран, геолокация)".to_string(),
    ];
    for op in all_appops() {
        all.push(format!("info: appop: {}=allow", op));
    }
    for rest in [
        "info: Авто-отзыв неиспользуемых прав отключён",
        "info: Исключаю из ограничений экономии батареи",
        "info: Разрешаю доступ к уведомлениям",
        "info: Фиктивные местоположения разрешены",
        "info: Все права выданы: a.b",
    ] {
        all.push(rest.to_string());
    }
    all
}

#[test]
fn the_app_operations_are_all_there() {
    assert_eq!(
        all_appops(),
        [
            "MANAGE_EXTERNAL_STORAGE",
            "LEGACY_STORAGE",
            "READ_EXTERNAL_STORAGE",
            "WRITE_EXTERNAL_STORAGE",
            "SYSTEM_ALERT_WINDOW",
            "WRITE_SETTINGS",
            "REQUEST_INSTALL_PACKAGES",
            "RUN_IN_BACKGROUND",
            "RUN_ANY_IN_BACKGROUND",
            "START_FOREGROUND",
            "INSTANT_APP_START_FOREGROUND",
            "WAKE_LOCK",
            "POST_NOTIFICATION",
            "ACCESS_NOTIFICATIONS",
            "GET_USAGE_STATS",
            "SCHEDULE_EXACT_ALARM",
            "USE_EXACT_ALARM",
            "TURN_SCREEN_ON",
            "PICTURE_IN_PICTURE",
            "ACTIVATE_VPN",
            "ACTIVATE_PLATFORM_VPN",
            "COARSE_LOCATION",
            "FINE_LOCATION",
            "android:mock_location",
        ]
    );
    assert_eq!(MOCK_LOCATION_ATTEMPTS, 4);
    assert_eq!(ADB_VERSION, "37.0.1");
    assert_eq!(adb_exe_name(true), "adb.exe");
    assert_eq!(adb_exe_name(false), "adb");
}

#[test]
fn an_apk_is_installed_and_granted_everything() {
    let mut there = false;
    let run = drive(
        |s: &mut Session| install_apk(LINUX, "/home/me/x.apk", false, s),
        |q| {
            if q.contains("LocalInstall") {
                there = true;
                return ran(true, "Installing\n\n", "careful\n");
            }
            head_unit(q, there)
        },
    );
    let result = run.result.as_ref().unwrap();
    assert_eq!(result.package_name, "a.b");
    let mut expected: Vec<String> = vec!["apk is file /home/me/x.apk".to_string()];
    expected.extend(READY.iter().map(|q| q.to_string()));
    assert_eq!(run.asked[..4], expected[..]);
    assert_eq!(run.asked[5], "apk package /home/me/x.apk");
    assert_eq!(run.asked[6], "helper");
    assert_eq!(run.asked.iter().filter(|q| *q == "sleep 2").count(), 1);
    let mut expected: Vec<String> = [
        "shell pm list packages",
        "push /home/me/x.apk /data/local/tmp/desaysv-install-target.apk",
        "shell chmod 644 /data/local/tmp/desaysv-install-target.apk",
        "push /res/localinstall.apk /data/local/tmp/desaysv-localinstall.apk",
        "shell chmod 644 /data/local/tmp/desaysv-localinstall.apk",
        "shell pm list packages a.b",
        "shell CLASSPATH=/data/local/tmp/desaysv-localinstall.apk /system/bin/app_process /system/bin LocalInstall /data/local/tmp/desaysv-install-target.apk",
        "shell pm list packages a.b",
    ]
    .iter()
    .map(|c| c.to_string())
    .collect();
    expected.extend(grant_commands());
    for rest in [
        "shell am force-stop a.b",
        "shell monkey -p a.b -c android.intent.category.LAUNCHER 1",
        "shell rm -f /data/local/tmp/desaysv-install-target.apk /data/local/tmp/desaysv-localinstall.apk",
    ] {
        expected.push(rest.to_string());
    }
    assert_eq!(commands(&run.asked), expected);
    let mut log: Vec<String> = [
        "info: Копирую APK на устройство",
        "info: Копирую helper установки",
        "info: Устанавливаю APK через PackageInstaller.Session",
        "info: Installing",
        "warn: careful",
        "info: Пакет установлен: a.b",
    ]
    .iter()
    .map(|c| c.to_string())
    .collect();
    log.extend(grant_log());
    assert_eq!(run.log, log);
    let steps: Vec<String> =
        result.steps.iter().map(|s| format!("{}: {}", s.level, s.message)).collect();
    assert_eq!(steps, log);
}

#[test]
fn an_installed_version_is_uninstalled_first() {
    let run = drive(
        |s: &mut Session| install_apk(LINUX, "/home/me/x.apk", false, s),
        |q| head_unit(q, true),
    );
    assert!(run.result.is_ok());
    let all = commands(&run.asked);
    let uninstall = all.iter().position(|c| c == "shell pm uninstall a.b").unwrap();
    let install = all.iter().position(|c| c.contains("LocalInstall")).unwrap();
    assert_eq!(uninstall + 1, install);
    assert!(run.log.contains(&"info: Снимаю установленную версию a.b".to_string()));
}

#[test]
fn a_vehicle_is_managed_where_it_is_wanted() {
    let run = drive(
        |s: &mut Session| install_apk(LINUX, "/home/me/x.apk", true, s),
        |q| head_unit(q, true),
    );
    assert!(run.result.is_ok());
    let all = commands(&run.asked);
    assert_eq!(all[0], "shell setprop persist.sys.sv.isl true");
    let start = all.iter().rposition(|c| c == "shell setprop persist.sys.sv.isl true").unwrap();
    assert_eq!(
        all[start..],
        [
            "shell setprop persist.sys.sv.isl true",
            "shell pm grant a.b android.permission.READ_LOGS",
            "shell pm grant a.b android.permission.ACCESS_FINE_LOCATION",
            "shell pm grant a.b android.permission.ACCESS_BACKGROUND_LOCATION",
            "shell pm grant a.b android.permission.WRITE_SECURE_SETTINGS",
            "shell pm grant a.b android.permission.RECORD_AUDIO",
            "shell pm grant a.b android.permission.BLUETOOTH_CONNECT",
            "shell appops set a.b SYSTEM_ALERT_WINDOW allow",
            "shell appops set a.b REQUEST_INSTALL_PACKAGES allow",
            "shell appops set a.b MANAGE_EXTERNAL_STORAGE allow",
            "shell appops set a.b ACTIVATE_VPN allow",
            "shell appops set a.b android:write_settings allow",
            "shell appops set a.b android:mock_location allow",
            "shell cmd package query-services -a android.service.notification.NotificationListenerService a.b",
            "shell dumpsys package a.b",
            "shell cmd notification allow_listener a.b/.Listener",
            "shell dumpsys deviceidle whitelist +a.b",
            "shell cmd package query-receivers -a android.app.action.DEVICE_ADMIN_ENABLED a.b",
            "shell dumpsys package a.b",
            "shell am force-stop a.b",
            "shell monkey -p a.b -c android.intent.category.LAUNCHER 1",
            "shell rm -f /data/local/tmp/desaysv-install-target.apk /data/local/tmp/desaysv-localinstall.apk",
        ]
    );
    let tail = &run.log[run.log.len() - 4..];
    assert_eq!(
        tail,
        [
            "info: Applying vehicle-management compatibility commands",
            "info: Applying vehicle integration pre-install flag",
            "info: Applying Device Owner mode",
            "warn: No DeviceAdmin receiver found for package: a.b",
        ]
    );
}

#[test]
fn a_missing_apk_is_refused_at_once() {
    let run = drive(
        |s: &mut Session| install_apk(LINUX, "/none.apk", true, s),
        |_| Reply::Flag(false),
    );
    assert_eq!(run.message(), "APK не найден: /none.apk");
    assert_eq!(run.asked, ["apk is file /none.apk"]);
}

#[test]
fn a_package_that_does_not_appear_is_reported_with_the_reason() {
    let run = drive(
        |s: &mut Session| install_apk(LINUX, "/home/me/x.apk", false, s),
        |q| {
            if q.contains("logcat") {
                return ok("W/PackageManager: other\n W/PackageManager: a.b signatures do not match \n");
            }
            head_unit(q, false)
        },
    );
    assert_eq!(
        run.message(),
        "Установка a.b не завершилась: W/PackageManager: a.b signatures do not match"
    );
    assert_eq!(
        commands(&run.asked).last().unwrap(),
        "shell logcat -d -t 600 -s PackageManager:W"
    );
    let run = drive(
        |s: &mut Session| install_apk(LINUX, "/home/me/x.apk", false, s),
        |q| if q.contains("logcat") { io("gone") } else { head_unit(q, false) },
    );
    assert_eq!(
        run.message(),
        "Установка a.b не завершилась: причина не найдена в логе PackageManager"
    );
}

#[test]
fn without_a_name_the_new_package_is_looked_for() {
    let mut listed = 0;
    let run = drive(
        |s: &mut Session| install_apk(LINUX, "/home/me/x.apk", false, s),
        |q| {
            if q == "apk package /home/me/x.apk" {
                return io("unreadable");
            }
            if on_device(q) == Some("shell pm list packages") {
                listed += 1;
                return ok(if listed == 1 { "package:x.y\n" } else { "package:x.y\npackage:a.b\n" });
            }
            head_unit(q, true)
        },
    );
    assert_eq!(run.result.unwrap().package_name, "a.b");
    let all = commands(&run.asked);
    assert!(!all.contains(&"shell pm list packages a.b".to_string()));
    assert!(!all.contains(&"shell pm uninstall a.b".to_string()));

    let run = drive(
        |s: &mut Session| install_apk(LINUX, "/home/me/x.apk", false, s),
        |q| if q.starts_with("apk package") { io("unreadable") } else { head_unit(q, true) },
    );
    assert_eq!(
        run.message(),
        "APK установлен, но имя пакета не удалось определить автоматически"
    );
}

#[test]
fn a_copy_that_fails_ends_the_installation() {
    let run = drive(
        |s: &mut Session| install_apk(LINUX, "/home/me/x.apk", false, s),
        |q| {
            if q.contains(" push /res") {
                return ran(false, "half\n", "no space\n");
            }
            head_unit(q, true)
        },
    );
    assert_eq!(
        run.message(),
        "Команда завершилась с ошибкой: the command\nhalf\nno space\n"
    );
}

#[test]
fn a_missing_helper_is_explained() {
    let run = drive(
        |s: &mut Session| install_apk(LINUX, "/home/me/x.apk", false, s),
        |q| if q == "helper" { io("no such file") } else { head_unit(q, true) },
    );
    assert_eq!(run.message(), "Не найден localinstall.apk: no such file");
    let run = drive(|s: &mut Session| resource_localinstall(s), |_| Reply::Text("/h".to_string()));
    assert_eq!(run.result.unwrap(), "/h");
}

#[test]
fn granting_later_grants_what_installing_grants() {
    let run = drive(
        |s: &mut Session| grant_all_permissions(LINUX, "a.b", s),
        |q| head_unit(q, true),
    );
    let steps: Vec<String> =
        run.result.unwrap().iter().map(|s| format!("{}: {}", s.level, s.message)).collect();
    assert_eq!(steps, grant_log());
    let all = commands(&run.asked);
    assert_eq!(all[0], "shell pm list packages a.b");
    assert_eq!(all[1..], grant_commands()[..]);
    assert_eq!(run.asked[..3], READY);
}

#[test]
fn unsafe_names_are_refused_without_a_question() {
    let run = drive(|s: &mut Session| grant_all_permissions(LINUX, "a.b;id", s), |_| Reply::Done);
    assert_eq!(run.message(), "Некорректное имя пакета: a.b;id");
    assert_eq!(run.asked.len(), 0);
    let run = drive(|s: &mut Session| uninstall_package(LINUX, "nodots", s), |_| Reply::Done);
    assert_eq!(run.message(), "Invalid package name: nodots");
    assert_eq!(run.asked.len(), 0);
}

#[test]
fn packages_that_are_not_there_are_refused() {
    let run = drive(
        |s: &mut Session| grant_all_permissions(LINUX, "a.b", s),
        |q| head_unit(q, false),
    );
    assert_eq!(run.message(), "Пакет не установлен: a.b");
    let run =
        drive(|s: &mut Session| uninstall_package(LINUX, "a.b", s), |q| head_unit(q, false));
    assert_eq!(run.message(), "Package is not installed: a.b");
}

#[test]
fn a_package_is_uninstalled() {
    let run = drive(
        |s: &mut Session| uninstall_package(LINUX, "a.b", s),
        |q| {
            if q.ends_with("shell pm uninstall a.b") {
                return ran(true, "Success\n", "");
            }
            head_unit(q, true)
        },
    );
    assert_eq!(
        run.log,
        ["info: Uninstalling package: a.b", "info: Success", "info: Uninstalled: a.b"]
    );
    assert_eq!(run.result.unwrap().len(), 3);
    let run = drive(
        |s: &mut Session| uninstall_package(LINUX, "a.b", s),
        |q| {
            if q.ends_with("shell pm uninstall a.b") {
                return ran(false, "", "Failure");
            }
            head_unit(q, true)
        },
    );
    assert_eq!(run.message(), "Команда завершилась с ошибкой: the command\nFailure");
}

#[test]
fn uninstallable_packages_are_listed() {
    let run =
        drive(|s: &mut Session| list_uninstallable_packages(LINUX, s), |q| head_unit(q, true));
    assert_eq!(run.result.unwrap(), ["a.b", "z.z"]);
    assert_eq!(commands(&run.asked), ["shell pm list packages -3"]);
}

fn described(info: &DeviceInfo) -> String {
    format!(
        "{} {:?} {:?} {:?} {:?}",
        info.connected, info.adb_path, info.serial, info.model, info.android
    )
}

#[test]
fn a_device_is_checked() {
    let run = drive(|s: &mut Session| check_device(LINUX, s), |q| head_unit(q, true));
    assert_eq!(
        described(&run.result.unwrap()),
        "true Some(\"/data/adb/37.0.1/adb\") Some(\"bd6bf956\") Some(\"DesaySV T22\") Some(\"12\")"
    );
}

#[test]
fn what_a_device_does_not_tell_is_left_open() {
    let run = drive(
        |s: &mut Session| check_device(LINUX, s),
        |q| {
            if q.ends_with("ro.product.model") {
                return ran(false, "", "no");
            }
            if q.ends_with("ro.build.version.release") {
                return io("gone");
            }
            head_unit(q, true)
        },
    );
    assert_eq!(
        described(&run.result.unwrap()),
        "true Some(\"/data/adb/37.0.1/adb\") Some(\"bd6bf956\") None None"
    );
}

#[test]
fn that_no_device_is_there_is_no_error() {
    for reply in 0..3 {
        let run = drive(
            |s: &mut Session| check_device(LINUX, s),
            |q| {
                if q.ends_with("devices -l") {
                    return match reply {
                        0 => ok("List of devices attached\nbd6bf956 unauthorized\n"),
                        1 => ran(false, "", "daemon"),
                        _ => io("not there"),
                    };
                }
                head_unit(q, true)
            },
        );
        assert_eq!(
            described(&run.result.unwrap()),
            "false Some(\"/data/adb/37.0.1/adb\") None None None"
        );
    }
}

#[test]
fn adb_that_cannot_be_unpacked_is_an_error() {
    let run = drive(|s: &mut Session| check_device(LINUX, s), |_| io("no home"));
    assert_eq!(run.message(), "Не удалось получить app data dir: no home");
    let run = drive(|s: &mut Session| app_data_dir(s), |_| Reply::Done);
    assert!(run.result.is_ok());
    let run = drive(
        |s: &mut Session| check_device(LINUX, s),
        |q| match q {
            "data dir" => Reply::Done,
            "create adb/37.0.1.unpacking" => io("read only"),
            _ => Reply::Flag(false),
        },
    );
    assert!(matches!(run.result, Err(Halt::Failed(InstallerError::Io(e))) if e == "read only"));
}

fn fresh(question: &str, there: bool) -> Reply {
    match question.split(' ').next().unwrap() {
        "is" => Reply::Flag(false),
        "exists" => Reply::Flag(there),
        _ => Reply::Done,
    }
}

#[test]
fn adb_is_unpacked_beside_and_moved() {
    let run = drive(|s: &mut Session| ensure_adb(LINUX, s), |q| fresh(q, true));
    assert_eq!(run.result.unwrap(), ["adb", "37.0.1", "adb"]);
    assert_eq!(
        run.asked,
        [
            "data dir",
            "is file adb/37.0.1/adb",
            "exists android-platform-tools",
            "remove android-platform-tools",
            "exists adb/37.0.1.unpacking",
            "remove adb/37.0.1.unpacking",
            "create adb/37.0.1.unpacking",
            "unpack adb/37.0.1.unpacking",
            "mode adb/37.0.1.unpacking/adb 755",
            "exists adb/37.0.1",
            "remove adb/37.0.1",
            "rename adb/37.0.1.unpacking adb/37.0.1",
        ]
    );
    let run = drive(|s: &mut Session| ensure_adb(WINDOWS, s), |q| fresh(q, false));
    assert_eq!(run.result.unwrap(), ["adb", "37.0.1", "adb.exe"]);
    assert_eq!(
        run.asked,
        [
            "data dir",
            "is file adb/37.0.1/adb.exe",
            "exists android-platform-tools",
            "exists adb/37.0.1.unpacking",
            "create adb/37.0.1.unpacking",
            "unpack adb/37.0.1.unpacking",
            "exists adb/37.0.1",
            "rename adb/37.0.1.unpacking adb/37.0.1",
        ]
    );
}

#[test]
fn adb_that_is_there_is_used() {
    let run = drive(|s: &mut Session| ensure_adb(LINUX, s), |q| head_unit(q, true));
    assert_eq!(run.result.unwrap(), ["adb", "37.0.1", "adb"]);
    assert_eq!(run.asked, ["data dir", "is file adb/37.0.1/adb"]);
}

#[test]
fn an_unpacking_that_fails_leaves_the_kept_adb_alone() {
    let run = drive(
        |s: &mut Session| ensure_adb(LINUX, s),
        |q| if q.starts_with("unpack") { io("torn") } else { fresh(q, true) },
    );
    assert!(matches!(run.result, Err(Halt::Failed(InstallerError::Io(e))) if e == "torn"));
    assert!(!run.asked.iter().any(|q| q == "remove adb/37.0.1" || q.starts_with("rename")));
}

#[test]
fn the_head_unit_is_found() {
    let adb = target();
    let run = drive(|s: &mut Session| resolve_head_unit(&adb.path, s), |q| head_unit(q, true));
    let found = run.result.unwrap();
    assert_eq!((found.path, found.serial), (adb.path.clone(), "bd6bf956".to_string()));
    let run = drive(
        |s: &mut Session| ensure_device(&adb.path, s),
        |_| ok("a:1 device product:t22\nb:2 device product:g7ph\nbd6bf956 offline usb:1\n"),
    );
    assert_eq!(run.result.unwrap().serial, "b:2");
    let run = drive(|s: &mut Session| ensure_device(&adb.path, s), |_| ok("bd6bf956 offline\n"));
    assert_eq!(run.message(), "ADB-устройство не подключено или не авторизовано");
    let run = drive(
        |s: &mut Session| list_adb_devices(&adb.path, s),
        |_| ran(false, "out", "err"),
    );
    assert_eq!(run.message(), "Не удалось получить список ADB-устройств: outerr");
}

#[test]
fn commands_go_to_the_device() {
    let adb = target();
    let run = drive(|s: &mut Session| run_adb(&adb, &["shell", "id"], s), |_| ran(false, "o", "e"));
    let out = run.result.unwrap();
    assert_eq!((out.success, out.stdout.as_str(), out.stderr.as_str()), (false, "o", "e"));
    assert_eq!(run.asked, ["adb/37.0.1/adb: -s bd6bf956 shell id"]);
    let run = drive(
        |s: &mut Session| run_output(&adb.path, vec!["version".to_string()], s),
        |_| ok("v"),
    );
    assert_eq!(run.result.unwrap().stdout, "v");
    assert_eq!(run.asked, ["adb/37.0.1/adb: version"]);
    let run = drive(|s: &mut Session| run_adb_checked(&adb, &["x"], s), |_| ran(false, "o", "e"));
    assert_eq!(run.message(), "Команда завершилась с ошибкой: the command\noe");
    let run = drive(|s: &mut Session| run_adb_checked(&adb, &["x"], s), |_| ok("fine"));
    assert_eq!(run.result.unwrap().stdout, "fine");
    let run = drive(|s: &mut Session| run_adb_checked(&adb, &["x"], s), |_| io("gone"));
    assert!(matches!(run.result, Err(Halt::Failed(InstallerError::Io(e))) if e == "gone"));
}

#[test]
fn optional_commands_never_fail() {
    let adb = target();
    let run = drive(|s: &mut Session| run_adb_optional(&adb, &["x"], s), |_| ok("fine"));
    assert!(run.result.is_ok());
    assert_eq!(run.log.len(), 0);
    let run = drive(|s: &mut Session| run_adb_optional(&adb, &["x"], s), |_| ran(false, "o", "e"));
    assert!(run.result.is_ok());
    assert_eq!(
        run.log,
        ["warn: Необязательная команда завершилась с ошибкой: the command\ne"]
    );
    for (reply, words) in [
        (InstallerError::Io("gone".to_string()), "gone"),
        (InstallerError::Zip("torn".to_string()), "torn"),
        (InstallerError::message("no"), "no"),
    ] {
        let run = drive(
            |s: &mut Session| run_adb_optional(&adb, &["x"], s),
            |_| Reply::Failed(reply.copy()),
        );
        assert!(run.result.is_ok());
        assert_eq!(run.log, [format!("warn: Необязательная команда не выполнена: {}", words)]);
        assert_eq!(reply.text(), words);
    }
}

#[test]
fn a_reply_of_the_wrong_kind_stops_the_work() {
    let adb = target();
    let run = drive(|s: &mut Session| run_adb(&adb, &["x"], s), |_| Reply::Flag(true));
    assert!(matches!(run.result, Err(Halt::Unexpected)));
    let run = drive(|s: &mut Session| run_adb_optional(&adb, &["x"], s), |_| Reply::Done);
    assert!(matches!(run.result, Err(Halt::Unexpected)));
    let run = drive(|s: &mut Session| app_data_dir(s), |_| Reply::Flag(true));
    assert!(matches!(run.result, Err(Halt::Unexpected)));
}

#[test]
fn only_granted_permissions_are_logged() {
    let adb = target();
    let run = drive(
        |s: &mut Session| grant_manifest_permissions(&adb, "a.b", s),
        |q| {
            if q.ends_with("INTERNET") {
                return ran(false, "", "not changeable");
            }
            head_unit(q, true)
        },
    );
    assert!(run.result.is_ok());
    assert_eq!(
        run.log,
        [
            "info: Выдаю runtime permissions из manifest",
            "info: permission: android.permission.CAMERA",
        ]
    );
    let run = drive(
        |s: &mut Session| set_appops(&adb, "a.b", &["ONE", "TWO"], s),
        |q| ran(q.contains("TWO"), "", ""),
    );
    assert_eq!(run.log, ["info: appop: TWO=allow"]);
    assert_eq!(
        commands(&run.asked),
        ["shell appops set a.b ONE allow", "shell appops set a.b TWO allow"]
    );
    let run = drive(
        |s: &mut Session| set_appops(&adb, "a.b", &["ONE", "TWO"], s),
        |_| io("unplugged"),
    );
    assert!(matches!(run.result, Err(Halt::Failed(InstallerError::Io(_)))));
    assert_eq!(run.asked.len(), 1);
}

#[test]
fn mock_locations_are_allowed_again_until_they_are() {
    let adb = target();
    let mut reads = 0;
    let run = drive(
        |s: &mut Session| verify_mock_location(&adb, "a.b", s),
        |q| {
            if q.contains("appops get") {
                reads += 1;
                return ok(if reads == 3 { "MOCK_LOCATION: allow" } else { "ignore" });
            }
            head_unit(q, true)
        },
    );
    assert_eq!(run.log, ["info: Фиктивные местоположения разрешены"]);
    let get = "adb/37.0.1/adb: -s bd6bf956 shell cmd appops get a.b android:mock_location";
    let set = "adb/37.0.1/adb: -s bd6bf956 shell appops set a.b android:mock_location allow";
    assert_eq!(run.asked, [get, "sleep 2", set, get, "sleep 2", set, get]);
}

#[test]
fn mock_locations_are_given_up_after_four_attempts() {
    let adb = target();
    let run = drive(
        |s: &mut Session| verify_mock_location(&adb, "a.b", s),
        |q| if q.contains("appops get") { ok(" ignore\n") } else { head_unit(q, true) },
    );
    assert_eq!(
        run.log,
        ["warn: Фиктивные местоположения НЕ разрешены (ignore) — шеринг GPS работать не будет. \
          Выдайте вручную: adb shell appops set a.b android:mock_location allow"]
    );
    assert_eq!(run.asked.iter().filter(|q| q.contains("appops get")).count(), 4);
    assert_eq!(run.asked.len(), 10);
}

#[test]
fn everything_is_granted_without_listeners_too() {
    let adb = target();
    let run = drive(
        |s: &mut Session| grant_all_permissions_inner(&adb, "a.b", s),
        |q| {
            if q.contains("dumpsys package") {
                return ok("requested permissions:\n");
            }
            if q.contains("AUTO_REVOKE") {
                return ran(false, "", "");
            }
            head_unit(q, true)
        },
    );
    assert!(run.result.is_ok());
    assert!(!run.log.iter().any(|l| l.contains("уведомлениям") || l.contains("Авто-отзыв")));
    assert_eq!(run.log.last().unwrap(), "info: Все права выданы: a.b");
}

#[test]
fn listeners_and_administrators_are_found() {
    let adb = target();
    let world = |q: &str| {
        if q.contains("query-services") {
            ok("Service: a.b/.One\n")
        } else if q.contains("query-receivers") {
            ran(false, "a.b/.Ignored\n", "")
        } else {
            ok("a.b/.Two android.service.notification.NotificationListenerService\n\
                a.b/.One android.app.device_admin\n")
        }
    };
    let run = drive(|s: &mut Session| notification_listener_candidates(&adb, "a.b", s), world);
    assert_eq!(run.result.unwrap(), ["a.b/.One", "a.b/.Two"]);
    let run = drive(|s: &mut Session| device_admin_candidates(&adb, "a.b", s), world);
    assert_eq!(run.result.unwrap(), ["a.b/.Two", "a.b/.One"]);
    let run = drive(
        |s: &mut Session| device_admin_candidates(&adb, "a.b", s),
        |_| ran(false, "a.b/.X android.app.device_admin", ""),
    );
    assert_eq!(run.result.unwrap().len(), 0);
    let names = vec!["a.b/.One".to_string(), "a.b/.Two".to_string()];
    let run = drive(|s: &mut Session| allow_each_listener(&adb, &names, s), |_| ok(""));
    assert_eq!(
        commands(&run.asked),
        [
            "shell cmd notification allow_listener a.b/.One",
            "shell cmd notification allow_listener a.b/.Two",
        ]
    );
    let run = drive(|s: &mut Session| whitelist_package(&adb, "a.b", s), |_| ok(""));
    assert_eq!(commands(&run.asked), ["shell dumpsys deviceidle whitelist +a.b"]);
}

#[test]
fn the_first_receiver_that_works_is_the_owner() {
    let adb = target();
    let mut tried = String::new();
    let run = drive(
        |s: &mut Session| apply_device_owner_inner(&adb, "a.b", s),
        |q| {
            if let Some(at) = q.find("set-device-owner ") {
                tried = q[at + 17..].to_string();
                return ran(false, "", "refused\n");
            }
            if q.contains("get-device-owner") {
                return ok(if tried == "a.b/.Two" { "owner a.b" } else { "none" });
            }
            ok("a.b/.One a.b/.Two a.b/.Three")
        },
    );
    assert!(run.result.is_ok());
    assert_eq!(
        run.log,
        [
            "info: Applying Device Owner mode",
            "info: Trying Device Owner receiver: a.b/.One",
            "warn: refused",
            "info: Trying Device Owner receiver: a.b/.Two",
            "warn: refused",
            "info: Device Owner enabled: a.b/.Two",
        ]
    );
}

#[test]
fn without_an_owner_there_is_a_warning() {
    let adb = target();
    let run = drive(
        |s: &mut Session| apply_device_owner_inner(&adb, "a.b", s),
        |q| if q.contains("get-device-owner") { ran(false, "a.b", "") } else { ok("a.b/.One") },
    );
    assert_eq!(
        run.log.last().unwrap(),
        "warn: Device Owner was not enabled. Android may already be provisioned or have another owner."
    );
}

#[test]
fn the_vehicle_is_prepared() {
    let adb = target();
    let run = drive(|s: &mut Session| apply_vehicle_preinstall(&adb, s), |_| ok(""));
    assert_eq!(run.log, ["info: Applying vehicle integration pre-install flag"]);
    assert_eq!(commands(&run.asked), ["shell setprop persist.sys.sv.isl true"]);
    let run = drive(
        |s: &mut Session| apply_vehicle_management_inner(&adb, "a.b", s),
        |_| ran(false, "", "no"),
    );
    assert!(run.result.is_ok());
    assert_eq!(run.log.iter().filter(|l| l.starts_with("warn: ")).count(), 14);
}

#[test]
fn packages_are_asked_for() {
    let adb = target();
    let run = drive(|s: &mut Session| list_packages(&adb, s), |_| ok("package:a.b\npackage:c.d\n"));
    assert_eq!(run.result.unwrap(), ["a.b", "c.d"]);
    let run = drive(|s: &mut Session| list_packages(&adb, s), |_| ran(false, "", "no"));
    assert_eq!(run.message(), "Команда завершилась с ошибкой: the command\nno");
    let run = drive(
        |s: &mut Session| is_package_installed(&adb, "a.b", s),
        |_| ran(false, " package:a.b \n", ""),
    );
    assert!(run.result.unwrap());
    let before = vec!["a.b".to_string()];
    let run = drive(
        |s: &mut Session| detect_new_package(&adb, &before, s),
        |_| ok("package:a.b\npackage:c.d\n"),
    );
    assert_eq!(run.result.unwrap(), "c.d");
    let run = drive(
        |s: &mut Session| requested_permissions(&adb, "a.b", s),
        |q| head_unit(q, true),
    );
    assert_eq!(
        run.result.unwrap(),
        ["android.permission.CAMERA", "android.permission.INTERNET"]
    );
    let run = drive(
        |s: &mut Session| requested_permissions(&adb, "com.a", s),
        |_| ok("  requested permissions:\n    com.x.MY_PERM\n  install permissions:\n"),
    );
    assert_eq!(run.result.unwrap(), ["com.x.MY_PERM"]);
}

#[test]
fn output_is_logged_line_by_line() {
    let mut session = Session::new();
    let output = CommandOutput {
        success: true,
        stdout: "  one\n\n \ntwo\r\n".to_string(),
        stderr: "three\n".to_string(),
        command: String::new(),
    };
    append_output(&mut session, &output);
    let log: Vec<String> =
        session.steps().into_iter().map(|s| format!("{}: {}", s.level, s.message)).collect();
    assert_eq!(log, ["info:   one", "info: two", "warn: three"]);
}

#[test]
fn no_question_is_asked_twice_for_one_reply() {
    let mut session = Session::new();
    let adb = target();
    let mut asked: Vec<String> = Vec::new();
    loop {
        session.rewind();
        match grant_all_permissions_inner(&adb, "a.b", &mut session) {
            Err(Halt::Waiting(ask)) => {
                asked.push(show(&ask));
                session.answer(head_unit(asked.last().unwrap(), true));
            }
            other => {
                assert!(other.is_ok());
                break;
            }
        }
    }
    assert_eq!(commands(&asked), grant_commands());
    let before = session.steps().len();
    session.answer(Reply::Done);
    session.rewind();
    assert!(grant_all_permissions_inner(&adb, "a.b", &mut session).is_ok());
    assert_eq!(session.steps().len(), before);
}

#[test]
fn other_devices_are_not_touched() {
    let run = drive(
        |s: &mut Session| install_apk(LINUX, "/home/me/x.apk", true, s),
        |q| head_unit(q, true),
    );
    for question in run.asked.iter().filter(|q| q.starts_with("adb/37.0.1/adb: ")) {
        assert!(
            question == "adb/37.0.1/adb: devices -l" || on_device(question).is_some(),
            "{}",
            question
        );
    }
}
