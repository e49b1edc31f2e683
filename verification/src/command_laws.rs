//! What the commands of the user come to, told by the replies and by their parts.

use vstd::prelude::*;

use crate::commands::{install_args, list_added_args, uninstall_args, DeviceInfoView};
use crate::components::{describe_args, with_components, with_components_near};
use crate::error::ErrorView;
use crate::continuation::{follows, follows_on, stopped_stays};
use crate::grants::{appop_args, grant_args, listener_args, whitelist_args};
use crate::laws::{
    asked_in_order, each_optional_asks, old_version_goes_first, on_device, run_adb_asks,
    still_asked,
};
use crate::listing_laws::{is_name_letter, safe_package_names_are};
use crate::packages::uninstallable;
use crate::replay::{
    apply_vehicle_preinstall_steady, copied, each_optional_steady, finish_install_steady,
    install_apk_parts, installed, installed_package_steady, notification_listener_candidates_steady,
    ready_to_install, run_adb_optional_steady,
};
use crate::reply_laws::{adb_question, failed, gets, logged, past};
use crate::session::{output_steps, AskView, OutputView, ReplyView, Talk, TargetView};
use crate::tools::{adb_program, Platform};
use crate::vehicle::{preinstall_args, vehicle_appops, vehicle_permissions};
use crate::worklog::info;

verus! {

/// The words before an error from the surroundings of the application.
pub proof fn errors_of_the_surroundings_are_explained(t: Talk, e: ErrorView)
    requires
        gets(t, ReplyView::Failed(e)),
    ensures
        ({
            let text = match e {
                ErrorView::Message(text) => text,
                ErrorView::Io(text) => text,
                ErrorView::Zip(text) => text,
            };
            &&& t.app_data_dir() == failed(
                past(t, AskView::DataDir),
                ErrorView::Message("Не удалось получить app data dir: "@ + text),
            )
            &&& t.resource_localinstall().0 == failed(
                past(t, AskView::Helper),
                ErrorView::Message("Не найден localinstall.apk: "@ + text),
            )
        }),
{
}

/// Where adb is unpacked: beside the place where this version of it is kept.
pub open spec fn unpacking_place() -> Seq<Seq<char>> {
    seq!["adb"@, "37.0.1"@ + ".unpacking"@]
}

/// The place of adb once it is there.
pub open spec fn kept_place() -> Seq<Seq<char>> {
    seq!["adb"@, "37.0.1"@]
}

/// Unpacking that comes to its end has made the directory, unpacked adb into it, and then, where
/// files have permission bits, made the program one that can be run.
pub proof fn unpacking_makes_a_program(t: Talk, platform: Platform)
    requires
        t.stage_adb(platform).halt is None,
    ensures
        ({
            let start = t.remove_if_there(unpacking_place());
            let unpacked = start.asked.push(AskView::CreateDir(unpacking_place())).push(
                AskView::Unpack(unpacking_place()),
            );
            t.stage_adb(platform).asked == if platform.unix {
                unpacked.push(
                    AskView::SetMode(
                        unpacking_place().push(
                            if platform.windows {
                                "adb.exe"@
                            } else {
                                "adb"@
                            },
                        ),
                        0o755,
                    ),
                )
            } else {
                unpacked
            }
        }),
{
}

/// Where adb is not there yet, older tools are removed, adb is unpacked, and what is in its place is
/// removed before it is moved there.
pub proof fn missing_adb_is_unpacked(t: Talk, platform: Platform)
    ensures
        ({
            let program = kept_place().push(
                if platform.windows {
                    "adb.exe"@
                } else {
                    "adb"@
                },
            );
            let (known, there) = t.app_data_dir().flag(AskView::IsFile(program));
            t.ensure_adb(platform) == if there {
                known
            } else {
                known.remove_if_there(seq!["android-platform-tools"@]).stage_adb(
                    platform,
                ).remove_if_there(kept_place()).order(
                    AskView::Rename(unpacking_place(), kept_place()),
                )
            }
        }),
{
}

/// The candidates come from the words of the query and from the lines near a mark of the
/// description, each only where its command succeeded.
pub proof fn candidates_come_from_both_commands(
    t: Talk,
    adb: TargetView,
    package: Seq<char>,
    query: Seq<Seq<char>>,
    marks: Seq<Seq<char>>,
    named: OutputView,
    dump: OutputView,
)
    requires
        gets(t, ReplyView::Output(named)),
        gets(past(t, adb_question(adb, query)), ReplyView::Output(dump)),
    ensures
        ({
            let (after, found) = t.candidates(adb, package, query, marks);
            &&& after == past(
                past(t, adb_question(adb, query)),
                adb_question(adb, describe_args(package)),
            )
            &&& named.success && dump.success ==> found == with_components_near(
                package,
                dump.stdout,
                marks,
                with_components(package, named.stdout, seq![]),
            )
            &&& named.success && !dump.success ==> found == with_components(
                package,
                named.stdout,
                seq![],
            )
            &&& !named.success && dump.success ==> found == with_components_near(
                package,
                dump.stdout,
                marks,
                seq![],
            )
            &&& !named.success && !dump.success ==> found == Seq::<Seq<char>>::empty()
        }),
{
}

/// A device that is found is told with its serial number and with what it tells of itself; that none
/// is found is told without an error.
pub proof fn device_is_told(t: Talk, platform: Platform)
    requires
        t.ensure_adb(platform).text(
            AskView::ShowPath(adb_program(platform.windows)),
        ).0.halt is None,
    ensures
        ({
            let path = adb_program(platform.windows);
            let (ready, shown) = t.ensure_adb(platform).text(AskView::ShowPath(path));
            let (found, adb) = ready.resolve_head_unit(path);
            let (first, model) = found.maybe_property(adb, "ro.product.model"@);
            let (second, android) = first.maybe_property(adb, "ro.build.version.release"@);
            &&& found.halt is None ==> t.check_device(platform) == (
                second,
                DeviceInfoView {
                    connected: true,
                    adb_path: Some(shown),
                    serial: Some(adb.serial),
                    model,
                    android,
                },
            )
            &&& found.halt is Some && found.halt->0 is Failed ==> t.check_device(platform) == (
                Talk { halt: None, ..found },
                DeviceInfoView {
                    connected: false,
                    adb_path: Some(shown),
                    serial: None,
                    model: None,
                    android: None,
                },
            )
        }),
{
}

/// Uninstalling a package that is there asks for it, logs what the device says, and says that it is
/// done.
pub proof fn uninstalling_is_told(
    t: Talk,
    platform: Platform,
    package: Seq<char>,
    out: OutputView,
)
    requires
        exists|k: int| 0 <= k < package.len() && #[trigger] package[k] == '.',
        forall|i: int| 0 <= i < package.len() ==> is_name_letter(#[trigger] package[i]),
        gets(
            t.find_package(platform, package, "Package is not installed: "@).0,
            ReplyView::Output(out),
        ),
    ensures
        ({
            let (found, adb) = t.find_package(platform, package, "Package is not installed: "@);
            let after = past(
                logged(found, "info"@, "Uninstalling package: "@ + package),
                adb_question(adb, seq!["shell"@, "pm"@, "uninstall"@, package]),
            );
            let r = t.uninstall_package(platform, package);
            &&& out.success ==> r == logged(
                Talk { log: after.log + output_steps(out), ..after },
                "info"@,
                "Uninstalled: "@ + package,
            )
            &&& !out.success ==> r == failed(
                after,
                ErrorView::Message(
                    "Команда завершилась с ошибкой: "@ + out.command + "\n"@ + out.stdout
                        + out.stderr,
                ),
            )
        }),
{
    safe_package_names_are(package);
}

/// The packages that can be uninstalled are read from one command on the head unit.
pub proof fn uninstallable_are_asked_for(t: Talk, platform: Platform, out: OutputView)
    requires
        gets(
            t.ensure_adb(platform).resolve_head_unit(
                adb_program(platform.windows),
            ).0,
            ReplyView::Output(out),
        ),
        out.success,
    ensures
        ({
            let (found, adb) = t.ensure_adb(platform).resolve_head_unit(
                adb_program(platform.windows),
            );
            t.list_uninstallable_packages(platform) == (
                past(found, adb_question(adb, seq!["shell"@, "pm"@, "list"@, "packages"@, "-3"@])),
                uninstallable(out.stdout),
            )
        }),
{
    assert(list_added_args() =~= seq![
        "shell"@,
        "pm"@,
        "list"@,
        "packages"@,
        "-3"@,
    ]);
}

/// The installation runs the helper, logs what it wrote, and waits two seconds.
pub proof fn helper_is_run_and_waited_for(t: Talk, adb: TargetView, out: OutputView)
    requires
        gets(t, ReplyView::Output(out)),
    ensures
        ({
            let after = past(
                logged(t, "info"@, "Устанавливаю APK через PackageInstaller.Session"@),
                adb_question(
                    adb,
                    seq![
                        "shell"@,
                        "CLASSPATH="@ + "/data/local/tmp/desaysv-localinstall.apk"@
                            + " /system/bin/app_process /system/bin LocalInstall "@
                            + "/data/local/tmp/desaysv-install-target.apk"@,
                    ],
                ),
            );
            &&& out.success ==> t.start_install(adb) == (Talk {
                log: after.log + output_steps(out),
                ..after
            }).order(AskView::Sleep(2))
            &&& !out.success ==> t.start_install(adb) == failed(
                after,
                ErrorView::Message(
                    "Команда завершилась с ошибкой: "@ + out.command + "\n"@ + out.stdout
                        + out.stderr,
                ),
            )
        }),
{
}

/// The permissions of a package that manages the vehicle.
pub open spec fn managing_permissions() -> Seq<Seq<char>> {
    seq![
        "android.permission.READ_LOGS"@,
        "android.permission.ACCESS_FINE_LOCATION"@,
        "android.permission.ACCESS_BACKGROUND_LOCATION"@,
        "android.permission.WRITE_SECURE_SETTINGS"@,
        "android.permission.RECORD_AUDIO"@,
        "android.permission.BLUETOOTH_CONNECT"@,
    ]
}

/// The app operations of a package that manages the vehicle.
pub open spec fn managing_ops() -> Seq<Seq<char>> {
    seq![
        "SYSTEM_ALERT_WINDOW"@,
        "REQUEST_INSTALL_PACKAGES"@,
        "MANAGE_EXTERNAL_STORAGE"@,
        "ACTIVATE_VPN"@,
        "android:write_settings"@,
        "android:mock_location"@,
    ]
}

/// Whether the device was told to let the package manage the vehicle.
#[verifier::opaque]
pub open spec fn manages(
    t: Talk,
    adb: TargetView,
    package: Seq<char>,
    listeners: Seq<Seq<char>>,
) -> bool {
    &&& t.asked.contains(
        on_device(adb, seq!["shell"@, "setprop"@, "persist.sys.sv.isl"@, "true"@]),
    )
    &&& forall|permission: Seq<char>| #[trigger]
        managing_permissions().contains(permission) ==> t.asked.contains(
            on_device(adb, grant_args(package, permission)),
        )
    &&& forall|op: Seq<char>| #[trigger]
        managing_ops().contains(op) ==> t.asked.contains(on_device(adb, appop_args(package, op)))
    &&& forall|i: int|
        0 <= i < listeners.len() ==> t.asked.contains(
            on_device(adb, listener_args(#[trigger] listeners[i])),
        )
    &&& t.asked.contains(on_device(adb, whitelist_args(package)))
}

/// What managing the vehicle makes of a conversation, up to the notification listeners.
pub open spec fn managing(t: Talk, adb: TargetView, package: Seq<char>) -> Talk {
    t.say(info("Applying vehicle-management compatibility commands"@)).apply_vehicle_preinstall(
        adb,
    ).each_optional(
        adb,
        vehicle_permissions().map_values(|p: Seq<char>| grant_args(package, p)),
    ).each_optional(
        adb,
        vehicle_appops().map_values(|op: Seq<char>| appop_args(package, op)),
    )
}

/// Managing the vehicle that comes to its end has told the device all that it takes.
pub proof fn managing_is_complete(t: Talk, adb: TargetView, package: Seq<char>)
    requires
        t.apply_vehicle_management_inner(adb, package).halt is None,
    ensures
        manages(
            t.apply_vehicle_management_inner(adb, package),
            adb,
            package,
            managing(t, adb, package).notification_listener_candidates(adb, package).1,
        ),
{
    broadcast use {follows_on, stopped_stays};

    let permissions = vehicle_permissions();
    let ops = vehicle_appops();
    let grants = permissions.map_values(|p: Seq<char>| grant_args(package, p));
    let allows = ops.map_values(|op: Seq<char>| appop_args(package, op));
    let t1 = t.say(info("Applying vehicle-management compatibility commands"@));
    let t2 = t1.apply_vehicle_preinstall(adb);
    let t3 = t2.each_optional(adb, grants);
    let t4 = t3.each_optional(adb, allows);
    let (t5, listeners) = t4.notification_listener_candidates(adb, package);
    let allowed = listeners.map_values(|c: Seq<char>| listener_args(c));
    let t6 = t5.each_optional(adb, allowed);
    let after = t6.run_adb_optional(adb, whitelist_args(package));
    apply_vehicle_preinstall_steady(t1, t1, adb);
    each_optional_steady(t2, t2, adb, grants);
    each_optional_steady(t3, t3, adb, allows);
    notification_listener_candidates_steady(t4, t4, adb, package);
    each_optional_steady(t5, t5, adb, allowed);
    run_adb_optional_steady(t6, t6, adb, whitelist_args(package));
    assert(t6.halt is None && t4.halt is None && t3.halt is None && t1.halt is None);
    run_adb_asks(
        t1.say(info("Applying vehicle integration pre-install flag"@)),
        adb,
        preinstall_args(),
    );
    still_asked(t2, after, on_device(adb, preinstall_args()));
    each_optional_asks(t2, adb, grants);
    assert forall|permission: Seq<char>| permissions.contains(permission) implies after.asked.contains(
        on_device(adb, #[trigger] grant_args(package, permission)),
    ) by {
        let i = choose|i: int| 0 <= i < permissions.len() && permissions[i] == permission;
        assert(grants[i] == grant_args(package, permission));
        still_asked(t3, after, on_device(adb, grants[i]));
    }
    each_optional_asks(t3, adb, allows);
    assert forall|op: Seq<char>| ops.contains(op) implies after.asked.contains(
        on_device(adb, #[trigger] appop_args(package, op)),
    ) by {
        let i = choose|i: int| 0 <= i < ops.len() && ops[i] == op;
        assert(allows[i] == appop_args(package, op));
        still_asked(t4, after, on_device(adb, allows[i]));
    }
    each_optional_asks(t5, adb, allowed);
    assert forall|i: int| 0 <= i < listeners.len() implies after.asked.contains(
        on_device(adb, listener_args(#[trigger] listeners[i])),
    ) by {
        assert(allowed[i] == listener_args(listeners[i]));
        still_asked(t6, after, on_device(adb, allowed[i]));
    }
    run_adb_asks(t6, adb, whitelist_args(package));
    assert(managing_permissions() =~= permissions);
    assert(managing_ops() =~= ops);
    reveal(manages);
}

/// An installation that is to manage the vehicle does, and makes the package the owner; another does
/// neither.
pub proof fn vehicle_is_managed_where_it_is_wanted(t: Talk, adb: TargetView, package: Seq<char>)
    ensures
        t.manage_vehicle(adb, package, true) == t.apply_vehicle_management_inner(
            adb,
            package,
        ).apply_device_owner_inner(adb, package),
        t.manage_vehicle(adb, package, false) == t,
{
}

/// In an installation that comes to its end, a package which is there when the APK has been copied
/// is uninstalled before the APK is installed.
#[verifier::rlimit(40)]
pub proof fn installing_removes_what_is_there(
    t: Talk,
    platform: Platform,
    apk_path: Seq<char>,
    car_management: bool,
    package: Seq<char>,
)
    requires
        t.install_apk(platform, apk_path, car_management).0.halt is None,
        known_package(t, platform, apk_path, car_management).1 == Some(package),
        known_package(t, platform, apk_path, car_management).0.is_package_installed(
            ready_to_install(t, platform, apk_path).1,
            package,
        ).1,
    ensures
        asked_in_order(
            known_package(t, platform, apk_path, car_management).0,
            t.install_apk(platform, apk_path, car_management).0,
            on_device(
                ready_to_install(t, platform, apk_path).1,
                seq!["shell"@, "pm"@, "uninstall"@, package],
            ),
            on_device(ready_to_install(t, platform, apk_path).1, install_args()),
        ),
        t.install_apk(platform, apk_path, car_management).1 == package,
{
    broadcast use {follows_on, stopped_stays};

    let (t1, adb) = ready_to_install(t, platform, apk_path);
    let (t2, name) = installed(t1, adb, apk_path, car_management);
    let (ready, hint) = known_package(t, platform, apk_path, car_management);
    let t3 = ready.remove_installed(adb, hint).start_install(adb);
    let before = (if car_management {
        t1.apply_vehicle_preinstall(adb)
    } else {
        t1
    }).list_packages(adb).1;
    let after = t2.finish_install(adb, name, car_management);
    install_apk_parts(t, platform, apk_path, car_management);
    installed_package_steady(t3, t3, adb, hint, before);
    finish_install_steady(t2, t2, adb, name, car_management);
    assert(t3.halt is None);
    old_version_goes_first(ready, adb, package);
    still_in_order(
        ready,
        t3,
        after,
        on_device(adb, uninstall_args(package)),
        on_device(adb, install_args()),
    );
}

proof fn still_in_order(t: Talk, t1: Talk, after: Talk, first: AskView, second: AskView)
    requires
        asked_in_order(t, t1, first, second),
        follows(t1, after),
    ensures
        asked_in_order(t, after, first, second),
{
    reveal(follows);
    let (i, j) = choose|i: int, j: int|
        t.asked.len() <= i < j < t1.asked.len() && #[trigger] t1.asked[i] == first
            && #[trigger] t1.asked[j] == second;
    assert(after.asked[i] == first && after.asked[j] == second);
}

/// An installation when the APK has been copied, and the package name of the APK, if it was found.
pub open spec fn known_package(
    t: Talk,
    platform: Platform,
    apk_path: Seq<char>,
    car_management: bool,
) -> (Talk, Option<Seq<char>>) {
    let (t1, adb) = ready_to_install(t, platform, apk_path);
    let t2 = if car_management {
        t1.apply_vehicle_preinstall(adb)
    } else {
        t1
    };
    let (t3, hint) = t2.list_packages(adb).0.package_hint(apk_path);
    let (t4, helper) = t3.resource_localinstall();
    (copied(t4, adb, apk_path, helper), hint)
}

}
