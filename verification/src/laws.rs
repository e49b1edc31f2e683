//! What whole pieces of work promise, whatever the replies are.

use vstd::prelude::*;

use crate::commands::{
    clean_args, install_args, push_args, readable_args, start_args, stop_args, uninstall_args,
    REMOTE_APK, REMOTE_HELPER,
};
use crate::continuation::{begins_with, follows, follows_on, itself, stopped_stays};
use crate::grants::{
    appop_args, every_appop, grant_args, keep_unused_args, listener_args, mock_refused,
    mock_state_args, noted_appop, noted_grant, whitelist_args, NotedCommand, MOCK_LOCATION_ATTEMPTS,
};
use crate::packages::{first_new_is_new, is_package_name};
use crate::replay::{
    allow_listeners_steady, apply_vehicle_preinstall_steady, copy_to_device_steady,
    each_noted_steady, each_optional_steady, finish_install_steady, grant_all_permissions_resumes,
    grant_manifest_permissions_steady, granted, install_apk_parts, installed,
    installed_package_steady, list_packages_steady, manage_vehicle_steady, noted_steady,
    notification_listener_candidates_steady, package_hint_steady, ready_to_install,
    remove_installed_steady, resource_localinstall_steady, restart_and_clean_steady,
    run_adb_optional_steady, say_steady, set_appops_steady, start_install_steady,
    uninstall_package_resumes, verify_mock_from_steady, verify_mock_location_steady,
};
use crate::session::{AskView, Talk, TargetView};
use crate::tools::{adb_program, downloaded_tools, staged_program, staging_dir, tools_dir, Platform};
use crate::worklog::{info, warn};

verus! {

/// The question that asks for adb to be run on a device.
pub open spec fn on_device(adb: TargetView, args: Seq<Seq<char>>) -> AskView {
    AskView::Run(adb.path, seq!["-s"@, adb.serial] + args)
}

/// Whether the device was told to grant the package everything: each permission that it requests,
/// each app operation, each notification listener that it has, and freedom from the revocation of
/// unused permissions and from the limits on power; and was asked whether the package may mock
/// locations.
#[verifier::opaque]
pub open spec fn grants_all(
    t: Talk,
    adb: TargetView,
    package: Seq<char>,
    permissions: Seq<Seq<char>>,
    listeners: Seq<Seq<char>>,
) -> bool {
    &&& forall|i: int|
        0 <= i < permissions.len() ==> t.asked.contains(
            on_device(adb, grant_args(package, #[trigger] permissions[i])),
        )
    &&& forall|i: int|
        0 <= i < every_appop().len() ==> t.asked.contains(
            on_device(adb, appop_args(package, #[trigger] every_appop()[i])),
        )
    &&& forall|i: int|
        0 <= i < listeners.len() ==> t.asked.contains(
            on_device(adb, listener_args(#[trigger] listeners[i])),
        )
    &&& t.asked.contains(on_device(adb, keep_unused_args(package)))
    &&& t.asked.contains(on_device(adb, whitelist_args(package)))
    &&& t.asked.contains(on_device(adb, mock_state_args(package)))
}

pub(crate) proof fn still_asked(t: Talk, after: Talk, q: AskView)
    requires
        follows(t, after),
        t.asked.contains(q),
    ensures
        after.asked.contains(q),
{
    reveal(follows);
    let i = choose|i: int| 0 <= i < t.asked.len() && t.asked[i] == q;
    assert(after.asked[i] == q);
}

pub(crate) proof fn run_adb_asks(t: Talk, adb: TargetView, args: Seq<Seq<char>>)
    requires
        t.halt is None,
    ensures
        t.run_adb(adb, args).0.asked.contains(on_device(adb, args)),
        t.run_adb_optional(adb, args).asked.contains(on_device(adb, args)),
{
    let asked = t.asked.push(on_device(adb, args));
    assert(asked.last() == on_device(adb, args));
}

proof fn noted_asks(t: Talk, adb: TargetView, command: NotedCommand)
    requires
        t.halt is None,
    ensures
        t.noted(adb, command).asked.contains(on_device(adb, command.args)),
{
    run_adb_asks(t, adb, command.args);
}

proof fn each_noted_asks(t: Talk, adb: TargetView, commands: Seq<NotedCommand>)
    requires
        t.each_noted(adb, commands).halt is None,
    ensures
        t.halt is None,
        forall|i: int|
            0 <= i < commands.len() ==> t.each_noted(adb, commands).asked.contains(
                on_device(adb, (#[trigger] commands[i]).args),
            ),
    decreases commands.len(),
{
    if commands.len() > 0 {
        let t1 = t.noted(adb, commands[0]);
        let t2 = t1.each_noted(adb, commands.skip(1));
        noted_asks(t, adb, commands[0]);
        each_noted_asks(t1, adb, commands.skip(1));
        each_noted_steady(t1, t1, adb, commands.skip(1));
        still_asked(t1, t2, on_device(adb, commands[0].args));
        assert forall|i: int| 0 <= i < commands.len() implies t2.asked.contains(
            on_device(adb, (#[trigger] commands[i]).args),
        ) by {
            if i > 0 {
                assert(commands.skip(1)[i - 1] == commands[i]);
            }
        }
    }
}

pub(crate) proof fn each_optional_asks(t: Talk, adb: TargetView, commands: Seq<Seq<Seq<char>>>)
    requires
        t.each_optional(adb, commands).halt is None,
    ensures
        t.halt is None,
        forall|i: int|
            0 <= i < commands.len() ==> t.each_optional(adb, commands).asked.contains(
                on_device(adb, #[trigger] commands[i]),
            ),
    decreases commands.len(),
{
    if commands.len() > 0 {
        let t1 = t.run_adb_optional(adb, commands[0]);
        let t2 = t1.each_optional(adb, commands.skip(1));
        run_adb_asks(t, adb, commands[0]);
        each_optional_asks(t1, adb, commands.skip(1));
        each_optional_steady(t1, t1, adb, commands.skip(1));
        still_asked(t1, t2, on_device(adb, commands[0]));
        assert forall|i: int| 0 <= i < commands.len() implies t2.asked.contains(
            on_device(adb, #[trigger] commands[i]),
        ) by {
            if i > 0 {
                assert(commands.skip(1)[i - 1] == commands[i]);
            }
        }
    }
}

/// The permissions that granting everything finds the package to request.
pub open spec fn found_permissions(t: Talk, adb: TargetView, package: Seq<char>) -> Seq<Seq<char>> {
    t.say(info("Выдаю все права: "@ + package)).say(
        info("Выдаю runtime permissions из manifest"@),
    ).requested_permissions(adb, package).1
}

/// The notification listeners that granting everything finds the package to have.
pub open spec fn found_listeners(t: Talk, adb: TargetView, package: Seq<char>) -> Seq<Seq<char>> {
    granted(t, adb, package).notification_listener_candidates(adb, package).1
}

/// Granting everything that comes to its end has told the device to grant everything, and says so
/// in the last entry of the log.
pub proof fn granting_is_complete(t: Talk, adb: TargetView, package: Seq<char>)
    requires
        t.grant_all_permissions_inner(adb, package).halt is None,
    ensures
        ({
            let after = t.grant_all_permissions_inner(adb, package);
            &&& grants_all(
                after,
                adb,
                package,
                found_permissions(t, adb, package),
                found_listeners(t, adb, package),
            )
            &&& after.log.last() == info("Все права выданы: "@ + package)
        }),
{
    broadcast use {follows_on, stopped_stays};

    let t1 = t.say(info("Выдаю все права: "@ + package));
    let t2 = t1.grant_manifest_permissions(adb, package);
    let all_ops = info("Выставляю полный набор appops (фон, установка, VPN, экран, геолокация)"@);
    let t3 = t2.say(all_ops);
    let t4 = t3.set_appops(adb, package, every_appop());
    let keep = NotedCommand {
        args: keep_unused_args(package),
        note: "Авто-отзыв неиспользуемых прав отключён"@,
    };
    let t5 = t4.noted(adb, keep);
    let t6 = t5.say(info("Исключаю из ограничений экономии батареи"@));
    let t7 = t6.run_adb_optional(adb, whitelist_args(package));
    let (t8, listeners) = t7.notification_listener_candidates(adb, package);
    let t9 = t8.allow_listeners(adb, listeners);
    let t10 = t9.verify_mock_location(adb, package);
    let last = info("Все права выданы: "@ + package);
    let after = t10.say(last);
    grant_manifest_permissions_steady(t1, t1, adb, package);
    say_steady(t2, t2, all_ops);
    set_appops_steady(t3, t3, adb, package, every_appop());
    noted_steady(t4, t4, adb, keep);
    say_steady(t5, t5, info("Исключаю из ограничений экономии батареи"@));
    run_adb_optional_steady(t6, t6, adb, whitelist_args(package));
    notification_listener_candidates_steady(t7, t7, adb, package);
    allow_listeners_steady(t8, t8, adb, listeners);
    verify_mock_location_steady(t9, t9, adb, package);
    say_steady(t10, t10, last);
    assert(t9.halt is None && t7.halt is None && t6.halt is None && t4.halt is None);
    let permissions = found_permissions(t, adb, package);
    let grants = permissions.map_values(|p: Seq<char>| noted_grant(package, p));
    let asking = t1.say(info("Выдаю runtime permissions из manifest"@)).requested_permissions(
        adb,
        package,
    ).0;
    each_noted_asks(asking, adb, grants);
    assert forall|i: int| 0 <= i < permissions.len() implies after.asked.contains(
        on_device(adb, grant_args(package, #[trigger] permissions[i])),
    ) by {
        assert(grants[i].args == grant_args(package, permissions[i]));
        still_asked(t2, after, on_device(adb, grants[i].args));
    }
    let ops = every_appop().map_values(|op: Seq<char>| noted_appop(package, op));
    each_noted_asks(t3, adb, ops);
    assert forall|i: int| 0 <= i < every_appop().len() implies after.asked.contains(
        on_device(adb, appop_args(package, #[trigger] every_appop()[i])),
    ) by {
        assert(ops[i].args == appop_args(package, every_appop()[i]));
        still_asked(t4, after, on_device(adb, ops[i].args));
    }
    noted_asks(t4, adb, keep);
    still_asked(t5, after, on_device(adb, keep.args));
    run_adb_asks(t6, adb, whitelist_args(package));
    still_asked(t7, after, on_device(adb, whitelist_args(package)));
    let allowing = t8.say(info("Разрешаю доступ к уведомлениям"@));
    let allowed = listeners.map_values(|c: Seq<char>| listener_args(c));
    if listeners.len() > 0 {
        each_optional_asks(allowing, adb, allowed);
    }
    assert forall|i: int| 0 <= i < listeners.len() implies after.asked.contains(
        on_device(adb, listener_args(#[trigger] listeners[i])),
    ) by {
        assert(allowed[i] == listener_args(listeners[i]));
        still_asked(t9, after, on_device(adb, allowed[i]));
    }
    mock_is_checked(t9, adb, package);
    still_asked(t10, after, on_device(adb, mock_state_args(package)));
    reveal(grants_all);
}

proof fn mock_is_checked(t: Talk, adb: TargetView, package: Seq<char>)
    requires
        t.halt is None,
    ensures
        t.verify_mock_location(adb, package).asked.contains(on_device(adb, mock_state_args(package))),
{
    let (t1, out) = t.run_adb(adb, mock_state_args(package));
    run_adb_asks(t, adb, mock_state_args(package));
    let step = info("Фиктивные местоположения разрешены"@);
    say_steady(t1, t1, step);
    verify_mock_from_steady(t1, t1, adb, package, 1, out.stdout);
    still_asked(
        t1,
        t.verify_mock_location(adb, package),
        on_device(adb, mock_state_args(package)),
    );
}

/// Whether the last that was asked was to stop the package, to start it and to clean up.
#[verifier::opaque]
pub open spec fn ends_restarted(t: Talk, adb: TargetView, package: Seq<char>) -> bool {
    let n = t.asked.len() as int;
    &&& n >= 3
    &&& t.asked[n - 3] == on_device(adb, stop_args(package))
    &&& t.asked[n - 2] == on_device(adb, start_args(package))
    &&& t.asked[n - 1] == on_device(adb, clean_args())
}

/// Finishing an installation grants the package everything, and then restarts it and cleans up.
pub proof fn finishing_is_complete(
    t: Talk,
    adb: TargetView,
    package: Seq<char>,
    car_management: bool,
)
    requires
        t.finish_install(adb, package, car_management).halt is None,
    ensures
        ({
            let after = t.finish_install(adb, package, car_management);
            let granting = t.say(info("Пакет установлен: "@ + package));
            &&& grants_all(
                after,
                adb,
                package,
                found_permissions(granting, adb, package),
                found_listeners(granting, adb, package),
            )
            &&& ends_restarted(after, adb, package)
        }),
{
    broadcast use {follows_on, stopped_stays};

    let t1 = t.say(info("Пакет установлен: "@ + package));
    let t2 = t1.grant_all_permissions_inner(adb, package);
    let t3 = t2.manage_vehicle(adb, package, car_management);
    let t4 = t3.restart_and_clean(adb, package);
    manage_vehicle_steady(t2, t2, adb, package, car_management);
    restart_and_clean_steady(t3, t3, adb, package);
    granting_is_complete(t1, adb, package);
    reveal(ends_restarted);
    kept_grants(
        t2,
        t4,
        adb,
        package,
        found_permissions(t1, adb, package),
        found_listeners(t1, adb, package),
    );
    assert(t3.halt is None);
}

proof fn kept_grants(
    t: Talk,
    after: Talk,
    adb: TargetView,
    package: Seq<char>,
    permissions: Seq<Seq<char>>,
    listeners: Seq<Seq<char>>,
)
    requires
        follows(t, after),
        grants_all(t, adb, package, permissions, listeners),
    ensures
        grants_all(after, adb, package, permissions, listeners),
{
    reveal(grants_all);
    assert forall|q: AskView| t.asked.contains(q) implies #[trigger] after.asked.contains(q) by {
        still_asked(t, after, q);
    }
}

/// Whether granting everything, begun at `t`, has told the device to grant the package everything
/// that it was found to need.
#[verifier::opaque]
pub open spec fn granted_all(t: Talk, after: Talk, adb: TargetView, package: Seq<char>) -> bool {
    grants_all(
        after,
        adb,
        package,
        found_permissions(t, adb, package),
        found_listeners(t, adb, package),
    )
}

/// An APK that was installed was granted everything on the head unit, and was restarted there at
/// last.
pub proof fn installing_is_complete(
    t: Talk,
    platform: Platform,
    apk_path: Seq<char>,
    car_management: bool,
)
    requires
        t.install_apk(platform, apk_path, car_management).0.halt is None,
    ensures
        ({
            let (t1, adb) = ready_to_install(t, platform, apk_path);
            let (t2, package) = installed(t1, adb, apk_path, car_management);
            let after = t.install_apk(platform, apk_path, car_management).0;
            &&& t.install_apk(platform, apk_path, car_management).1 == package
            &&& granted_all(t2.say(info("Пакет установлен: "@ + package)), after, adb, package)
            &&& ends_restarted(after, adb, package)
        }),
{
    let (t1, adb) = ready_to_install(t, platform, apk_path);
    let (t2, package) = installed(t1, adb, apk_path, car_management);
    install_apk_parts(t, platform, apk_path, car_management);
    finished_is_complete(t2, adb, package, car_management);
}

proof fn finished_is_complete(
    t: Talk,
    adb: TargetView,
    package: Seq<char>,
    car_management: bool,
)
    requires
        t.finish_install(adb, package, car_management).halt is None,
    ensures
        granted_all(
            t.say(info("Пакет установлен: "@ + package)),
            t.finish_install(adb, package, car_management),
            adb,
            package,
        ),
        ends_restarted(t.finish_install(adb, package, car_management), adb, package),
{
    reveal(granted_all);
    finishing_is_complete(t, adb, package, car_management);
}

/// A package that was granted everything later was granted what it is granted when it is
/// installed.
pub proof fn granting_later_is_complete(t: Talk, platform: Platform, package: Seq<char>)
    requires
        t.grant_all_permissions(platform, package).halt is None,
    ensures
        ({
            let (t1, adb) = t.require_safe_name(
                package,
                "Некорректное имя пакета: "@,
            ).find_package(platform, package, "Пакет не установлен: "@);
            granted_all(t1, t.grant_all_permissions(platform, package), adb, package)
        }),
{
    let (t1, adb) = t.require_safe_name(package, "Некорректное имя пакета: "@).find_package(
        platform,
        package,
        "Пакет не установлен: "@,
    );
    granting_is_complete(t1, adb, package);
    reveal(granted_all);
}

/// Whether `second` was asked, and `first` before it, after `t`.
pub open spec fn asked_in_order(t: Talk, after: Talk, first: AskView, second: AskView) -> bool {
    exists|i: int, j: int|
        t.asked.len() <= i < j < after.asked.len() && #[trigger] after.asked[i] == first
            && #[trigger] after.asked[j] == second
}

/// A package that is there already is uninstalled before the APK is installed.
pub proof fn old_version_goes_first(t: Talk, adb: TargetView, package: Seq<char>)
    requires
        t.is_package_installed(adb, package).1,
        t.remove_installed(adb, Some(package)).start_install(adb).halt is None,
    ensures
        asked_in_order(
            t,
            t.remove_installed(adb, Some(package)).start_install(adb),
            on_device(adb, uninstall_args(package)),
            on_device(adb, install_args()),
        ),
{
    let t1 = t.remove_installed(adb, Some(package));
    let t2 = t1.start_install(adb);
    let n = t.asked.len() as int;
    assert(t2.asked[n + 1] == on_device(adb, uninstall_args(package)));
    assert(t2.asked[n + 2] == on_device(adb, install_args()));
}

/// A package that is reported as installed is one that the device lists after the installation:
/// the one of the APK, if its name is known, and else one that was not there before.
pub proof fn reported_package_is_there(
    t: Talk,
    adb: TargetView,
    hint: Option<Seq<char>>,
    before: Seq<Seq<char>>,
)
    requires
        t.installed_package(adb, hint, before).0.halt is None,
    ensures
        ({
            let package = t.installed_package(adb, hint, before).1;
            match hint {
                Some(name) => package == name && t.is_package_installed(adb, name).1,
                None => t.list_packages(adb).1.contains(package) && !before.contains(package),
            }
        }),
{
    first_new_is_new(t.list_packages(adb).1, before);
}

/// Work that is optional never fails, whatever the device replies: it goes on, or it waits.
pub proof fn optional_work_never_fails(t: Talk, adb: TargetView, commands: Seq<Seq<Seq<char>>>)
    requires
        t.halt is None,
    ensures
        t.each_optional(adb, commands).halt matches Some(halt) ==> halt !is Failed,
    decreases commands.len(),
{
    if commands.len() > 0 {
        let t1 = t.run_adb_optional(adb, commands[0]);
        if t1.halt is None {
            optional_work_never_fails(t1, adb, commands.skip(1));
        } else {
            each_optional_steady(t1, t1, adb, commands.skip(1));
            assert(t1.each_optional(adb, commands.skip(1)) == t1) by {
                broadcast use stopped_stays;

            }
        }
    }
}

/// A name that is not safe to hand to a shell is refused before anything is asked.
pub proof fn unsafe_names_are_refused(t: Talk, platform: Platform, package: Seq<char>)
    requires
        t.halt is None,
        !is_package_name(package),
    ensures
        t.grant_all_permissions(platform, package) == t.fail(
            "Некорректное имя пакета: "@ + package,
        ),
        t.uninstall_package(platform, package) == t.fail("Invalid package name: "@ + package),
{
    broadcast use stopped_stays;

    let t1 = t.fail("Некорректное имя пакета: "@ + package);
    grant_all_permissions_resumes(t1, seq![], platform, package);
    let t2 = t.fail("Invalid package name: "@ + package);
    uninstall_package_resumes(t2, seq![], platform, package);
}

/// Making sure that a package may mock locations takes no more attempts than are allowed, and comes
/// to an end with one entry in the log: that it may, or that it may not.
pub proof fn mock_attempts_are_bounded(
    t: Talk,
    adb: TargetView,
    package: Seq<char>,
    attempt: nat,
    state: Seq<char>,
)
    requires
        t.halt is None,
        attempt <= MOCK_LOCATION_ATTEMPTS,
    ensures
        ({
            let after = t.verify_mock_from(adb, package, attempt, state);
            &&& after.asked.len() <= t.asked.len() + 3 * (MOCK_LOCATION_ATTEMPTS - attempt)
            &&& after.halt is None ==> {
                ||| after.log == t.log.push(info("Фиктивные местоположения разрешены"@))
                ||| exists|read: Seq<char>|
                    after.log == t.log.push(warn(#[trigger] mock_refused(package, read)))
            }
        }),
    decreases MOCK_LOCATION_ATTEMPTS - attempt,
{
    broadcast use stopped_stays;

    if attempt < MOCK_LOCATION_ATTEMPTS {
        let ready = if attempt > 0 {
            t.allow_mock_again(adb, package)
        } else {
            t
        };
        let (t1, out) = ready.run_adb(adb, mock_state_args(package));
        if t1.halt is None {
            mock_attempts_are_bounded(t1, adb, package, attempt + 1, out.stdout);
        } else {
            verify_mock_from_steady(t1, t1, adb, package, attempt + 1, out.stdout);
        }
    }
}

/// Whether question `i` leaves the adb that is kept as it is, or comes when a new one lies ready
/// beside it.
pub open spec fn is_careful(asked: Seq<AskView>, start: int, windows: bool, i: int) -> bool {
    match asked[i] {
        AskView::CreateDir(dir) => dir == staging_dir(),
        AskView::Unpack(dir) => dir == staging_dir(),
        AskView::SetMode(file, _) => file == staged_program(windows),
        AskView::RemoveDir(dir) => dir == tools_dir() ==> exists|j: int|
            start <= j < i && #[trigger] asked[j] == AskView::Unpack(staging_dir()),
        AskView::Rename(from, to) => from == staging_dir() && to == tools_dir() && i
            == asked.len() - 1,
        _ => true,
    }
}

proof fn directories_differ()
    ensures
        staging_dir() != tools_dir(),
        downloaded_tools() != tools_dir(),
{
    reveal_strlit(".unpacking");
    assert(staging_dir()[1].len() > tools_dir()[1].len());
    assert(downloaded_tools().len() < tools_dir().len());
}

/// Whether a question has nothing to do with the adb that is kept.
spec fn is_harmless(windows: bool, q: AskView) -> bool {
    match q {
        AskView::CreateDir(dir) => dir == staging_dir(),
        AskView::Unpack(dir) => dir == staging_dir(),
        AskView::SetMode(file, _) => file == staged_program(windows),
        AskView::RemoveDir(dir) => dir != tools_dir(),
        AskView::Rename(..) => false,
        _ => true,
    }
}

/// Whether all that was asked from `t` to `after` was harmless.
spec fn goes_harmlessly(windows: bool, t: Talk, after: Talk) -> bool {
    &&& begins_with(after.asked, t.asked)
    &&& forall|i: int|
        t.asked.len() <= i < after.asked.len() ==> is_harmless(windows, #[trigger] after.asked[i])
}

proof fn staging_is_harmless(t: Talk, platform: Platform)
    ensures
        goes_harmlessly(platform.windows, t, t.stage_adb(platform)),
        t.stage_adb(platform).halt is None ==> exists|j: int|
            t.asked.len() <= j < t.stage_adb(platform).asked.len() && #[trigger] t.stage_adb(
                platform,
            ).asked[j] == AskView::Unpack(staging_dir()),
{
    directories_differ();
    let t1 = t.remove_if_there(staging_dir());
    assert(goes_harmlessly(platform.windows, t, t1));
    let t2 = t1.order(AskView::CreateDir(staging_dir()));
    assert(goes_harmlessly(platform.windows, t1, t2));
    let t3 = t2.order(AskView::Unpack(staging_dir()));
    assert(goes_harmlessly(platform.windows, t2, t3));
    let t4 = t.stage_adb(platform);
    assert(goes_harmlessly(platform.windows, t3, t4));
    if t4.halt is None {
        assert(t4.asked[t2.asked.len() as int] == AskView::Unpack(staging_dir()));
    }
}

/// The adb that is kept is not touched before a new one is unpacked beside it, and the new one is
/// put in its place with the last question.
pub proof fn adb_is_replaced_carefully(t: Talk, platform: Platform)
    requires
        t.halt is None,
    ensures
        forall|i: int|
            t.asked.len() <= i < t.ensure_adb(platform).asked.len() ==> #[trigger] is_careful(
                t.ensure_adb(platform).asked,
                t.asked.len() as int,
                platform.windows,
                i,
            ),
{
    let n = t.asked.len() as int;
    let after = t.ensure_adb(platform);
    let t1 = t.app_data_dir().flag(AskView::IsFile(adb_program(platform.windows))).0;
    assert(goes_harmlessly(platform.windows, t, t1));
    let t2 = t1.remove_if_there(downloaded_tools());
    directories_differ();
    assert(goes_harmlessly(platform.windows, t1, t2));
    let t3 = t2.stage_adb(platform);
    staging_is_harmless(t2, platform);
    let t4 = t3.remove_if_there(tools_dir());
    assert forall|i: int| n <= i < after.asked.len() implies #[trigger] is_careful(
        after.asked,
        n,
        platform.windows,
        i,
    ) by {
        if after != t1 {
            assert(begins_with(after.asked, t3.asked));
            if i < t3.asked.len() {
                assert(t3.asked[i] == after.asked[i]);
                assert(is_harmless(platform.windows, t3.asked[i]));
            } else {
                assert(t3.halt is None);
                let j = choose|j: int|
                    t2.asked.len() <= j < t3.asked.len() && #[trigger] t3.asked[j]
                        == AskView::Unpack(staging_dir());
                assert(after.asked[j] == AskView::Unpack(staging_dir()));
            }
        } else {
            assert(is_harmless(platform.windows, t1.asked[i]));
        }
    }
}

/// Where adb is kept already, nothing is changed.
pub proof fn kept_adb_is_used(t: Talk, platform: Platform)
    requires
        t.halt is None,
        t.app_data_dir().flag(AskView::IsFile(adb_program(platform.windows))).1,
    ensures
        t.ensure_adb(platform).asked == t.asked.push(AskView::DataDir).push(
            AskView::IsFile(adb_program(platform.windows)),
        ),
{
}

/// Once adb is made sure of, it was there already or was moved there with the last question.
pub proof fn adb_is_there_at_last(t: Talk, platform: Platform)
    requires
        t.ensure_adb(platform).halt is None,
    ensures
        ({
            let known = t.app_data_dir().flag(AskView::IsFile(adb_program(platform.windows)));
            ||| known.1
            ||| t.ensure_adb(platform).asked.last() == AskView::Rename(staging_dir(), tools_dir())
        }),
{
}

proof fn copying_asks(t: Talk, adb: TargetView, from: Seq<char>, to: Seq<char>)
    requires
        t.copy_to_device(adb, from, to).halt is None,
    ensures
        t.copy_to_device(adb, from, to).asked == t.asked.push(
            on_device(adb, push_args(from, to)),
        ).push(on_device(adb, readable_args(to))),
{
}

/// The helper that is found on the way to an installation which begins at `t`.
pub open spec fn helper_found(
    t: Talk,
    adb: TargetView,
    apk_path: Seq<char>,
    car_management: bool,
) -> Seq<char> {
    let ready = if car_management {
        t.apply_vehicle_preinstall(adb)
    } else {
        t
    };
    ready.list_packages(adb).0.package_hint(apk_path).0.resource_localinstall().1
}

/// Whether from `t` to `after` the APK was copied to the device and made readable, then the helper
/// was, and then the helper was told to install the APK.
pub open spec fn is_brought(
    t: Talk,
    after: Talk,
    adb: TargetView,
    apk_path: Seq<char>,
    helper: Seq<char>,
) -> bool {
    exists|i: int, j: int|
        {
            &&& t.asked.len() <= i
            &&& i + 3 < j < after.asked.len()
            &&& #[trigger] after.asked[i] == on_device(adb, push_args(apk_path, REMOTE_APK@))
            &&& after.asked[i + 1] == on_device(adb, readable_args(REMOTE_APK@))
            &&& after.asked[i + 2] == on_device(adb, push_args(helper, REMOTE_HELPER@))
            &&& after.asked[i + 3] == on_device(adb, readable_args(REMOTE_HELPER@))
            &&& #[trigger] after.asked[j] == on_device(adb, install_args())
        }
}

proof fn still_brought(
    t: Talk,
    t1: Talk,
    after: Talk,
    adb: TargetView,
    apk_path: Seq<char>,
    helper: Seq<char>,
)
    requires
        is_brought(t, t1, adb, apk_path, helper),
        follows(t1, after),
    ensures
        is_brought(t, after, adb, apk_path, helper),
{
    reveal(follows);
    let (i, j) = choose|i: int, j: int|
        {
            &&& t.asked.len() <= i
            &&& i + 3 < j < t1.asked.len()
            &&& #[trigger] t1.asked[i] == on_device(adb, push_args(apk_path, REMOTE_APK@))
            &&& t1.asked[i + 1] == on_device(adb, readable_args(REMOTE_APK@))
            &&& t1.asked[i + 2] == on_device(adb, push_args(helper, REMOTE_HELPER@))
            &&& t1.asked[i + 3] == on_device(adb, readable_args(REMOTE_HELPER@))
            &&& #[trigger] t1.asked[j] == on_device(adb, install_args())
        };
    assert(after.asked[i] == t1.asked[i] && after.asked[j] == t1.asked[j]);
}

/// An APK that was installed was copied to the head unit and made readable there, then the helper
/// was, and then the helper was told to install the APK.
pub proof fn installing_copies_and_installs(
    t: Talk,
    platform: Platform,
    apk_path: Seq<char>,
    car_management: bool,
)
    requires
        t.install_apk(platform, apk_path, car_management).0.halt is None,
    ensures
        ({
            let (t1, adb) = ready_to_install(t, platform, apk_path);
            is_brought(
                t1,
                t.install_apk(platform, apk_path, car_management).0,
                adb,
                apk_path,
                helper_found(t1, adb, apk_path, car_management),
            )
        }),
{
    let (t1, adb) = ready_to_install(t, platform, apk_path);
    let (t2, package) = installed(t1, adb, apk_path, car_management);
    let after = t2.finish_install(adb, package, car_management);
    let helper = helper_found(t1, adb, apk_path, car_management);
    install_apk_parts(t, platform, apk_path, car_management);
    finish_install_steady(t2, t2, adb, package, car_management);
    assert(t2.halt is None) by {
        broadcast use stopped_stays;

    }
    installed_is_brought(t1, adb, apk_path, car_management);
    still_brought(t1, t2, after, adb, apk_path, helper);
}

proof fn installed_is_brought(
    t: Talk,
    adb: TargetView,
    apk_path: Seq<char>,
    car_management: bool,
)
    requires
        installed(t, adb, apk_path, car_management).0.halt is None,
    ensures
        is_brought(
            t,
            installed(t, adb, apk_path, car_management).0,
            adb,
            apk_path,
            helper_found(t, adb, apk_path, car_management),
        ),
{
    broadcast use {follows_on, stopped_stays};

    let t1 = if car_management {
        t.apply_vehicle_preinstall(adb)
    } else {
        t
    };
    let (t2, before) = t1.list_packages(adb);
    let (t3, hint) = t2.package_hint(apk_path);
    let (t4, helper) = t3.resource_localinstall();
    let first = info("Копирую APK на устройство"@);
    let t5 = t4.say(first);
    let t6 = t5.copy_to_device(adb, apk_path, REMOTE_APK@);
    let second = info("Копирую helper установки"@);
    let t7 = t6.say(second);
    let t8 = t7.copy_to_device(adb, helper, REMOTE_HELPER@);
    let t9 = t8.remove_installed(adb, hint);
    let t10 = t9.start_install(adb);
    let t11 = t10.installed_package(adb, hint, before).0;
    itself(t);
    apply_vehicle_preinstall_steady(t, t, adb);
    list_packages_steady(t1, t1, adb);
    package_hint_steady(t2, t2, apk_path);
    resource_localinstall_steady(t3, t3);
    say_steady(t4, t4, first);
    copy_to_device_steady(t5, t5, adb, apk_path, REMOTE_APK@);
    say_steady(t6, t6, second);
    copy_to_device_steady(t7, t7, adb, helper, REMOTE_HELPER@);
    remove_installed_steady(t8, t8, adb, hint);
    start_install_steady(t9, t9, adb);
    installed_package_steady(t10, t10, adb, hint, before);
    assert(t6.halt is None && t8.halt is None && t9.halt is None);
    copying_asks(t5, adb, apk_path, REMOTE_APK@);
    copying_asks(t7, adb, helper, REMOTE_HELPER@);
    starting_asks(t9, adb);
    brought(t, t5, t8, t9, t10, adb, apk_path, helper);
    still_brought(t, t10, t11, adb, apk_path, helper);
}

proof fn brought(
    t: Talk,
    start: Talk,
    copied: Talk,
    ready: Talk,
    after: Talk,
    adb: TargetView,
    apk_path: Seq<char>,
    helper: Seq<char>,
)
    requires
        follows(t, start),
        copied.asked == start.asked.push(on_device(adb, push_args(apk_path, REMOTE_APK@))).push(
            on_device(adb, readable_args(REMOTE_APK@)),
        ).push(on_device(adb, push_args(helper, REMOTE_HELPER@))).push(
            on_device(adb, readable_args(REMOTE_HELPER@)),
        ),
        follows(copied, ready),
        follows(ready, after),
        after.asked.len() > ready.asked.len(),
        after.asked[ready.asked.len() as int] == on_device(adb, install_args()),
    ensures
        is_brought(t, after, adb, apk_path, helper),
{
    reveal(follows);
    let i = start.asked.len() as int;
    let j = ready.asked.len() as int;
    assert(copied.asked.len() == i + 4);
    assert forall|k: int| 0 <= k < i + 4 implies #[trigger] after.asked[k] == copied.asked[k] by {
        assert(ready.asked[k] == copied.asked[k]);
    }
    assert(after.asked[i] == on_device(adb, push_args(apk_path, REMOTE_APK@)));
    assert(after.asked[j] == on_device(adb, install_args()));
}

proof fn starting_asks(t: Talk, adb: TargetView)
    requires
        t.halt is None,
    ensures
        t.start_install(adb).asked.len() > t.asked.len(),
        t.start_install(adb).asked[t.asked.len() as int] == on_device(adb, install_args()),
{
}

}
