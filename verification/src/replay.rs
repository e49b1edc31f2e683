//! Why work can be run again from its start each time a reply comes in.
//!
//! A question is asked once: the replies up to it take the work back to it, whatever comes behind
//! them, and the reply to it is the next one that is used.

use vstd::prelude::*;

use crate::commands::{
    clean_args, install_args, list_added_args, push_args, readable_args, start_args, stop_args,
    uninstall_args, REMOTE_APK, REMOTE_HELPER,
};
use crate::components::{admin_marks, admin_query, describe_args, listener_marks, listener_query};
use crate::continuation::{
    continues, continues_later, follows, follows_on, itself, keeps_after, keeps_before, keeps_on,
    keeps_to, one_device, one_device_on, resumes, runs_nothing, runs_nothing_on,
    same_if_not_waiting, steady, steady_with, stopped_stays, waits, with_replies,
    with_replies_continues,
};
use crate::grants::{
    appop_args, every_appop, grant_args, keep_unused_args, listener_args, mock_refused,
    mock_state_args, noted_appop, noted_grant, whitelist_args, NotedCommand, MOCK_LOCATION_ATTEMPTS,
};
use crate::packages::list_args;
use crate::session::{output_steps, AskView, ReplyView, Talk, TargetView};
use crate::tools::{
    adb_program, downloaded_tools, staged_program, staging_dir, tools_dir, Platform, PROGRAM_MODE,
};
use crate::vehicle::{
    get_owner_args, preinstall_args, set_owner_args, vehicle_appops, vehicle_permissions,
};
use crate::worklog::{info, warn, StepView};

verus! {

broadcast use {
    continues_later, follows_on, keeps_after, keeps_before, keeps_on, runs_nothing_on,
    same_if_not_waiting, stopped_stays,
};

pub(crate) proof fn say_steady(t: Talk, u: Talk, step: StepView)
    ensures
        steady(t, u, t.say(step), u.say(step)),
        runs_nothing(t, t.say(step)),
{
    reveal(follows);
    reveal(continues);
    reveal(runs_nothing);
}

proof fn log_all_steady(t: Talk, u: Talk, steps: Seq<StepView>)
    ensures
        steady(t, u, t.log_all(steps), u.log_all(steps)),
        runs_nothing(t, t.log_all(steps)),
{
    reveal(follows);
    reveal(continues);
    reveal(runs_nothing);
}

proof fn fail_steady(t: Talk, u: Talk, message: Seq<char>)
    ensures
        steady(t, u, t.fail(message), u.fail(message)),
        runs_nothing(t, t.fail(message)),
{
    reveal(follows);
    reveal(continues);
    reveal(runs_nothing);
}

proof fn order_steady(t: Talk, u: Talk, q: AskView)
    ensures
        steady(t, u, t.order(q), u.order(q)),
        q !is Run ==> runs_nothing(t, t.order(q)),
{
    reveal(follows);
    reveal(continues);
    reveal(runs_nothing);
}

proof fn flag_steady(t: Talk, u: Talk, q: AskView)
    ensures
        steady_with(t, u, t.flag(q), u.flag(q)),
        q !is Run ==> runs_nothing(t, t.flag(q).0),
{
    reveal(follows);
    reveal(continues);
    reveal(runs_nothing);
}

proof fn text_steady(t: Talk, u: Talk, q: AskView)
    ensures
        steady_with(t, u, t.text(q), u.text(q)),
        q !is Run ==> runs_nothing(t, t.text(q).0),
{
    reveal(follows);
    reveal(continues);
    reveal(runs_nothing);
}

proof fn run_output_steady(t: Talk, u: Talk, program: Seq<Seq<char>>, args: Seq<Seq<char>>)
    ensures
        steady_with(t, u, t.run_output(program, args), u.run_output(program, args)),
{
    reveal(follows);
    reveal(continues);
}

proof fn run_adb_steady(t: Talk, u: Talk, adb: TargetView, args: Seq<Seq<char>>)
    ensures
        steady_with(t, u, t.run_adb(adb, args), u.run_adb(adb, args)),
        keeps_to(adb, t, t.run_adb(adb, args).0),
{
    reveal(follows);
    reveal(continues);
    reveal(keeps_to);
    run_output_steady(t, u, adb.path, seq!["-s"@, adb.serial] + args);
}

proof fn run_adb_checked_steady(t: Talk, u: Talk, adb: TargetView, args: Seq<Seq<char>>)
    ensures
        steady_with(t, u, t.run_adb_checked(adb, args), u.run_adb_checked(adb, args)),
        keeps_to(adb, t, t.run_adb_checked(adb, args).0),
{
    reveal(follows);
    reveal(continues);
    reveal(keeps_to);
}

pub(crate) proof fn run_adb_optional_steady(t: Talk, u: Talk, adb: TargetView, args: Seq<Seq<char>>)
    ensures
        steady(t, u, t.run_adb_optional(adb, args), u.run_adb_optional(adb, args)),
        keeps_to(adb, t, t.run_adb_optional(adb, args)),
{
    reveal(follows);
    reveal(continues);
    reveal(keeps_to);
}

proof fn app_data_dir_steady(t: Talk, u: Talk)
    ensures
        steady(t, u, t.app_data_dir(), u.app_data_dir()),
        runs_nothing(t, t.app_data_dir()),
{
    reveal(follows);
    reveal(continues);
    reveal(runs_nothing);
}

pub(crate) proof fn resource_localinstall_steady(t: Talk, u: Talk)
    ensures
        steady_with(t, u, t.resource_localinstall(), u.resource_localinstall()),
        runs_nothing(t, t.resource_localinstall().0),
{
    reveal(follows);
    reveal(continues);
    reveal(runs_nothing);
}

pub(crate) proof fn package_hint_steady(t: Talk, u: Talk, apk_path: Seq<char>)
    ensures
        steady_with(t, u, t.package_hint(apk_path), u.package_hint(apk_path)),
        runs_nothing(t, t.package_hint(apk_path).0),
{
    reveal(follows);
    reveal(continues);
    reveal(runs_nothing);
}

proof fn maybe_property_steady(t: Talk, u: Talk, adb: TargetView, name: Seq<char>)
    ensures
        steady_with(t, u, t.maybe_property(adb, name), u.maybe_property(adb, name)),
        keeps_to(adb, t, t.maybe_property(adb, name).0),
{
    reveal(follows);
    reveal(continues);
    reveal(keeps_to);
}

proof fn fail_refused_steady(t: Talk, u: Talk, adb: TargetView, package: Seq<char>)
    ensures
        steady(t, u, t.fail_refused(adb, package), u.fail_refused(adb, package)),
        keeps_to(adb, t, t.fail_refused(adb, package)),
{
    reveal(follows);
    reveal(continues);
    reveal(keeps_to);
}

proof fn remove_if_there_steady(t: Talk, u: Talk, dir: Seq<Seq<char>>)
    ensures
        steady(t, u, t.remove_if_there(dir), u.remove_if_there(dir)),
        runs_nothing(t, t.remove_if_there(dir)),
{
    let (q, r) = (AskView::Exists(dir), AskView::RemoveDir(dir));
    flag_steady(t, u, q);
    order_steady(t.flag(q).0, u.flag(q).0, r);
}

proof fn stage_adb_steady(t: Talk, u: Talk, platform: Platform)
    ensures
        steady(t, u, t.stage_adb(platform), u.stage_adb(platform)),
        runs_nothing(t, t.stage_adb(platform)),
{
    remove_if_there_steady(t, u, staging_dir());
    let (t1, u1) = (t.remove_if_there(staging_dir()), u.remove_if_there(staging_dir()));
    order_steady(t1, u1, AskView::CreateDir(staging_dir()));
    let (t2, u2) = (
        t1.order(AskView::CreateDir(staging_dir())),
        u1.order(AskView::CreateDir(staging_dir())),
    );
    order_steady(t2, u2, AskView::Unpack(staging_dir()));
    let (t3, u3) = (
        t2.order(AskView::Unpack(staging_dir())),
        u2.order(AskView::Unpack(staging_dir())),
    );
    order_steady(t3, u3, AskView::SetMode(staged_program(platform.windows), PROGRAM_MODE));
}

proof fn ensure_adb_steady(t: Talk, u: Talk, platform: Platform)
    ensures
        steady(t, u, t.ensure_adb(platform), u.ensure_adb(platform)),
        runs_nothing(t, t.ensure_adb(platform)),
{
    app_data_dir_steady(t, u);
    let (t1, u1) = (t.app_data_dir(), u.app_data_dir());
    flag_steady(t1, u1, AskView::IsFile(adb_program(platform.windows)));
    let (t2, u2) = (
        t1.flag(AskView::IsFile(adb_program(platform.windows))).0,
        u1.flag(AskView::IsFile(adb_program(platform.windows))).0,
    );
    remove_if_there_steady(t2, u2, downloaded_tools());
    let (t3, u3) = (t2.remove_if_there(downloaded_tools()), u2.remove_if_there(downloaded_tools()));
    stage_adb_steady(t3, u3, platform);
    let (t4, u4) = (t3.stage_adb(platform), u3.stage_adb(platform));
    remove_if_there_steady(t4, u4, tools_dir());
    let (t5, u5) = (t4.remove_if_there(tools_dir()), u4.remove_if_there(tools_dir()));
    order_steady(t5, u5, AskView::Rename(staging_dir(), tools_dir()));
}

proof fn list_adb_devices_steady(t: Talk, u: Talk, path: Seq<Seq<char>>)
    ensures
        steady_with(t, u, t.list_adb_devices(path), u.list_adb_devices(path)),
{
    reveal(follows);
    reveal(continues);
}

proof fn resolve_head_unit_steady(t: Talk, u: Talk, path: Seq<Seq<char>>)
    ensures
        steady_with(t, u, t.resolve_head_unit(path), u.resolve_head_unit(path)),
{
    list_adb_devices_steady(t, u, path);
    let words = "ADB-устройство не подключено или не авторизовано"@;
    fail_steady(t.list_adb_devices(path).0, u.list_adb_devices(path).0, words);
    itself(u.list_adb_devices(path).0);
}

proof fn candidates_steady(
    t: Talk,
    u: Talk,
    adb: TargetView,
    package: Seq<char>,
    query: Seq<Seq<char>>,
    marks: Seq<Seq<char>>,
)
    ensures
        steady_with(
            t,
            u,
            t.candidates(adb, package, query, marks),
            u.candidates(adb, package, query, marks),
        ),
        keeps_to(adb, t, t.candidates(adb, package, query, marks).0),
{
    run_adb_steady(t, u, adb, query);
    let (t1, u1) = (t.run_adb(adb, query).0, u.run_adb(adb, query).0);
    run_adb_steady(t1, u1, adb, describe_args(package));
}

pub(crate) proof fn notification_listener_candidates_steady(
    t: Talk,
    u: Talk,
    adb: TargetView,
    package: Seq<char>,
)
    ensures
        steady_with(
            t,
            u,
            t.notification_listener_candidates(adb, package),
            u.notification_listener_candidates(adb, package),
        ),
        keeps_to(adb, t, t.notification_listener_candidates(adb, package).0),
{
    candidates_steady(t, u, adb, package, listener_query(package), listener_marks());
}

proof fn device_admin_candidates_steady(t: Talk, u: Talk, adb: TargetView, package: Seq<char>)
    ensures
        steady_with(
            t,
            u,
            t.device_admin_candidates(adb, package),
            u.device_admin_candidates(adb, package),
        ),
        keeps_to(adb, t, t.device_admin_candidates(adb, package).0),
{
    candidates_steady(t, u, adb, package, admin_query(package), admin_marks());
}

pub(crate) proof fn list_packages_steady(t: Talk, u: Talk, adb: TargetView)
    ensures
        steady_with(t, u, t.list_packages(adb), u.list_packages(adb)),
        keeps_to(adb, t, t.list_packages(adb).0),
{
    run_adb_checked_steady(t, u, adb, list_args());
}

proof fn is_package_installed_steady(t: Talk, u: Talk, adb: TargetView, package: Seq<char>)
    ensures
        steady_with(
            t,
            u,
            t.is_package_installed(adb, package),
            u.is_package_installed(adb, package),
        ),
        keeps_to(adb, t, t.is_package_installed(adb, package).0),
{
    run_adb_steady(t, u, adb, list_args().push(package));
}

proof fn detect_new_package_steady(t: Talk, u: Talk, adb: TargetView, before: Seq<Seq<char>>)
    ensures
        steady_with(t, u, t.detect_new_package(adb, before), u.detect_new_package(adb, before)),
        keeps_to(adb, t, t.detect_new_package(adb, before).0),
{
    list_packages_steady(t, u, adb);
    let (t1, u1) = (t.list_packages(adb).0, u.list_packages(adb).0);
    fail_steady(t1, u1, "APK установлен, но имя пакета не удалось определить автоматически"@);
}

proof fn requested_permissions_steady(t: Talk, u: Talk, adb: TargetView, package: Seq<char>)
    ensures
        steady_with(
            t,
            u,
            t.requested_permissions(adb, package),
            u.requested_permissions(adb, package),
        ),
        keeps_to(adb, t, t.requested_permissions(adb, package).0),
{
    run_adb_checked_steady(t, u, adb, describe_args(package));
}

pub(crate) proof fn noted_steady(t: Talk, u: Talk, adb: TargetView, command: NotedCommand)
    ensures
        steady(t, u, t.noted(adb, command), u.noted(adb, command)),
        keeps_to(adb, t, t.noted(adb, command)),
{
    run_adb_steady(t, u, adb, command.args);
    let (t1, u1) = (t.run_adb(adb, command.args).0, u.run_adb(adb, command.args).0);
    say_steady(t1, u1, info(command.note));
}

pub(crate) proof fn each_noted_steady(
    t: Talk,
    u: Talk,
    adb: TargetView,
    commands: Seq<NotedCommand>,
)
    ensures
        steady(t, u, t.each_noted(adb, commands), u.each_noted(adb, commands)),
        keeps_to(adb, t, t.each_noted(adb, commands)),
    decreases commands.len(),
{
    reveal_with_fuel(Talk::each_noted, 2);
    itself(t);
    itself(u);
    if commands.len() > 0 {
        noted_steady(t, u, adb, commands[0]);
        let (t1, u1) = (t.noted(adb, commands[0]), u.noted(adb, commands[0]));
        each_noted_steady(t1, u1, adb, commands.skip(1));
    }
}

pub(crate) proof fn each_optional_steady(
    t: Talk,
    u: Talk,
    adb: TargetView,
    commands: Seq<Seq<Seq<char>>>,
)
    ensures
        steady(t, u, t.each_optional(adb, commands), u.each_optional(adb, commands)),
        keeps_to(adb, t, t.each_optional(adb, commands)),
    decreases commands.len(),
{
    reveal_with_fuel(Talk::each_optional, 2);
    itself(t);
    itself(u);
    if commands.len() > 0 {
        run_adb_optional_steady(t, u, adb, commands[0]);
        let (t1, u1) = (
            t.run_adb_optional(adb, commands[0]),
            u.run_adb_optional(adb, commands[0]),
        );
        each_optional_steady(t1, u1, adb, commands.skip(1));
    }
}

pub(crate) proof fn grant_manifest_permissions_steady(
    t: Talk,
    u: Talk,
    adb: TargetView,
    package: Seq<char>,
)
    ensures
        steady(
            t,
            u,
            t.grant_manifest_permissions(adb, package),
            u.grant_manifest_permissions(adb, package),
        ),
        keeps_to(adb, t, t.grant_manifest_permissions(adb, package)),
{
    let step = info("Выдаю runtime permissions из manifest"@);
    say_steady(t, u, step);
    let (t1, u1) = (t.say(step), u.say(step));
    requested_permissions_steady(t1, u1, adb, package);
    let (t2, asked) = t1.requested_permissions(adb, package);
    let (u2, wanted) = u1.requested_permissions(adb, package);
    let grants = asked.map_values(|p: Seq<char>| noted_grant(package, p));
    each_noted_steady(t2, u2, adb, grants);
    each_noted_steady(u2, u2, adb, wanted.map_values(|p: Seq<char>| noted_grant(package, p)));
}

pub(crate) proof fn set_appops_steady(
    t: Talk,
    u: Talk,
    adb: TargetView,
    package: Seq<char>,
    ops: Seq<Seq<char>>,
)
    ensures
        steady(t, u, t.set_appops(adb, package, ops), u.set_appops(adb, package, ops)),
        keeps_to(adb, t, t.set_appops(adb, package, ops)),
{
    each_noted_steady(t, u, adb, ops.map_values(|op: Seq<char>| noted_appop(package, op)));
}

proof fn allow_mock_again_steady(t: Talk, u: Talk, adb: TargetView, package: Seq<char>)
    ensures
        steady(t, u, t.allow_mock_again(adb, package), u.allow_mock_again(adb, package)),
        keeps_to(adb, t, t.allow_mock_again(adb, package)),
{
    order_steady(t, u, AskView::Sleep(2));
    let (t1, u1) = (t.order(AskView::Sleep(2)), u.order(AskView::Sleep(2)));
    run_adb_steady(t1, u1, adb, appop_args(package, "android:mock_location"@));
}

pub(crate) proof fn verify_mock_from_steady(
    t: Talk,
    u: Talk,
    adb: TargetView,
    package: Seq<char>,
    attempt: nat,
    state: Seq<char>,
)
    ensures
        steady(
            t,
            u,
            t.verify_mock_from(adb, package, attempt, state),
            u.verify_mock_from(adb, package, attempt, state),
        ),
        keeps_to(adb, t, t.verify_mock_from(adb, package, attempt, state)),
    decreases MOCK_LOCATION_ATTEMPTS - attempt,
{
    reveal_with_fuel(Talk::verify_mock_from, 2);
    itself(t);
    itself(u);
    assert(keeps_to(adb, t, t));
    if attempt >= MOCK_LOCATION_ATTEMPTS {
        say_steady(t, u, warn(mock_refused(package, state)));
    } else {
        allow_mock_again_steady(t, u, adb, package);
        let (t1, u1) = if attempt > 0 {
            (t.allow_mock_again(adb, package), u.allow_mock_again(adb, package))
        } else {
            (t, u)
        };
        run_adb_steady(t1, u1, adb, mock_state_args(package));
        let (t2, out) = t1.run_adb(adb, mock_state_args(package));
        let (u2, read) = u1.run_adb(adb, mock_state_args(package));
        say_steady(t2, u2, info("Фиктивные местоположения разрешены"@));
        verify_mock_from_steady(t2, u2, adb, package, attempt + 1, out.stdout);
        verify_mock_from_steady(u2, u2, adb, package, attempt + 1, read.stdout);
    }
}

pub(crate) proof fn verify_mock_location_steady(
    t: Talk,
    u: Talk,
    adb: TargetView,
    package: Seq<char>,
)
    ensures
        steady(t, u, t.verify_mock_location(adb, package), u.verify_mock_location(adb, package)),
        keeps_to(adb, t, t.verify_mock_location(adb, package)),
{
    verify_mock_from_steady(t, u, adb, package, 0, seq![]);
}

pub(crate) proof fn allow_listeners_steady(
    t: Talk,
    u: Talk,
    adb: TargetView,
    components: Seq<Seq<char>>,
)
    ensures
        steady(t, u, t.allow_listeners(adb, components), u.allow_listeners(adb, components)),
        keeps_to(adb, t, t.allow_listeners(adb, components)),
{
    itself(t);
    itself(u);
    let step = info("Разрешаю доступ к уведомлениям"@);
    say_steady(t, u, step);
    each_optional_steady(
        t.say(step),
        u.say(step),
        adb,
        components.map_values(|c: Seq<char>| listener_args(c)),
    );
}

/// What granting permissions makes of a conversation, up to the notification listeners.
pub open spec fn granted(t: Talk, adb: TargetView, package: Seq<char>) -> Talk {
    t.say(info("Выдаю все права: "@ + package)).grant_manifest_permissions(adb, package).say(
        info("Выставляю полный набор appops (фон, установка, VPN, экран, геолокация)"@),
    ).set_appops(adb, package, every_appop()).noted(
        adb,
        NotedCommand {
            args: keep_unused_args(package),
            note: "Авто-отзыв неиспользуемых прав отключён"@,
        },
    ).say(info("Исключаю из ограничений экономии батареи"@)).run_adb_optional(
        adb,
        whitelist_args(package),
    )
}

proof fn granted_steady(t: Talk, u: Talk, adb: TargetView, package: Seq<char>)
    ensures
        steady(t, u, granted(t, adb, package), granted(u, adb, package)),
        keeps_to(adb, t, granted(t, adb, package)),
{
    let start = info("Выдаю все права: "@ + package);
    let ops = info("Выставляю полный набор appops (фон, установка, VPN, экран, геолокация)"@);
    let keep = NotedCommand {
        args: keep_unused_args(package),
        note: "Авто-отзыв неиспользуемых прав отключён"@,
    };
    let power = info("Исключаю из ограничений экономии батареи"@);
    say_steady(t, u, start);
    let (t1, u1) = (t.say(start), u.say(start));
    grant_manifest_permissions_steady(t1, u1, adb, package);
    let t2 = t1.grant_manifest_permissions(adb, package);
    let u2 = u1.grant_manifest_permissions(adb, package);
    say_steady(t2, u2, ops);
    let (t3, u3) = (t2.say(ops), u2.say(ops));
    set_appops_steady(t3, u3, adb, package, every_appop());
    let t4 = t3.set_appops(adb, package, every_appop());
    let u4 = u3.set_appops(adb, package, every_appop());
    noted_steady(t4, u4, adb, keep);
    let (t5, u5) = (t4.noted(adb, keep), u4.noted(adb, keep));
    say_steady(t5, u5, power);
    run_adb_optional_steady(t5.say(power), u5.say(power), adb, whitelist_args(package));
}

proof fn grant_all_permissions_inner_steady(t: Talk, u: Talk, adb: TargetView, package: Seq<char>)
    ensures
        steady(
            t,
            u,
            t.grant_all_permissions_inner(adb, package),
            u.grant_all_permissions_inner(adb, package),
        ),
        keeps_to(adb, t, t.grant_all_permissions_inner(adb, package)),
{
    granted_steady(t, u, adb, package);
    let (t1, u1) = (granted(t, adb, package), granted(u, adb, package));
    notification_listener_candidates_steady(t1, u1, adb, package);
    let (t2, found) = t1.notification_listener_candidates(adb, package);
    let (u2, listeners) = u1.notification_listener_candidates(adb, package);
    allow_listeners_steady(t2, u2, adb, found);
    allow_listeners_steady(u2, u2, adb, listeners);
    let (t3, u3) = (t2.allow_listeners(adb, found), u2.allow_listeners(adb, listeners));
    verify_mock_location_steady(t3, u3, adb, package);
    say_steady(
        t3.verify_mock_location(adb, package),
        u3.verify_mock_location(adb, package),
        info("Все права выданы: "@ + package),
    );
}

pub(crate) proof fn apply_vehicle_preinstall_steady(t: Talk, u: Talk, adb: TargetView)
    ensures
        steady(t, u, t.apply_vehicle_preinstall(adb), u.apply_vehicle_preinstall(adb)),
        keeps_to(adb, t, t.apply_vehicle_preinstall(adb)),
{
    say_steady(t, u, info("Applying vehicle integration pre-install flag"@));
    let (t1, u1) = (
        t.say(info("Applying vehicle integration pre-install flag"@)),
        u.say(info("Applying vehicle integration pre-install flag"@)),
    );
    run_adb_optional_steady(t1, u1, adb, preinstall_args());
}

proof fn apply_vehicle_management_inner_steady(
    t: Talk,
    u: Talk,
    adb: TargetView,
    package: Seq<char>,
)
    ensures
        steady(
            t,
            u,
            t.apply_vehicle_management_inner(adb, package),
            u.apply_vehicle_management_inner(adb, package),
        ),
        keeps_to(adb, t, t.apply_vehicle_management_inner(adb, package)),
{
    let step = info("Applying vehicle-management compatibility commands"@);
    say_steady(t, u, step);
    let (t1, u1) = (t.say(step), u.say(step));
    apply_vehicle_preinstall_steady(t1, u1, adb);
    let (t2, u2) = (t1.apply_vehicle_preinstall(adb), u1.apply_vehicle_preinstall(adb));
    let grants = vehicle_permissions().map_values(|p: Seq<char>| grant_args(package, p));
    each_optional_steady(t2, u2, adb, grants);
    let (t3, u3) = (t2.each_optional(adb, grants), u2.each_optional(adb, grants));
    let ops = vehicle_appops().map_values(|op: Seq<char>| appop_args(package, op));
    each_optional_steady(t3, u3, adb, ops);
    let (t4, u4) = (t3.each_optional(adb, ops), u3.each_optional(adb, ops));
    notification_listener_candidates_steady(t4, u4, adb, package);
    let (t5, found) = t4.notification_listener_candidates(adb, package);
    let (u5, listeners) = u4.notification_listener_candidates(adb, package);
    let first = found.map_values(|c: Seq<char>| listener_args(c));
    let second = listeners.map_values(|c: Seq<char>| listener_args(c));
    each_optional_steady(t5, u5, adb, first);
    each_optional_steady(u5, u5, adb, second);
    let (t6, u6) = (t5.each_optional(adb, first), u5.each_optional(adb, second));
    run_adb_optional_steady(t6, u6, adb, whitelist_args(package));
}

proof fn try_owners_steady(
    t: Talk,
    u: Talk,
    adb: TargetView,
    package: Seq<char>,
    components: Seq<Seq<char>>,
)
    ensures
        steady(
            t,
            u,
            t.try_owners(adb, package, components),
            u.try_owners(adb, package, components),
        ),
        keeps_to(adb, t, t.try_owners(adb, package, components)),
    decreases components.len(),
{
    reveal_with_fuel(Talk::try_owners, 2);
    itself(t);
    itself(u);
    assert(keeps_to(adb, t, t));
    if components.len() == 0 {
        say_steady(
            t,
            u,
            warn(
                "Device Owner was not enabled. Android may already be provisioned or have another owner."@,
            ),
        );
    } else {
        let step = info("Trying Device Owner receiver: "@ + components[0]);
        say_steady(t, u, step);
        let (t1, u1) = (t.say(step), u.say(step));
        run_adb_steady(t1, u1, adb, set_owner_args(components[0]));
        let (t2, out) = t1.run_adb(adb, set_owner_args(components[0]));
        let (u2, said) = u1.run_adb(adb, set_owner_args(components[0]));
        log_all_steady(t2, u2, output_steps(out));
        log_all_steady(u2, u2, output_steps(said));
        let (t3, u3) = (t2.log_all(output_steps(out)), u2.log_all(output_steps(said)));
        run_adb_steady(t3, u3, adb, get_owner_args());
        let (t4, u4) = (t3.run_adb(adb, get_owner_args()).0, u3.run_adb(adb, get_owner_args()).0);
        say_steady(t4, u4, info("Device Owner enabled: "@ + components[0]));
        try_owners_steady(t4, u4, adb, package, components.skip(1));
    }
}

proof fn apply_device_owner_inner_steady(t: Talk, u: Talk, adb: TargetView, package: Seq<char>)
    ensures
        steady(
            t,
            u,
            t.apply_device_owner_inner(adb, package),
            u.apply_device_owner_inner(adb, package),
        ),
        keeps_to(adb, t, t.apply_device_owner_inner(adb, package)),
{
    let step = info("Applying Device Owner mode"@);
    say_steady(t, u, step);
    let (t1, u1) = (t.say(step), u.say(step));
    device_admin_candidates_steady(t1, u1, adb, package);
    let (t2, found) = t1.device_admin_candidates(adb, package);
    let (u2, admins) = u1.device_admin_candidates(adb, package);
    say_steady(t2, u2, warn("No DeviceAdmin receiver found for package: "@ + package));
    try_owners_steady(t2, u2, adb, package, found);
    try_owners_steady(u2, u2, adb, package, admins);
}

pub(crate) proof fn copy_to_device_steady(t: Talk, u: Talk, adb: TargetView, from: Seq<char>, to: Seq<char>)
    ensures
        steady(t, u, t.copy_to_device(adb, from, to), u.copy_to_device(adb, from, to)),
        keeps_to(adb, t, t.copy_to_device(adb, from, to)),
{
    run_adb_checked_steady(t, u, adb, push_args(from, to));
    let (t1, u1) = (
        t.run_adb_checked(adb, push_args(from, to)).0,
        u.run_adb_checked(adb, push_args(from, to)).0,
    );
    run_adb_checked_steady(t1, u1, adb, readable_args(to));
}

pub(crate) proof fn remove_installed_steady(t: Talk, u: Talk, adb: TargetView, hint: Option<Seq<char>>)
    ensures
        steady(t, u, t.remove_installed(adb, hint), u.remove_installed(adb, hint)),
        keeps_to(adb, t, t.remove_installed(adb, hint)),
{
    itself(t);
    itself(u);
    assert(keeps_to(adb, t, t));
    if let Some(package) = hint {
        is_package_installed_steady(t, u, adb, package);
        let t1 = t.is_package_installed(adb, package).0;
        let u1 = u.is_package_installed(adb, package).0;
        let step = info("Снимаю установленную версию "@ + package);
        say_steady(t1, u1, step);
        run_adb_optional_steady(t1.say(step), u1.say(step), adb, uninstall_args(package));
    }
}

pub(crate) proof fn start_install_steady(t: Talk, u: Talk, adb: TargetView)
    ensures
        steady(t, u, t.start_install(adb), u.start_install(adb)),
        keeps_to(adb, t, t.start_install(adb)),
{
    let step = info("Устанавливаю APK через PackageInstaller.Session"@);
    say_steady(t, u, step);
    run_adb_checked_steady(t.say(step), u.say(step), adb, install_args());
    let (t1, out) = t.say(step).run_adb_checked(adb, install_args());
    let (u1, said) = u.say(step).run_adb_checked(adb, install_args());
    log_all_steady(t1, u1, output_steps(out));
    log_all_steady(u1, u1, output_steps(said));
    let (t2, u2) = (t1.log_all(output_steps(out)), u1.log_all(output_steps(said)));
    order_steady(t2, u2, AskView::Sleep(2));
}

pub(crate) proof fn installed_package_steady(
    t: Talk,
    u: Talk,
    adb: TargetView,
    hint: Option<Seq<char>>,
    before: Seq<Seq<char>>,
)
    ensures
        steady_with(
            t,
            u,
            t.installed_package(adb, hint, before),
            u.installed_package(adb, hint, before),
        ),
        keeps_to(adb, t, t.installed_package(adb, hint, before).0),
{
    match hint {
        Some(package) => {
            is_package_installed_steady(t, u, adb, package);
            let t1 = t.is_package_installed(adb, package).0;
            let u1 = u.is_package_installed(adb, package).0;
            fail_refused_steady(t1, u1, adb, package);
        },
        None => {
            detect_new_package_steady(t, u, adb, before);
        },
    }
}

pub(crate) proof fn manage_vehicle_steady(
    t: Talk,
    u: Talk,
    adb: TargetView,
    package: Seq<char>,
    car_management: bool,
)
    ensures
        steady(
            t,
            u,
            t.manage_vehicle(adb, package, car_management),
            u.manage_vehicle(adb, package, car_management),
        ),
        keeps_to(adb, t, t.manage_vehicle(adb, package, car_management)),
{
    itself(t);
    itself(u);
    assert(keeps_to(adb, t, t));
    apply_vehicle_management_inner_steady(t, u, adb, package);
    apply_device_owner_inner_steady(
        t.apply_vehicle_management_inner(adb, package),
        u.apply_vehicle_management_inner(adb, package),
        adb,
        package,
    );
}

pub(crate) proof fn restart_and_clean_steady(t: Talk, u: Talk, adb: TargetView, package: Seq<char>)
    ensures
        steady(t, u, t.restart_and_clean(adb, package), u.restart_and_clean(adb, package)),
        keeps_to(adb, t, t.restart_and_clean(adb, package)),
{
    run_adb_optional_steady(t, u, adb, stop_args(package));
    let (t1, u1) = (
        t.run_adb_optional(adb, stop_args(package)),
        u.run_adb_optional(adb, stop_args(package)),
    );
    run_adb_optional_steady(t1, u1, adb, start_args(package));
    let (t2, u2) = (
        t1.run_adb_optional(adb, start_args(package)),
        u1.run_adb_optional(adb, start_args(package)),
    );
    run_adb_optional_steady(t2, u2, adb, clean_args());
}

pub(crate) proof fn finish_install_steady(
    t: Talk,
    u: Talk,
    adb: TargetView,
    package: Seq<char>,
    car_management: bool,
)
    ensures
        steady(
            t,
            u,
            t.finish_install(adb, package, car_management),
            u.finish_install(adb, package, car_management),
        ),
        keeps_to(adb, t, t.finish_install(adb, package, car_management)),
{
    say_steady(t, u, info("Пакет установлен: "@ + package));
    let (t1, u1) = (
        t.say(info("Пакет установлен: "@ + package)),
        u.say(info("Пакет установлен: "@ + package)),
    );
    grant_all_permissions_inner_steady(t1, u1, adb, package);
    let (t2, u2) = (
        t1.grant_all_permissions_inner(adb, package),
        u1.grant_all_permissions_inner(adb, package),
    );
    manage_vehicle_steady(t2, u2, adb, package, car_management);
    let (t3, u3) = (
        t2.manage_vehicle(adb, package, car_management),
        u2.manage_vehicle(adb, package, car_management),
    );
    restart_and_clean_steady(t3, u3, adb, package);
}

/// What finding the head unit makes of a conversation.
pub open spec fn head_unit(t: Talk, platform: Platform) -> (Talk, TargetView) {
    t.ensure_adb(platform).resolve_head_unit(adb_program(platform.windows))
}

proof fn head_unit_steady(t: Talk, u: Talk, platform: Platform)
    ensures
        follows(t, head_unit(t, platform).0),
        follows(u, head_unit(u, platform).0),
        continues(t, u) ==> continues(head_unit(t, platform).0, head_unit(u, platform).0),
        continues(t, u) && !waits(head_unit(t, platform).0) ==> head_unit(u, platform).1
            == head_unit(t, platform).1,
        one_device(head_unit(t, platform).1, t, head_unit(t, platform).0),
{
    ensure_adb_steady(t, u, platform);
    let (t1, u1) = (t.ensure_adb(platform), u.ensure_adb(platform));
    resolve_head_unit_steady(t1, u1, adb_program(platform.windows));
    reveal(one_device);
    reveal(runs_nothing);
}

/// What checking an APK and finding the head unit makes of a conversation.
pub open spec fn ready_to_install(
    t: Talk,
    platform: Platform,
    apk_path: Seq<char>,
) -> (Talk, TargetView) {
    let (t1, is_file) = t.flag(AskView::ApkIsFile(apk_path));
    head_unit(
        if is_file {
            t1
        } else {
            t1.fail("APK не найден: "@ + apk_path)
        },
        platform,
    )
}

proof fn ready_to_install_steady(t: Talk, u: Talk, platform: Platform, apk_path: Seq<char>)
    ensures
        ({
            let (t1, adb) = ready_to_install(t, platform, apk_path);
            let (u1, same) = ready_to_install(u, platform, apk_path);
            &&& follows(t, t1)
            &&& follows(u, u1)
            &&& continues(t, u) ==> continues(t1, u1)
            &&& continues(t, u) && !waits(t1) ==> same == adb
            &&& one_device(adb, t, t1)
        }),
{
    let q = AskView::ApkIsFile(apk_path);
    let words = "APK не найден: "@ + apk_path;
    flag_steady(t, u, q);
    let ((t1, first), (u1, second)) = (t.flag(q), u.flag(q));
    fail_steady(t1, u1, words);
    let t2 = if first { t1 } else { t1.fail(words) };
    let u2 = if second { u1 } else { u1.fail(words) };
    head_unit_steady(t2, u2, platform);
    assert(one_device(head_unit(t2, platform).1, t, head_unit(t2, platform).0)) by {
        reveal(one_device);
        reveal(runs_nothing);
    }
}

/// What the work of installing makes of a conversation, up to knowing the package.
pub open spec fn installed(t: Talk, adb: TargetView, apk_path: Seq<char>, car_management: bool) -> (
    Talk,
    Seq<char>,
) {
    let t1 = if car_management {
        t.apply_vehicle_preinstall(adb)
    } else {
        t
    };
    let (t2, before) = t1.list_packages(adb);
    let (t3, hint) = t2.package_hint(apk_path);
    let (t4, helper) = t3.resource_localinstall();
    copied(t4, adb, apk_path, helper).remove_installed(adb, hint).start_install(
        adb,
    ).installed_package(adb, hint, before)
}

/// What copying an APK and the helper makes of a conversation.
pub open spec fn copied(t: Talk, adb: TargetView, apk_path: Seq<char>, helper: Seq<char>) -> Talk {
    t.say(info("Копирую APK на устройство"@)).copy_to_device(adb, apk_path, REMOTE_APK@).say(
        info("Копирую helper установки"@),
    ).copy_to_device(adb, helper, REMOTE_HELPER@)
}

proof fn copied_steady(t: Talk, u: Talk, adb: TargetView, apk_path: Seq<char>, helper: Seq<char>)
    ensures
        steady(t, u, copied(t, adb, apk_path, helper), copied(u, adb, apk_path, helper)),
        keeps_to(adb, t, copied(t, adb, apk_path, helper)),
{
    say_steady(t, u, info("Копирую APK на устройство"@));
    let (t1, u1) = (
        t.say(info("Копирую APK на устройство"@)),
        u.say(info("Копирую APK на устройство"@)),
    );
    copy_to_device_steady(t1, u1, adb, apk_path, REMOTE_APK@);
    let (t2, u2) = (
        t1.copy_to_device(adb, apk_path, REMOTE_APK@),
        u1.copy_to_device(adb, apk_path, REMOTE_APK@),
    );
    say_steady(t2, u2, info("Копирую helper установки"@));
    let (t3, u3) = (
        t2.say(info("Копирую helper установки"@)),
        u2.say(info("Копирую helper установки"@)),
    );
    copy_to_device_steady(t3, u3, adb, helper, REMOTE_HELPER@);
}

proof fn installed_steady(
    t: Talk,
    u: Talk,
    adb: TargetView,
    apk_path: Seq<char>,
    car_management: bool,
)
    ensures
        steady_with(
            t,
            u,
            installed(t, adb, apk_path, car_management),
            installed(u, adb, apk_path, car_management),
        ),
        keeps_to(adb, t, installed(t, adb, apk_path, car_management).0),
{
    itself(t);
    itself(u);
    assert(keeps_to(adb, t, t));
    apply_vehicle_preinstall_steady(t, u, adb);
    let t1 = if car_management { t.apply_vehicle_preinstall(adb) } else { t };
    let u1 = if car_management { u.apply_vehicle_preinstall(adb) } else { u };
    list_packages_steady(t1, u1, adb);
    let ((t2, t_before), (u2, u_before)) = (t1.list_packages(adb), u1.list_packages(adb));
    package_hint_steady(t2, u2, apk_path);
    let ((t3, t_hint), (u3, u_hint)) = (t2.package_hint(apk_path), u2.package_hint(apk_path));
    resource_localinstall_steady(t3, u3);
    let ((t4, t_helper), (u4, u_helper)) = (
        t3.resource_localinstall(),
        u3.resource_localinstall(),
    );
    copied_steady(t4, u4, adb, apk_path, t_helper);
    copied_steady(u4, u4, adb, apk_path, u_helper);
    let t5 = copied(t4, adb, apk_path, t_helper);
    let u5 = copied(u4, adb, apk_path, u_helper);
    remove_installed_steady(t5, u5, adb, t_hint);
    remove_installed_steady(u5, u5, adb, u_hint);
    let (t6, u6) = (t5.remove_installed(adb, t_hint), u5.remove_installed(adb, u_hint));
    start_install_steady(t6, u6, adb);
    let (t7, u7) = (t6.start_install(adb), u6.start_install(adb));
    installed_package_steady(t7, u7, adb, t_hint, t_before);
    installed_package_steady(u7, u7, adb, u_hint, u_before);
}

proof fn install_apk_steady(
    t: Talk,
    u: Talk,
    platform: Platform,
    apk_path: Seq<char>,
    car_management: bool,
)
    ensures
        ({
            let (t1, package) = t.install_apk(platform, apk_path, car_management);
            let (u1, same) = u.install_apk(platform, apk_path, car_management);
            &&& follows(t, t1)
            &&& follows(u, u1)
            &&& continues(t, u) ==> continues(t1, u1)
            &&& continues(t, u) && !waits(t1) ==> same == package
            &&& one_device(ready_to_install(t, platform, apk_path).1, t, t1)
        }),
{
    ready_to_install_steady(t, u, platform, apk_path);
    let (t1, adb) = ready_to_install(t, platform, apk_path);
    let (u1, target) = ready_to_install(u, platform, apk_path);
    installed_steady(t1, u1, adb, apk_path, car_management);
    installed_steady(u1, u1, target, apk_path, car_management);
    let (t2, package) = installed(t1, adb, apk_path, car_management);
    let (u2, name) = installed(u1, target, apk_path, car_management);
    finish_install_steady(t2, u2, adb, package, car_management);
    finish_install_steady(u2, u2, target, name, car_management);
    one_device_on(adb, t, t1, t2.finish_install(adb, package, car_management));
}

/// Installing an APK is made of its parts.
pub proof fn install_apk_parts(
    t: Talk,
    platform: Platform,
    apk_path: Seq<char>,
    car_management: bool,
)
    ensures
        ({
            let (t1, adb) = ready_to_install(t, platform, apk_path);
            let (t2, package) = installed(t1, adb, apk_path, car_management);
            t.install_apk(platform, apk_path, car_management) == (
                t2.finish_install(adb, package, car_management),
                package,
            )
        }),
{
}

proof fn check_device_steady(t: Talk, u: Talk, platform: Platform)
    ensures
        ({
            let (t1, found) = t.check_device(platform);
            let (u1, same) = u.check_device(platform);
            &&& follows(t, t1)
            &&& follows(u, u1)
            &&& continues(t, u) ==> continues(t1, u1)
            &&& continues(t, u) && !waits(t1) ==> same == found
            &&& exists|adb: TargetView| one_device(adb, t, t1)
        }),
{
    let path = adb_program(platform.windows);
    let q = AskView::ShowPath(path);
    ensure_adb_steady(t, u, platform);
    let (t1, u1) = (t.ensure_adb(platform), u.ensure_adb(platform));
    text_steady(t1, u1, q);
    let (t2, u2) = (t1.text(q).0, u1.text(q).0);
    listing_steady(t2, u2, path);
    listing_steady(u2, u2, path);
    let ((t3, adb), (u3, target)) = (t2.resolve_head_unit(path), u2.resolve_head_unit(path));
    let model = "ro.product.model"@;
    maybe_property_steady(t3, u3, adb, model);
    maybe_property_steady(u3, u3, target, model);
    let (t4, u4) = (t3.maybe_property(adb, model).0, u3.maybe_property(target, model).0);
    let android = "ro.build.version.release"@;
    maybe_property_steady(t4, u4, adb, android);
    maybe_property_steady(u4, u4, target, android);
    let t5 = t4.maybe_property(adb, android).0;
    assert(one_device(adb, t, t3) && one_device(adb, t, t3.with(None))) by {
        reveal(one_device);
        reveal(runs_nothing);
    }
    one_device_on(adb, t, t3, t5);
}

proof fn listing_steady(t: Talk, u: Talk, path: Seq<Seq<char>>)
    ensures
        ({
            let (t1, adb) = t.resolve_head_unit(path);
            let (u1, same) = u.resolve_head_unit(path);
            &&& follows(t, t1)
            &&& follows(u, u1)
            &&& continues(t, u) ==> continues(t1, u1)
            &&& continues(t, u) && !waits(t1) ==> same == adb
            &&& one_device(adb, t, t1)
            &&& continues(t, u) && waits(t1) ==> continues(t1, u1.with(None))
            &&& t.halt is None && t1.halt is Some && t1.halt->0 is Failed ==> {
                &&& follows(t, t1.with(None))
                &&& continues(t, u) ==> continues(t1.with(None), u1.with(None))
            }
        }),
{
    reveal(follows);
    reveal(continues);
    reveal(one_device);
}

proof fn find_package_steady(
    t: Talk,
    u: Talk,
    platform: Platform,
    package: Seq<char>,
    words: Seq<char>,
)
    ensures
        ({
            let (t1, adb) = t.find_package(platform, package, words);
            let (u1, same) = u.find_package(platform, package, words);
            &&& follows(t, t1)
            &&& follows(u, u1)
            &&& continues(t, u) ==> continues(t1, u1)
            &&& continues(t, u) && !waits(t1) ==> same == adb
            &&& one_device(adb, t, t1)
        }),
{
    head_unit_steady(t, u, platform);
    let ((t1, adb), (u1, target)) = (head_unit(t, platform), head_unit(u, platform));
    is_package_installed_steady(t1, u1, adb, package);
    is_package_installed_steady(u1, u1, target, package);
    let t2 = t1.is_package_installed(adb, package).0;
    let u2 = u1.is_package_installed(target, package).0;
    fail_steady(t2, u2, words + package);
    one_device_on(adb, t, t1, t2);
    one_device_on(adb, t, t1, t2.fail(words + package));
}

proof fn safe_package_steady(
    t: Talk,
    u: Talk,
    platform: Platform,
    package: Seq<char>,
    bad_name: Seq<char>,
    words: Seq<char>,
)
    ensures
        ({
            let (t1, adb) = t.require_safe_name(package, bad_name).find_package(
                platform,
                package,
                words,
            );
            let (u1, same) = u.require_safe_name(package, bad_name).find_package(
                platform,
                package,
                words,
            );
            &&& follows(t, t1)
            &&& follows(u, u1)
            &&& continues(t, u) ==> continues(t1, u1)
            &&& continues(t, u) && !waits(t1) ==> same == adb
            &&& one_device(adb, t, t1)
        }),
{
    fail_steady(t, u, bad_name + package);
    let t1 = t.require_safe_name(package, bad_name);
    let u1 = u.require_safe_name(package, bad_name);
    find_package_steady(t1, u1, platform, package, words);
    let (t2, adb) = t1.find_package(platform, package, words);
    assert(one_device(adb, t, t2)) by {
        reveal(one_device);
        reveal(runs_nothing);
    }
}

proof fn grant_all_permissions_steady(t: Talk, u: Talk, platform: Platform, package: Seq<char>)
    ensures
        ({
            let (t1, u1) = (
                t.grant_all_permissions(platform, package),
                u.grant_all_permissions(platform, package),
            );
            &&& follows(t, t1)
            &&& follows(u, u1)
            &&& continues(t, u) ==> continues(t1, u1)
            &&& exists|adb: TargetView| one_device(adb, t, t1)
        }),
{
    let (no_name, no_package) = ("Некорректное имя пакета: "@, "Пакет не установлен: "@);
    safe_package_steady(t, u, platform, package, no_name, no_package);
    let (t1, adb) = t.require_safe_name(package, no_name).find_package(
        platform,
        package,
        no_package,
    );
    let (u1, target) = u.require_safe_name(package, no_name).find_package(
        platform,
        package,
        no_package,
    );
    grant_all_permissions_inner_steady(t1, u1, adb, package);
    grant_all_permissions_inner_steady(u1, u1, target, package);
    one_device_on(adb, t, t1, t1.grant_all_permissions_inner(adb, package));
}

proof fn list_uninstallable_packages_steady(t: Talk, u: Talk, platform: Platform)
    ensures
        ({
            let (t1, packages) = t.list_uninstallable_packages(platform);
            let (u1, same) = u.list_uninstallable_packages(platform);
            &&& follows(t, t1)
            &&& follows(u, u1)
            &&& continues(t, u) ==> continues(t1, u1)
            &&& continues(t, u) && !waits(t1) ==> same == packages
            &&& exists|adb: TargetView| one_device(adb, t, t1)
        }),
{
    head_unit_steady(t, u, platform);
    let ((t1, adb), (u1, target)) = (head_unit(t, platform), head_unit(u, platform));
    run_adb_checked_steady(t1, u1, adb, list_added_args());
    run_adb_checked_steady(u1, u1, target, list_added_args());
    one_device_on(adb, t, t1, t1.run_adb_checked(adb, list_added_args()).0);
}

proof fn uninstall_package_steady(t: Talk, u: Talk, platform: Platform, package: Seq<char>)
    ensures
        ({
            let (t1, u1) = (
                t.uninstall_package(platform, package),
                u.uninstall_package(platform, package),
            );
            &&& follows(t, t1)
            &&& follows(u, u1)
            &&& continues(t, u) ==> continues(t1, u1)
            &&& exists|adb: TargetView| one_device(adb, t, t1)
        }),
{
    let (no_name, no_package) = ("Invalid package name: "@, "Package is not installed: "@);
    safe_package_steady(t, u, platform, package, no_name, no_package);
    let (t1, adb) = t.require_safe_name(package, no_name).find_package(
        platform,
        package,
        no_package,
    );
    let (u1, target) = u.require_safe_name(package, no_name).find_package(
        platform,
        package,
        no_package,
    );
    let step = info("Uninstalling package: "@ + package);
    say_steady(t1, u1, step);
    let (t2, u2) = (t1.say(step), u1.say(step));
    run_adb_checked_steady(t2, u2, adb, uninstall_args(package));
    run_adb_checked_steady(u2, u2, target, uninstall_args(package));
    let (t3, out) = t2.run_adb_checked(adb, uninstall_args(package));
    let (u3, said) = u2.run_adb_checked(target, uninstall_args(package));
    log_all_steady(t3, u3, output_steps(out));
    log_all_steady(u3, u3, output_steps(said));
    let (t4, u4) = (t3.log_all(output_steps(out)), u3.log_all(output_steps(said)));
    say_steady(t4, u4, info("Uninstalled: "@ + package));
    one_device_on(adb, t, t1, t4.say(info("Uninstalled: "@ + package)));
}

/// Checking the device takes up where it was when more replies come in: what was asked and
/// logged so far is asked and logged again, question for question, and work that did not wait
/// ends as it did.
pub proof fn check_device_resumes(t: Talk, more: Seq<ReplyView>, platform: Platform)
    ensures
        resumes(t, t.check_device(platform), with_replies(t, more).check_device(platform)),
{
    with_replies_continues(t, more);
    check_device_steady(t, with_replies(t, more), platform);
}

/// Checking the device touches one device only: apart from the list of devices, all that is run
/// is run on it.
pub proof fn check_device_touches_one_device(t: Talk, platform: Platform)
    ensures
        exists|adb: TargetView| one_device(adb, t, t.check_device(platform).0),
{
    check_device_steady(t, t, platform);
}

/// Installing an APK takes up where it was when more replies come in: what was asked and
/// logged so far is asked and logged again, question for question, and work that did not wait
/// ends as it did.
pub proof fn install_apk_resumes(
    t: Talk,
    more: Seq<ReplyView>,
    platform: Platform,
    apk_path: Seq<char>,
    car_management: bool,
)
    ensures
        resumes(
            t,
            t.install_apk(platform, apk_path, car_management),
            with_replies(t, more).install_apk(platform, apk_path, car_management),
        ),
{
    with_replies_continues(t, more);
    install_apk_steady(t, with_replies(t, more), platform, apk_path, car_management);
}

/// Installing an APK touches one device only: apart from the list of devices, all that is run
/// is run on it.
pub proof fn install_apk_touches_one_device(
    t: Talk,
    platform: Platform,
    apk_path: Seq<char>,
    car_management: bool,
)
    ensures
        exists|adb: TargetView| one_device(
            adb,
            t,
            t.install_apk(platform, apk_path, car_management).0,
        ),
{
    install_apk_steady(t, t, platform, apk_path, car_management);
}

/// Granting permissions takes up where it was when more replies come in: what was asked and
/// logged so far is asked and logged again, question for question, and work that did not wait
/// ends as it did.
pub proof fn grant_all_permissions_resumes(
    t: Talk,
    more: Seq<ReplyView>,
    platform: Platform,
    package: Seq<char>,
)
    ensures
        resumes(
            t,
            (t.grant_all_permissions(platform, package), ()),
            (with_replies(t, more).grant_all_permissions(platform, package), ()),
        ),
{
    with_replies_continues(t, more);
    grant_all_permissions_steady(t, with_replies(t, more), platform, package);
}

/// Granting permissions touches one device only: apart from the list of devices, all that is run
/// is run on it.
pub proof fn grant_all_permissions_touches_one_device(
    t: Talk,
    platform: Platform,
    package: Seq<char>,
)
    ensures
        exists|adb: TargetView| one_device(adb, t, t.grant_all_permissions(platform, package)),
{
    grant_all_permissions_steady(t, t, platform, package);
}

/// Listing packages takes up where it was when more replies come in: what was asked and
/// logged so far is asked and logged again, question for question, and work that did not wait
/// ends as it did.
pub proof fn list_uninstallable_packages_resumes(t: Talk, more: Seq<ReplyView>, platform: Platform)
    ensures
        resumes(
            t,
            t.list_uninstallable_packages(platform),
            with_replies(t, more).list_uninstallable_packages(platform),
        ),
{
    with_replies_continues(t, more);
    list_uninstallable_packages_steady(t, with_replies(t, more), platform);
}

/// Listing packages touches one device only: apart from the list of devices, all that is run
/// is run on it.
pub proof fn list_uninstallable_packages_touches_one_device(t: Talk, platform: Platform)
    ensures
        exists|adb: TargetView| one_device(adb, t, t.list_uninstallable_packages(platform).0),
{
    list_uninstallable_packages_steady(t, t, platform);
}

/// Uninstalling a package takes up where it was when more replies come in: what was asked and
/// logged so far is asked and logged again, question for question, and work that did not wait
/// ends as it did.
pub proof fn uninstall_package_resumes(
    t: Talk,
    more: Seq<ReplyView>,
    platform: Platform,
    package: Seq<char>,
)
    ensures
        resumes(
            t,
            (t.uninstall_package(platform, package), ()),
            (with_replies(t, more).uninstall_package(platform, package), ()),
        ),
{
    with_replies_continues(t, more);
    uninstall_package_steady(t, with_replies(t, more), platform, package);
}

/// Uninstalling a package touches one device only: apart from the list of devices, all that is run
/// is run on it.
pub proof fn uninstall_package_touches_one_device(t: Talk, platform: Platform, package: Seq<char>)
    ensures
        exists|adb: TargetView| one_device(adb, t, t.uninstall_package(platform, package)),
{
    uninstall_package_steady(t, t, platform, package);
}

}
