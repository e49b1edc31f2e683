//! What single steps of work make of the replies to them.

use vstd::prelude::*;

use crate::commands::{
    last_with, list_added_args, manager_log_args, property_args, push_args, readable_args, refusal,
    start_args, stop_args, uninstall_args,
};
use crate::components::{admin_query, describe_args, listener_query};
use crate::device_laws::has_part;
use crate::devices::{devices_args, listed_devices, DeviceView};
use crate::error::ErrorView;
use crate::grants::{
    appop_args, grant_args, keep_unused_args, listener_args, mock_state_args, noted_appop,
    noted_grant, whitelist_args, NotedCommand,
};
use crate::listing_laws::{is_name_letter, safe_package_names_are};
use crate::packages::{first_new, list_args, listed_packages, lists_package, permissions_in};
use crate::session::{
    command_line, output_steps, AskView, HaltView, OutputView, ReplyView, Talk, TargetView,
};
use crate::text::{has_text, is_white, lines, trim};
use crate::text_laws::{
    first_line_ends_at_feed, is_blank, part_splits, part_stands_anywhere,
    text_without_feed_is_one_line, white_space_around_goes,
};
use crate::tools::{adb_program, Platform};
use crate::vehicle::{get_owner_args, preinstall_args, set_owner_args};
use crate::worklog::{filled_lines, info, warn, StepView};

verus! {

/// Whether the conversation goes on and the reply at hand is the given one.
pub open spec fn gets(t: Talk, reply: ReplyView) -> bool {
    t.halt is None && t.next < t.replies.len() && t.replies[t.next as int] == reply
}

/// The conversation with one more question asked and answered.
pub open spec fn past(t: Talk, q: AskView) -> Talk {
    Talk { next: t.next + 1, asked: t.asked.push(q), ..t }
}

/// The conversation, stopped by an error.
pub open spec fn failed(t: Talk, e: ErrorView) -> Talk {
    Talk { halt: Some(HaltView::Failed(e)), ..t }
}

/// The conversation with one more entry in its log.
pub open spec fn logged(t: Talk, level: Seq<char>, message: Seq<char>) -> Talk {
    Talk { log: t.log.push(StepView { level, message }), ..t }
}

/// The question that asks for adb to be run on a device.
pub open spec fn adb_question(adb: TargetView, args: Seq<Seq<char>>) -> AskView {
    AskView::Run(adb.path, seq!["-s"@, adb.serial] + args)
}

/// A question is answered with the reply at hand; without one it waits.
pub proof fn questions_get_the_next_reply(t: Talk, q: AskView, reply: ReplyView)
    ensures
        gets(t, reply) ==> t.ask(q) == (past(t, q), reply),
        t.halt is None && t.next >= t.replies.len() ==> t.ask(q).0 == (Talk {
            asked: t.asked.push(q),
            halt: Some(HaltView::Waiting(q)),
            ..t
        }),
        gets(t, ReplyView::Done) ==> t.order(q) == past(t, q),
        forall|b: bool| gets(t, ReplyView::Flag(b)) ==> #[trigger] t.flag(q) == (past(t, q), b),
        forall|s: Seq<char>|
            gets(t, ReplyView::Text(s)) ==> #[trigger] t.text(q) == (past(t, q), s),
        forall|e: ErrorView| #[trigger]
            gets(t, ReplyView::Failed(e)) ==> {
                &&& t.order(q) == failed(past(t, q), e)
                &&& t.flag(q).0 == failed(past(t, q), e)
                &&& t.text(q).0 == failed(past(t, q), e)
            },
{
}

/// A command for the device is asked for with the serial number ahead of it, and gives what came
/// back, whether it succeeded or not.
pub proof fn commands_give_their_output(
    t: Talk,
    adb: TargetView,
    args: Seq<Seq<char>>,
    out: OutputView,
    e: ErrorView,
)
    ensures
        gets(t, ReplyView::Output(out)) ==> t.run_adb(adb, args) == (
            past(t, adb_question(adb, args)),
            out,
        ),
        gets(t, ReplyView::Failed(e)) ==> t.run_adb(adb, args).0 == failed(
            past(t, adb_question(adb, args)),
            e,
        ),
{
}

/// A command that must succeed fails the work exactly where it could not be run or did not succeed.
pub proof fn checked_commands_fail_the_work(
    t: Talk,
    adb: TargetView,
    args: Seq<Seq<char>>,
    out: OutputView,
    e: ErrorView,
)
    ensures
        ({
            let after = past(t, adb_question(adb, args));
            &&& gets(t, ReplyView::Output(out)) && out.success ==> t.run_adb_checked(adb, args) == (
                after,
                out,
            )
            &&& gets(t, ReplyView::Output(out)) && !out.success ==> t.run_adb_checked(adb, args).0
                == failed(
                after,
                ErrorView::Message(
                    "Команда завершилась с ошибкой: "@ + out.command + "\n"@ + out.stdout
                        + out.stderr,
                ),
            )
            &&& gets(t, ReplyView::Failed(e)) ==> t.run_adb_checked(adb, args).0 == failed(after, e)
        }),
{
}

/// A command that need not succeed is warned of exactly where it could not be run or did not
/// succeed.
pub proof fn optional_commands_are_warned_of(
    t: Talk,
    adb: TargetView,
    args: Seq<Seq<char>>,
    out: OutputView,
    e: ErrorView,
)
    ensures
        ({
            let after = past(t, adb_question(adb, args));
            &&& gets(t, ReplyView::Output(out)) && out.success ==> t.run_adb_optional(adb, args)
                == after
            &&& gets(t, ReplyView::Output(out)) && !out.success ==> t.run_adb_optional(adb, args)
                == logged(
                after,
                "warn"@,
                "Необязательная команда завершилась с ошибкой: "@ + out.command + "\n"@
                    + out.stderr,
            )
            &&& gets(t, ReplyView::Failed(e)) ==> t.run_adb_optional(adb, args) == logged(
                after,
                "warn"@,
                "Необязательная команда не выполнена: "@ + match e {
                    ErrorView::Message(text) => text,
                    ErrorView::Io(text) => text,
                    ErrorView::Zip(text) => text,
                },
            )
        }),
{
}

/// A command with a note is noted exactly where it succeeded.
pub proof fn success_is_noted(
    t: Talk,
    adb: TargetView,
    command: NotedCommand,
    out: OutputView,
    e: ErrorView,
)
    ensures
        ({
            let after = past(t, adb_question(adb, command.args));
            &&& gets(t, ReplyView::Output(out)) ==> t.noted(adb, command) == if out.success {
                logged(after, "info"@, command.note)
            } else {
                after
            }
            &&& gets(t, ReplyView::Failed(e)) ==> t.noted(adb, command) == failed(after, e)
        }),
{
}

/// Commands with notes are run one after the other.
pub proof fn noted_commands_run_in_turn(
    t: Talk,
    adb: TargetView,
    a: Seq<NotedCommand>,
    command: NotedCommand,
    b: Seq<NotedCommand>,
)
    ensures
        t.each_noted(adb, a + b) == t.each_noted(adb, a).each_noted(adb, b),
        t.each_noted(adb, seq![command]) == t.noted(adb, command),
        t.each_noted(adb, seq![]) == t,
    decreases a.len(),
{
    reveal_with_fuel(Talk::each_noted, 2);
    let one = seq![command];
    assert(one[0] == command);
    assert(one.skip(1) =~= Seq::empty());
    if a.len() > 0 {
        assert((a + b)[0] == a[0]);
        assert((a + b).skip(1) =~= a.skip(1) + b);
        noted_commands_run_in_turn(t.noted(adb, a[0]), adb, a.skip(1), command, b);
    } else {
        assert(a + b =~= b);
    }
}

/// Commands that need not succeed are run one after the other.
pub proof fn optional_commands_run_in_turn(
    t: Talk,
    adb: TargetView,
    a: Seq<Seq<Seq<char>>>,
    command: Seq<Seq<char>>,
    b: Seq<Seq<Seq<char>>>,
)
    ensures
        t.each_optional(adb, a + b) == t.each_optional(adb, a).each_optional(adb, b),
        t.each_optional(adb, seq![command]) == t.run_adb_optional(adb, command),
        t.each_optional(adb, seq![]) == t,
    decreases a.len(),
{
    reveal_with_fuel(Talk::each_optional, 2);
    let one = seq![command];
    assert(one[0] == command);
    assert(one.skip(1) =~= Seq::empty());
    if a.len() > 0 {
        assert((a + b)[0] == a[0]);
        assert((a + b).skip(1) =~= a.skip(1) + b);
        optional_commands_run_in_turn(t.run_adb_optional(adb, a[0]), adb, a.skip(1), command, b);
    } else {
        assert(a + b =~= b);
    }
}

/// The words of the commands that are run on the device.
pub proof fn commands_are(
    package: Seq<char>,
    permission: Seq<char>,
    op: Seq<char>,
    component: Seq<char>,
    name: Seq<char>,
    from: Seq<char>,
    to: Seq<char>,
)
    ensures
        grant_args(package, permission) == seq!["shell"@, "pm"@, "grant"@, package, permission],
        appop_args(package, op) == seq!["shell"@, "appops"@, "set"@, package, op, "allow"@],
        mock_state_args(package) == seq![
            "shell"@,
            "cmd"@,
            "appops"@,
            "get"@,
            package,
            "android:mock_location"@,
        ],
        keep_unused_args(package) == seq![
            "shell"@,
            "cmd"@,
            "appops"@,
            "set"@,
            package,
            "AUTO_REVOKE_PERMISSIONS_IF_UNUSED"@,
            "ignore"@,
        ],
        whitelist_args(package) == seq![
            "shell"@,
            "dumpsys"@,
            "deviceidle"@,
            "whitelist"@,
            "+"@ + package,
        ],
        listener_args(component) == seq![
            "shell"@,
            "cmd"@,
            "notification"@,
            "allow_listener"@,
            component,
        ],
        listener_query(package) == seq![
            "shell"@,
            "cmd"@,
            "package"@,
            "query-services"@,
            "-a"@,
            "android.service.notification.NotificationListenerService"@,
            package,
        ],
        admin_query(package) == seq![
            "shell"@,
            "cmd"@,
            "package"@,
            "query-receivers"@,
            "-a"@,
            "android.app.action.DEVICE_ADMIN_ENABLED"@,
            package,
        ],
        describe_args(package) == seq!["shell"@, "dumpsys"@, "package"@, package],
        set_owner_args(component) == seq!["shell"@, "dpm"@, "set-device-owner"@, component],
        get_owner_args() == seq!["shell"@, "dpm"@, "get-device-owner"@],
        preinstall_args() == seq!["shell"@, "setprop"@, "persist.sys.sv.isl"@, "true"@],
        property_args(name) == seq!["shell"@, "getprop"@, name],
        push_args(from, to) == seq!["push"@, from, to],
        readable_args(to) == seq!["shell"@, "chmod"@, "644"@, to],
        uninstall_args(package) == seq!["shell"@, "pm"@, "uninstall"@, package],
        stop_args(package) == seq!["shell"@, "am"@, "force-stop"@, package],
        start_args(package) == seq![
            "shell"@,
            "monkey"@,
            "-p"@,
            package,
            "-c"@,
            "android.intent.category.LAUNCHER"@,
            "1"@,
        ],
        list_args() == seq!["shell"@, "pm"@, "list"@, "packages"@],
        list_added_args() == seq!["shell"@, "pm"@, "list"@, "packages"@, "-3"@],
        manager_log_args() == seq![
            "shell"@,
            "logcat"@,
            "-d"@,
            "-t"@,
            "600"@,
            "-s"@,
            "PackageManager:W"@,
        ],
        devices_args() == seq!["devices"@, "-l"@],
        noted_grant(package, permission).args == grant_args(package, permission),
        noted_grant(package, permission).note == "permission: "@ + permission,
        noted_appop(package, op).args == appop_args(package, op),
        noted_appop(package, op).note == "appop: "@ + op + "=allow"@,
{
}

/// A line of what a command wrote is logged as it stands, ahead of the other lines, unless it is
/// blank; what it wrote as errors comes last, as warnings.
pub proof fn output_is_logged_line_by_line(line: Seq<char>, rest: Seq<char>, out: OutputView)
    requires
        !line.contains('\n'),
        line.len() == 0 || line.last() != '\r',
    ensures
        is_blank(line) ==> filled_lines(line.push('\n') + rest) == filled_lines(rest),
        !is_blank(line) ==> filled_lines(line.push('\n') + rest) == seq![line] + filled_lines(rest),
        is_blank(line) ==> filled_lines(line) == Seq::<Seq<char>>::empty(),
        !is_blank(line) ==> filled_lines(line) == seq![line],
        output_steps(out).len() == filled_lines(out.stdout).len() + filled_lines(out.stderr).len(),
        forall|i: int|
            0 <= i < filled_lines(out.stdout).len() ==> #[trigger] output_steps(out)[i] == (
            StepView { level: "info"@, message: filled_lines(out.stdout)[i] }),
        forall|i: int|
            0 <= i < filled_lines(out.stderr).len() ==> #[trigger] output_steps(
                out,
            )[filled_lines(out.stdout).len() + i] == (StepView {
                level: "warn"@,
                message: filled_lines(out.stderr)[i],
            }),
{
    reveal(Seq::filter);
    let keep = |line: Seq<char>| trim(line).len() > 0;
    let one = seq![line];
    first_line_ends_at_feed(line, rest);
    Seq::filter_distributes_over_add(one, lines(rest), keep);
    assert(one.drop_last() =~= Seq::empty());
    assert(one.last() == line);
    assert(Seq::<Seq<char>>::empty().filter(keep) =~= Seq::empty());
    trim_is_empty_where_blank(line);
    text_without_feed_is_one_line(line);
    if is_blank(line) {
        assert(one.filter(keep) =~= Seq::empty());
        assert(Seq::<Seq<char>>::empty() + filled_lines(rest) =~= filled_lines(rest));
    } else {
        assert(one.filter(keep) =~= one);
    }
}

proof fn trim_is_empty_where_blank(s: Seq<char>)
    ensures
        is_blank(s) <==> trim(s).len() == 0,
    decreases s.len(),
{
    if is_blank(s) {
        let empty = Seq::<char>::empty();
        assert(s + empty + empty =~= s);
        white_space_around_goes(s, empty, empty);
    } else if s.len() > 0 && is_white(s[0]) {
        trim_is_empty_where_blank(s.skip(1));
        assert(trim(s) == trim(s.skip(1)));
        if is_blank(s.skip(1)) {
            assert forall|i: int| 0 <= i < s.len() implies is_white(
                #[trigger] s[i],
            ) by {
                if i > 0 {
                    assert(s.skip(1)[i - 1] == s[i]);
                }
            }
        }
    } else if s.len() > 0 && is_white(s.last()) {
        trim_is_empty_where_blank(s.drop_last());
        assert(trim(s) == trim(s.drop_last()));
        if is_blank(s.drop_last()) {
            assert(s.drop_last()[0] == s[0]);
        }
    }
}

proof fn last_with_is_last(all: Seq<Seq<char>>, part: Seq<char>, k: int)
    requires
        -1 <= k < all.len(),
        k >= 0 ==> has_text(all[k], part),
        forall|j: int| k < j < all.len() ==> !has_text(#[trigger] all[j], part),
    ensures
        last_with(all, part) == if k >= 0 {
            Some(all[k])
        } else {
            None
        },
    decreases all.len(),
{
    if all.len() > 0 && k < all.len() - 1 {
        assert(!has_text(all[all.len() - 1], part));
        if k >= 0 {
            assert(all.drop_last()[k] == all[k]);
        }
        assert forall|j: int| k < j < all.drop_last().len() implies !has_text(
            #[trigger] all.drop_last()[j],
            part,
        ) by {
            assert(all.drop_last()[j] == all[j]);
        }
        last_with_is_last(all.drop_last(), part, k);
    }
}

/// The reason for a refusal is the last line of the log in which the package stands, wherever in
/// the line, without the white space around it; without such a line there is none.
pub proof fn last_line_about_the_package_is_the_reason(log: Seq<char>, package: Seq<char>, k: int)
    requires
        -1 <= k < lines(log).len(),
        k >= 0 ==> has_part(lines(log)[k], package),
        forall|j: int| k < j < lines(log).len() ==> !has_part(#[trigger] lines(log)[j], package),
    ensures
        refusal(log, package) == if k >= 0 {
            trim(lines(log)[k])
        } else {
            "причина не найдена в логе PackageManager"@
        },
{
    let all = lines(log);
    if k >= 0 {
        let (a, b) = choose|a: Seq<char>, b: Seq<char>| all[k] == #[trigger] (a + package + b);
        part_stands_anywhere(a, package, b);
    }
    assert forall|j: int| k < j < all.len() implies !has_text(#[trigger] all[j], package) by {
        if has_text(all[j], package) {
            let (a, b) = part_splits(all[j], package);
            assert(all[j] == a + package + b);
            assert(has_part(all[j], package));
        }
    }
    last_with_is_last(all, package, k);
}

/// What the device says of its packages, of one package and of its permissions is read from the
/// output of one command. Whether the package is there does not depend on the command's success.
pub proof fn packages_are_read_from_one_command(
    t: Talk,
    adb: TargetView,
    package: Seq<char>,
    before: Seq<Seq<char>>,
    out: OutputView,
)
    requires
        gets(t, ReplyView::Output(out)),
    ensures
        t.is_package_installed(adb, package) == (
            past(t, adb_question(adb, list_args().push(package))),
            lists_package(out.stdout, package),
        ),
        out.success ==> t.list_packages(adb) == (
            past(t, adb_question(adb, list_args())),
            listed_packages(out.stdout),
        ),
        out.success ==> t.requested_permissions(adb, package) == (
            past(t, adb_question(adb, describe_args(package))),
            permissions_in(out.stdout),
        ),
        out.success && first_new(listed_packages(out.stdout), before) is Some
            ==> t.detect_new_package(adb, before) == (
            past(t, adb_question(adb, list_args())),
            first_new(listed_packages(out.stdout), before)->0,
        ),
        out.success && first_new(listed_packages(out.stdout), before) is None
            ==> t.detect_new_package(adb, before).0 == failed(
            past(t, adb_question(adb, list_args())),
            ErrorView::Message(
                "APK установлен, но имя пакета не удалось определить автоматически"@,
            ),
        ),
{
}

/// A name or a property that cannot be found out is left open, and the work goes on.
pub proof fn what_is_not_told_is_left_open(
    t: Talk,
    adb: TargetView,
    name: Seq<char>,
    apk_path: Seq<char>,
    out: OutputView,
    text: Seq<char>,
    e: ErrorView,
)
    ensures
        gets(t, ReplyView::Output(out)) ==> t.maybe_property(adb, name) == (
            past(t, adb_question(adb, property_args(name))),
            if out.success {
                Some(trim(out.stdout))
            } else {
                None
            },
        ),
        gets(t, ReplyView::Failed(e)) ==> t.maybe_property(adb, name) == (
            past(t, adb_question(adb, property_args(name))),
            None::<Seq<char>>,
        ),
        gets(t, ReplyView::Text(text)) ==> t.package_hint(apk_path) == (
            past(t, AskView::ApkPackage(apk_path)),
            Some(text),
        ),
        gets(t, ReplyView::Failed(e)) ==> t.package_hint(apk_path) == (
            past(t, AskView::ApkPackage(apk_path)),
            None::<Seq<char>>,
        ),
{
}

/// A directory is removed exactly where it is there.
pub proof fn only_what_is_there_is_removed(t: Talk, dir: Seq<Seq<char>>)
    ensures
        gets(t, ReplyView::Flag(false)) ==> t.remove_if_there(dir) == past(t, AskView::Exists(dir)),
        gets(t, ReplyView::Flag(true)) && gets(past(t, AskView::Exists(dir)), ReplyView::Done)
            ==> t.remove_if_there(dir) == past(
            past(t, AskView::Exists(dir)),
            AskView::RemoveDir(dir),
        ),
{
}

/// An installed version is uninstalled exactly where its name is known and the device lists it.
pub proof fn only_a_listed_version_is_uninstalled(
    t: Talk,
    adb: TargetView,
    package: Seq<char>,
    out: OutputView,
)
    requires
        gets(t, ReplyView::Output(out)),
    ensures
        ({
            let after = past(t, adb_question(adb, list_args().push(package)));
            t.remove_installed(adb, Some(package)) == if lists_package(out.stdout, package) {
                logged(
                    after,
                    "info"@,
                    "Снимаю установленную версию "@ + package,
                ).run_adb_optional(adb, uninstall_args(package))
            } else {
                after
            }
        }),
        t.remove_installed(adb, None) == t,
{
}

/// Once the installation has run, a known package must be listed: the work goes on with it where it
/// is, and fails with the reason from the log where it is not.
pub proof fn a_package_that_is_not_listed_fails_the_installation(
    t: Talk,
    adb: TargetView,
    package: Seq<char>,
    before: Seq<Seq<char>>,
    out: OutputView,
    log: OutputView,
)
    requires
        gets(t, ReplyView::Output(out)),
    ensures
        ({
            let after = past(t, adb_question(adb, list_args().push(package)));
            let r = t.installed_package(adb, Some(package), before);
            &&& lists_package(out.stdout, package) ==> r == (after, package)
            &&& !lists_package(out.stdout, package) && gets(after, ReplyView::Output(log))
                ==> r.0 == failed(
                past(after, adb_question(adb, manager_log_args())),
                ErrorView::Message(
                    "Установка "@ + package + " не завершилась: "@ + refusal(log.stdout, package),
                ),
            )
        }),
{
}

/// A command as the user reads it has the program ahead of its arguments, each behind a space.
pub proof fn command_lines_are(
    program: Seq<char>,
    args: Seq<Seq<char>>,
    last: Seq<char>,
)
    ensures
        args.len() > 0 ==> command_line(program, args.push(last)) == command_line(program, args)
            + " "@ + last,
        command_line(program, seq![last]) == program + " "@ + last,
{
    reveal_strlit(" ");
    let sep = seq![' '];
    assert(args.push(last).drop_last() =~= args);
    assert(sep =~= " "@);
    if args.len() > 0 {
        assert(command_line(program, args.push(last)) =~= command_line(program, args) + " "@
            + last);
    }
}

/// The devices are read from the list that adb prints, if adb could print it.
pub proof fn devices_are_read_from_the_list(t: Talk, path: Seq<Seq<char>>, out: OutputView)
    requires
        gets(t, ReplyView::Output(out)),
    ensures
        out.success ==> t.list_adb_devices(path) == (
            past(t, AskView::Run(path, seq!["devices"@, "-l"@])),
            listed_devices(out.stdout),
        ),
        !out.success ==> t.list_adb_devices(path).0 == failed(
            past(t, AskView::Run(path, seq!["devices"@, "-l"@])),
            ErrorView::Message(
                "Не удалось получить список ADB-устройств: "@ + out.stdout + out.stderr,
            ),
        ),
{
}

/// There is a head unit exactly where a device of the list is ready.
pub proof fn a_ready_device_is_the_head_unit(t: Talk, path: Seq<Seq<char>>)
    requires
        t.list_adb_devices(path).0.halt is None,
    ensures
        ({
            let (after, devices) = t.list_adb_devices(path);
            let r = t.resolve_head_unit(path).0;
            &&& (exists|k: int| 0 <= k < devices.len() && (#[trigger] devices[k]).state == "device"@)
                ==> r == after
            &&& (forall|k: int|
                0 <= k < devices.len() ==> (#[trigger] devices[k]).state != "device"@) ==> r
                == failed(
                after,
                ErrorView::Message("ADB-устройство не подключено или не авторизовано"@),
            )
        }),
{
    let devices = t.list_adb_devices(path).1;
    let ready = |d: DeviceView| d.state == "device"@;
    if exists|k: int| 0 <= k < devices.len() && (#[trigger] devices[k]).state == "device"@ {
        let k = choose|k: int| 0 <= k < devices.len() && (#[trigger] devices[k]).state == "device"@;
        devices.lemma_filter_contains(ready, k);
    }
    if forall|k: int| 0 <= k < devices.len() ==> (#[trigger] devices[k]).state != "device"@ {
        if devices.filter(ready).len() > 0 {
            devices.lemma_filter_pred(ready, 0);
            devices.lemma_filter_contains_rev(ready, devices.filter(ready)[0]);
        }
    }
}

/// Work on a package goes on where the device lists it, and fails where it does not.
pub proof fn work_needs_the_package(
    t: Talk,
    platform: Platform,
    package: Seq<char>,
    words: Seq<char>,
    out: OutputView,
)
    requires
        gets(
            t.ensure_adb(platform).resolve_head_unit(
                adb_program(platform.windows),
            ).0,
            ReplyView::Output(out),
        ),
    ensures
        ({
            let (found, adb) = t.ensure_adb(platform).resolve_head_unit(
                adb_program(platform.windows),
            );
            let after = past(found, adb_question(adb, list_args().push(package)));
            t.find_package(platform, package, words).0 == if lists_package(out.stdout, package) {
                after
            } else {
                failed(after, ErrorView::Message(words + package))
            }
        }),
{
}

/// A reply of another kind than the question wants stops the work.
pub proof fn replies_must_fit(t: Talk, q: AskView, reply: ReplyView)
    requires
        gets(t, reply),
        reply !is Failed,
    ensures
        ({
            let stopped = Talk { halt: Some(HaltView::Unexpected), ..past(t, q) };
            &&& reply !is Done ==> t.order(q) == stopped
            &&& reply !is Flag ==> t.flag(q).0 == stopped
            &&& reply !is Text ==> t.text(q).0 == stopped
        }),
{
}

/// The right to mock locations is given again after two seconds.
pub proof fn mock_right_is_given_again(
    t: Talk,
    adb: TargetView,
    package: Seq<char>,
    out: OutputView,
)
    requires
        gets(t, ReplyView::Done),
        gets(past(t, AskView::Sleep(2)), ReplyView::Output(out)),
    ensures
        t.allow_mock_again(adb, package) == past(
            past(t, AskView::Sleep(2)),
            adb_question(
                adb,
                seq!["shell"@, "appops"@, "set"@, package, "android:mock_location"@, "allow"@],
            ),
        ),
{
}

/// Work on a package with a safe name looks for the package and then goes on with it.
pub proof fn safe_names_are_worked_on(t: Talk, platform: Platform, package: Seq<char>)
    requires
        exists|k: int| 0 <= k < package.len() && #[trigger] package[k] == '.',
        forall|i: int| 0 <= i < package.len() ==> is_name_letter(#[trigger] package[i]),
    ensures
        ({
            let (t1, adb) = t.find_package(platform, package, "Пакет не установлен: "@);
            t.grant_all_permissions(platform, package) == t1.grant_all_permissions_inner(
                adb,
                package,
            )
        }),
        forall|words: Seq<char>| #[trigger] t.require_safe_name(package, words) == t,
{
    safe_package_names_are(package);
}

}
