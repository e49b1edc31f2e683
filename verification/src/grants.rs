//! Granting a package all the permissions that there are.

use vstd::prelude::*;

use crate::components::notification_listener_candidates;
use crate::packages::requested_permissions;
use crate::session::{
    halt_of, run_adb, run_adb_optional, session_is_live, AdbTarget, Ask, AskView, Halt, Session,
    Talk, TargetView,
};
use crate::text::{
    chars_of, concat2, concat3, concat4, has_text, includes, strs, text_of, texts, trim, trimmed,
};
use crate::worklog::{info, warn};

verus! {

broadcast use session_is_live;

/// How many times the right to mock locations is read back before it is given up.
pub const MOCK_LOCATION_ATTEMPTS: usize = 4;

/// The app operations that are allowed to every package.
pub open spec fn every_appop() -> Seq<Seq<char>> {
    seq![
        "MANAGE_EXTERNAL_STORAGE"@,
        "LEGACY_STORAGE"@,
        "READ_EXTERNAL_STORAGE"@,
        "WRITE_EXTERNAL_STORAGE"@,
        "SYSTEM_ALERT_WINDOW"@,
        "WRITE_SETTINGS"@,
        "REQUEST_INSTALL_PACKAGES"@,
        "RUN_IN_BACKGROUND"@,
        "RUN_ANY_IN_BACKGROUND"@,
        "START_FOREGROUND"@,
        "INSTANT_APP_START_FOREGROUND"@,
        "WAKE_LOCK"@,
        "POST_NOTIFICATION"@,
        "ACCESS_NOTIFICATIONS"@,
        "GET_USAGE_STATS"@,
        "SCHEDULE_EXACT_ALARM"@,
        "USE_EXACT_ALARM"@,
        "TURN_SCREEN_ON"@,
        "PICTURE_IN_PICTURE"@,
        "ACTIVATE_VPN"@,
        "ACTIVATE_PLATFORM_VPN"@,
        "COARSE_LOCATION"@,
        "FINE_LOCATION"@,
        "android:mock_location"@,
    ]
}

/// The app operations that are allowed to every package. A head unit has no settings in which they
/// could be allowed by hand.
pub fn all_appops() -> (r: [&'static str; 24])
    ensures
        strs(r@) == every_appop(),
{
    let ops = [
        // Storage
        "MANAGE_EXTERNAL_STORAGE",
        "LEGACY_STORAGE",
        "READ_EXTERNAL_STORAGE",
        "WRITE_EXTERNAL_STORAGE",
        // Windows over other applications, system settings
        "SYSTEM_ALERT_WINDOW",
        "WRITE_SETTINGS",
        // Installing applications, which application stores need
        "REQUEST_INSTALL_PACKAGES",
        // Work in the background
        "RUN_IN_BACKGROUND",
        "RUN_ANY_IN_BACKGROUND",
        "START_FOREGROUND",
        "INSTANT_APP_START_FOREGROUND",
        "WAKE_LOCK",
        // Notifications and usage statistics
        "POST_NOTIFICATION",
        "ACCESS_NOTIFICATIONS",
        "GET_USAGE_STATS",
        // Alarms
        "SCHEDULE_EXACT_ALARM",
        "USE_EXACT_ALARM",
        // Screen
        "TURN_SCREEN_ON",
        "PICTURE_IN_PICTURE",
        // VPN
        "ACTIVATE_VPN",
        "ACTIVATE_PLATFORM_VPN",
        // Location, true and mocked
        "COARSE_LOCATION",
        "FINE_LOCATION",
        "android:mock_location",
    ];
    assert(strs(ops@) =~= every_appop());
    ops
}

/// The arguments that grant a permission.
pub open spec fn grant_args(package: Seq<char>, permission: Seq<char>) -> Seq<Seq<char>> {
    seq!["shell"@, "pm"@, "grant"@, package, permission]
}

/// The arguments that allow an app operation.
pub open spec fn appop_args(package: Seq<char>, op: Seq<char>) -> Seq<Seq<char>> {
    seq!["shell"@, "appops"@, "set"@, package, op, "allow"@]
}

/// The arguments that read back the right to mock locations.
pub open spec fn mock_state_args(package: Seq<char>) -> Seq<Seq<char>> {
    seq!["shell"@, "cmd"@, "appops"@, "get"@, package, "android:mock_location"@]
}

/// The arguments that keep unused permissions from being revoked.
pub open spec fn keep_unused_args(package: Seq<char>) -> Seq<Seq<char>> {
    seq![
        "shell"@,
        "cmd"@,
        "appops"@,
        "set"@,
        package,
        "AUTO_REVOKE_PERMISSIONS_IF_UNUSED"@,
        "ignore"@,
    ]
}

/// The arguments that exempt a package from battery saving.
pub open spec fn whitelist_args(package: Seq<char>) -> Seq<Seq<char>> {
    seq!["shell"@, "dumpsys"@, "deviceidle"@, "whitelist"@, "+"@ + package]
}

/// The arguments that let a component read notifications.
pub open spec fn listener_args(component: Seq<char>) -> Seq<Seq<char>> {
    seq!["shell"@, "cmd"@, "notification"@, "allow_listener"@, component]
}

/// A command, and what is logged where it succeeds.
pub struct NotedCommand {
    pub args: Seq<Seq<char>>,
    pub note: Seq<char>,
}

/// The command that grants a permission.
pub open spec fn noted_grant(package: Seq<char>, permission: Seq<char>) -> NotedCommand {
    NotedCommand { args: grant_args(package, permission), note: "permission: "@ + permission }
}

/// The command that allows an app operation.
pub open spec fn noted_appop(package: Seq<char>, op: Seq<char>) -> NotedCommand {
    NotedCommand { args: appop_args(package, op), note: "appop: "@ + op + "=allow"@ }
}

/// The warning that a package may not mock locations.
pub open spec fn mock_refused(package: Seq<char>, state: Seq<char>) -> Seq<char> {
    "Фиктивные местоположения НЕ разрешены ("@ + trim(state)
        + ") — шеринг GPS работать не будет. Выдайте вручную: adb shell appops set "@ + package
        + " android:mock_location allow"@
}

impl Talk {
    /// Asks for a command to be run, and logs it where it succeeds.
    pub open spec fn noted(self, adb: TargetView, command: NotedCommand) -> Talk {
        let (t, out) = self.run_adb(adb, command.args);
        if out.success {
            t.say(info(command.note))
        } else {
            t
        }
    }

    /// Asks for commands to be run one after the other, and logs those that succeed.
    pub open spec fn each_noted(self, adb: TargetView, commands: Seq<NotedCommand>) -> Talk
        decreases commands.len(),
    {
        if self.halt is Some || commands.len() == 0 {
            self
        } else {
            self.noted(adb, commands[0]).each_noted(adb, commands.skip(1))
        }
    }

    /// Asks for commands to be run one after the other, and logs those that do not work.
    pub open spec fn each_optional(self, adb: TargetView, commands: Seq<Seq<Seq<char>>>) -> Talk
        decreases commands.len(),
    {
        if self.halt is Some || commands.len() == 0 {
            self
        } else {
            self.run_adb_optional(adb, commands[0]).each_optional(adb, commands.skip(1))
        }
    }

    /// Grants the package the permissions that it requests.
    pub open spec fn grant_manifest_permissions(self, adb: TargetView, package: Seq<char>) -> Talk {
        let (t, permissions) = self.say(
            info("Выдаю runtime permissions из manifest"@),
        ).requested_permissions(adb, package);
        t.each_noted(adb, permissions.map_values(|p: Seq<char>| noted_grant(package, p)))
    }

    /// Allows the package app operations.
    pub open spec fn set_appops(
        self,
        adb: TargetView,
        package: Seq<char>,
        ops: Seq<Seq<char>>,
    ) -> Talk {
        self.each_noted(adb, ops.map_values(|op: Seq<char>| noted_appop(package, op)))
    }

    /// Waits, and allows the package to mock locations once more.
    pub open spec fn allow_mock_again(self, adb: TargetView, package: Seq<char>) -> Talk {
        self.order(AskView::Sleep(2)).run_adb(
            adb,
            appop_args(package, "android:mock_location"@),
        ).0
    }

    /// Reads back whether the package may mock locations, and allows it again until it may, for as
    /// many attempts as are left. `state` is what was read last.
    pub open spec fn verify_mock_from(
        self,
        adb: TargetView,
        package: Seq<char>,
        attempt: nat,
        state: Seq<char>,
    ) -> Talk
        decreases MOCK_LOCATION_ATTEMPTS - attempt,
    {
        if self.halt is Some {
            self
        } else if attempt >= MOCK_LOCATION_ATTEMPTS {
            self.say(warn(mock_refused(package, state)))
        } else {
            let ready = if attempt > 0 {
                self.allow_mock_again(adb, package)
            } else {
                self
            };
            let (t, out) = ready.run_adb(adb, mock_state_args(package));
            if has_text(out.stdout, "allow"@) {
                t.say(info("Фиктивные местоположения разрешены"@))
            } else {
                t.verify_mock_from(adb, package, attempt + 1, out.stdout)
            }
        }
    }

    /// Makes sure that the package may mock locations, or warns that it may not.
    pub open spec fn verify_mock_location(self, adb: TargetView, package: Seq<char>) -> Talk {
        self.verify_mock_from(adb, package, 0, seq![])
    }

    /// Lets components read notifications, if there are any.
    pub open spec fn allow_listeners(self, adb: TargetView, components: Seq<Seq<char>>) -> Talk {
        if components.len() == 0 {
            self
        } else {
            self.say(info("Разрешаю доступ к уведомлениям"@)).each_optional(
                adb,
                components.map_values(|c: Seq<char>| listener_args(c)),
            )
        }
    }

    /// Grants the package all the permissions that there are.
    pub open spec fn grant_all_permissions_inner(
        self,
        adb: TargetView,
        package: Seq<char>,
    ) -> Talk {
        let granted = self.say(info("Выдаю все права: "@ + package)).grant_manifest_permissions(
            adb,
            package,
        ).say(
            info("Выставляю полный набор appops (фон, установка, VPN, экран, геолокация)"@),
        ).set_appops(adb, package, every_appop()).noted(
            adb,
            NotedCommand {
                args: keep_unused_args(package),
                note: "Авто-отзыв неиспользуемых прав отключён"@,
            },
        ).say(info("Исключаю из ограничений экономии батареи"@)).run_adb_optional(
            adb,
            whitelist_args(package),
        );
        let (t, listeners) = granted.notification_listener_candidates(adb, package);
        t.allow_listeners(adb, listeners).verify_mock_location(adb, package).say(
            info("Все права выданы: "@ + package),
        )
    }
}

/// Grants the package the permissions that it requests.
pub fn grant_manifest_permissions(adb: &AdbTarget, package_name: &str, session: &mut Session) -> (r:
    Result<(), Halt>)
    ensures
        old(session)@.grant_manifest_permissions(adb@, package_name@) == final(session)@.with(
            halt_of(r),
        ),
{
    session.info("Выдаю runtime permissions из manifest");
    let permissions = requested_permissions(adb, package_name, session)?;
    let ghost commands = texts(permissions@).map_values(
        |p: Seq<char>| noted_grant(package_name@, p),
    );
    let ghost start = session@;
    let mut i: usize = 0;
    assert(commands.skip(0) =~= commands);
    while i < permissions.len()
        invariant
            i <= permissions.len(),
            old(session)@.grant_manifest_permissions(adb@, package_name@) == start.each_noted(
                adb@,
                commands,
            ),
            commands == texts(permissions@).map_values(
                |p: Seq<char>| noted_grant(package_name@, p),
            ),
            start.each_noted(adb@, commands) == session@.each_noted(
                adb@,
                commands.skip(i as int),
            ),
        decreases permissions.len() - i,
    {
        proof {
            reveal_with_fuel(Talk::each_noted, 2);
        }
        assert(commands.skip(i as int)[0] == noted_grant(package_name@, permissions@[i as int]@));
        assert(commands.skip(i as int).skip(1) =~= commands.skip(i + 1));
        let args = ["shell", "pm", "grant", package_name, permissions[i].as_str()];
        assert(strs(args@) =~= grant_args(package_name@, permissions@[i as int]@));
        let output = run_adb(adb, &args, session)?;
        if output.success {
            session.info(concat2("permission: ", permissions[i].as_str()).as_str());
        }
        i = i + 1;
    }
    Ok(())
}

/// Allows the package app operations. Not every one exists on every device, so only those that
/// were allowed are logged.
pub fn set_appops(adb: &AdbTarget, package_name: &str, ops: &[&str], session: &mut Session) -> (r:
    Result<(), Halt>)
    ensures
        old(session)@.set_appops(adb@, package_name@, strs(ops@)) == final(session)@.with(
            halt_of(r),
        ),
{
    let ghost commands = strs(ops@).map_values(|op: Seq<char>| noted_appop(package_name@, op));
    let ghost start = session@;
    let mut i: usize = 0;
    assert(commands.skip(0) =~= commands);
    while i < ops.len()
        invariant
            i <= ops.len(),
            start == old(session)@,
            commands == strs(ops@).map_values(|op: Seq<char>| noted_appop(package_name@, op)),
            start.each_noted(adb@, commands) == session@.each_noted(
                adb@,
                commands.skip(i as int),
            ),
        decreases ops.len() - i,
    {
        proof {
            reveal_with_fuel(Talk::each_noted, 2);
        }
        assert(commands.skip(i as int)[0] == noted_appop(package_name@, ops@[i as int]@));
        assert(commands.skip(i as int).skip(1) =~= commands.skip(i + 1));
        let args = ["shell", "appops", "set", package_name, ops[i], "allow"];
        assert(strs(args@) =~= appop_args(package_name@, ops@[i as int]@));
        let output = run_adb(adb, &args, session)?;
        if output.success {
            session.info(concat3("appop: ", ops[i], "=allow").as_str());
        }
        i = i + 1;
    }
    Ok(())
}

/// Makes sure that the package may mock locations, or warns that it may not. The installation of a
/// large APK goes on for a while, and what is allowed before its end is lost without a word; so
/// what the device says is read back, and the right is given again until it is there.
pub fn verify_mock_location(adb: &AdbTarget, package_name: &str, session: &mut Session) -> (r:
    Result<(), Halt>)
    ensures
        old(session)@.verify_mock_location(adb@, package_name@) == final(session)@.with(
            halt_of(r),
        ),
{
    let mut mock_state = String::new();
    let mut attempt: usize = 0;
    while attempt < MOCK_LOCATION_ATTEMPTS
        invariant
            attempt <= MOCK_LOCATION_ATTEMPTS,
            old(session)@.verify_mock_location(adb@, package_name@) == session@.verify_mock_from(
                adb@,
                package_name@,
                attempt as nat,
                mock_state@,
            ),
        decreases MOCK_LOCATION_ATTEMPTS - attempt,
    {
        proof {
            reveal_with_fuel(Talk::verify_mock_from, 2);
        }
        if attempt > 0 {
            session.order(Ask::Sleep(2))?;
            let args = [
                "shell",
                "appops",
                "set",
                package_name,
                "android:mock_location",
                "allow",
            ];
            assert(strs(args@) =~= appop_args(package_name@, "android:mock_location"@));
            run_adb(adb, &args, session)?;
        }
        let args = ["shell", "cmd", "appops", "get", package_name, "android:mock_location"];
        assert(strs(args@) =~= mock_state_args(package_name@));
        mock_state = run_adb(adb, &args, session)?.stdout;
        if includes(&chars_of(mock_state.as_str()), &chars_of("allow")) {
            session.info("Фиктивные местоположения разрешены");
            return Ok(());
        }
        attempt = attempt + 1;
    }
    let state = text_of(&trimmed(&chars_of(mock_state.as_str())));
    let mut message = concat4(
        "Фиктивные местоположения НЕ разрешены (",
        state.as_str(),
        ") — шеринг GPS работать не будет. Выдайте вручную: adb shell appops set ",
        package_name,
    );
    message.append(" android:mock_location allow");
    session.warn(message.as_str());
    Ok(())
}

/// Lets components read notifications.
pub fn allow_each_listener(adb: &AdbTarget, components: &Vec<String>, session: &mut Session) -> (r:
    Result<(), Halt>)
    ensures
        old(session)@.each_optional(
            adb@,
            texts(components@).map_values(|c: Seq<char>| listener_args(c)),
        ) == final(session)@.with(halt_of(r)),
{
    let ghost commands = texts(components@).map_values(|c: Seq<char>| listener_args(c));
    let ghost start = session@;
    let mut i: usize = 0;
    assert(commands.skip(0) =~= commands);
    while i < components.len()
        invariant
            i <= components.len(),
            start == old(session)@,
            commands == texts(components@).map_values(|c: Seq<char>| listener_args(c)),
            start.each_optional(adb@, commands) == session@.each_optional(
                adb@,
                commands.skip(i as int),
            ),
        decreases components.len() - i,
    {
        proof {
            reveal_with_fuel(Talk::each_optional, 2);
        }
        assert(commands.skip(i as int)[0] == listener_args(components@[i as int]@));
        assert(commands.skip(i as int).skip(1) =~= commands.skip(i + 1));
        let args = [
            "shell",
            "cmd",
            "notification",
            "allow_listener",
            components[i].as_str(),
        ];
        assert(strs(args@) =~= listener_args(components@[i as int]@));
        run_adb_optional(adb, &args, session)?;
        i = i + 1;
    }
    Ok(())
}

/// Exempts the package from battery saving, which would cut off its work in the background.
pub fn whitelist_package(adb: &AdbTarget, package_name: &str, session: &mut Session) -> (r: Result<
    (),
    Halt,
>)
    ensures
        old(session)@.run_adb_optional(adb@, whitelist_args(package_name@))
            == final(session)@.with(halt_of(r)),
{
    let entry = concat2("+", package_name);
    let args = ["shell", "dumpsys", "deviceidle", "whitelist", entry.as_str()];
    assert(strs(args@) =~= whitelist_args(package_name@));
    run_adb_optional(adb, &args, session)
}

/// Grants the package all the permissions that there are: those of its manifest, the app
/// operations, work in the background, notifications, mock locations.
pub fn grant_all_permissions_inner(adb: &AdbTarget, package_name: &str, session: &mut Session) -> (r:
    Result<(), Halt>)
    ensures
        old(session)@.grant_all_permissions_inner(adb@, package_name@) == final(session)@.with(
            halt_of(r),
        ),
{
    session.info(concat2("Выдаю все права: ", package_name).as_str());
    grant_manifest_permissions(adb, package_name, session)?;
    session.info("Выставляю полный набор appops (фон, установка, VPN, экран, геолокация)");
    let ops = all_appops();
    set_appops(adb, package_name, &ops, session)?;
    // Android revokes the permissions of packages that have not been used for a while.
    let args = [
        "shell",
        "cmd",
        "appops",
        "set",
        package_name,
        "AUTO_REVOKE_PERMISSIONS_IF_UNUSED",
        "ignore",
    ];
    assert(strs(args@) =~= keep_unused_args(package_name@));
    let auto_revoke = run_adb(adb, &args, session)?;
    if auto_revoke.success {
        session.info("Авто-отзыв неиспользуемых прав отключён");
    }
    session.info("Исключаю из ограничений экономии батареи");
    whitelist_package(adb, package_name, session)?;
    // Access to notifications is no app operation but a list of listeners of its own.
    let listeners = notification_listener_candidates(adb, package_name, session)?;
    if listeners.len() > 0 {
        session.info("Разрешаю доступ к уведомлениям");
        allow_each_listener(adb, &listeners, session)?;
    }
    verify_mock_location(adb, package_name, session)?;
    session.info(concat2("Все права выданы: ", package_name).as_str());
    Ok(())
}

}
