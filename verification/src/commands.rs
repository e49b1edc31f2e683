//! What the user can have done.

use vstd::prelude::*;

use crate::devices::{ensure_device, maybe_text, resolve_head_unit};
use crate::grants::grant_all_permissions_inner;
use crate::packages::{
    detect_new_package, is_package_installed, is_package_name, is_safe_package_name, list_args,
    list_packages, parse_uninstallable, uninstallable,
};
use crate::session::{
    append_output, failure, halt_of, output_steps, run_adb, run_adb_checked, run_adb_optional,
    session_is_live, AdbTarget, Ask, AskView, Halt, Session, Talk, TargetView,
};
use crate::text::{
    chars_of, concat2, concat4, copies, has_text, includes, lines, rows, sorted_texts, split_lines,
    strs, text_of, texts, trim, trimmed,
};
use crate::tools::{adb_program, ensure_adb, resource_localinstall, Platform};
use crate::vehicle::{
    apply_device_owner_inner, apply_vehicle_management_inner, apply_vehicle_preinstall,
};
use crate::worklog::{info, Step, StepView};

verus! {

broadcast use session_is_live;

/// Where the APK is put on the device.
pub const REMOTE_APK: &'static str = "/data/local/tmp/desaysv-install-target.apk";

/// Where the install helper is put on the device.
pub const REMOTE_HELPER: &'static str = "/data/local/tmp/desaysv-localinstall.apk";

/// What is known of the head unit.
#[derive(Debug)]
pub struct DeviceInfo {
    pub connected: bool,
    pub adb_path: Option<String>,
    pub serial: Option<String>,
    pub model: Option<String>,
    pub android: Option<String>,
}

/// The value of a [`DeviceInfo`].
pub struct DeviceInfoView {
    pub connected: bool,
    pub adb_path: Option<Seq<char>>,
    pub serial: Option<Seq<char>>,
    pub model: Option<Seq<char>>,
    pub android: Option<Seq<char>>,
}

impl View for DeviceInfo {
    type V = DeviceInfoView;

    open spec fn view(&self) -> DeviceInfoView {
        DeviceInfoView {
            connected: self.connected,
            adb_path: maybe_text(self.adb_path),
            serial: maybe_text(self.serial),
            model: maybe_text(self.model),
            android: maybe_text(self.android),
        }
    }
}

/// What an installation led to.
#[derive(Debug)]
pub struct InstallResult {
    pub package_name: String,
    pub steps: Vec<Step>,
}

/// The values of the entries of a log.
pub open spec fn step_views(steps: Seq<Step>) -> Seq<StepView> {
    steps.map_values(|s: Step| s@)
}

/// The arguments that ask for a property of the device.
pub open spec fn property_args(name: Seq<char>) -> Seq<Seq<char>> {
    seq!["shell"@, "getprop"@, name]
}

impl Talk {
    /// The conversation after work that began in the conversation `before`, in which an error of
    /// that work is passed over.
    pub open spec fn forgiven(self, before: Talk) -> Talk {
        if before.halt is None && self.halt is Some && self.halt->0 is Failed {
            self.with(None)
        } else {
            self
        }
    }

    /// Asks for a property of the device.
    pub open spec fn adb_shell_prop(self, adb: TargetView, name: Seq<char>) -> (Talk, Seq<char>) {
        let (t, out) = self.run_adb_checked(adb, property_args(name));
        (t, trim(out.stdout))
    }

    /// Asks for a property of the device that may be missing.
    pub open spec fn maybe_property(self, adb: TargetView, name: Seq<char>) -> (
        Talk,
        Option<Seq<char>>,
    ) {
        let (t, value) = self.adb_shell_prop(adb, name);
        (
            t.forgiven(self),
            if t.halt is None {
                Some(value)
            } else {
                None
            },
        )
    }

    /// Finds out what is known of the head unit. That there is none is no error.
    pub open spec fn check_device(self, platform: Platform) -> (Talk, DeviceInfoView) {
        let path = adb_program(platform.windows);
        let (ready, shown) = self.ensure_adb(platform).text(AskView::ShowPath(path));
        let (found, adb) = ready.resolve_head_unit(path);
        if ready.halt is None && found.halt is Some && found.halt->0 is Failed {
            (
                found.with(None),
                DeviceInfoView {
                    connected: false,
                    adb_path: Some(shown),
                    serial: None,
                    model: None,
                    android: None,
                },
            )
        } else {
            let (t1, model) = found.maybe_property(adb, "ro.product.model"@);
            let (t2, android) = t1.maybe_property(adb, "ro.build.version.release"@);
            (
                t2,
                DeviceInfoView {
                    connected: true,
                    adb_path: Some(shown),
                    serial: Some(adb.serial),
                    model,
                    android,
                },
            )
        }
    }
}

/// Asks for a property of the device.
pub fn adb_shell_prop(adb: &AdbTarget, prop: &str, session: &mut Session) -> (r: Result<
    String,
    Halt,
>)
    ensures
        old(session)@.adb_shell_prop(adb@, prop@).0 == final(session)@.with(halt_of(r)),
        r matches Ok(value) ==> value@ == old(session)@.adb_shell_prop(adb@, prop@).1,
{
    let args = ["shell", "getprop", prop];
    assert(strs(args@) =~= property_args(prop@));
    let out = run_adb_checked(adb, &args, session)?;
    Ok(text_of(&trimmed(&chars_of(out.stdout.as_str()))))
}

/// Asks for a property of the device that may be missing.
fn maybe_property(adb: &AdbTarget, prop: &str, session: &mut Session) -> (r: Result<
    Option<String>,
    Halt,
>)
    ensures
        old(session)@.maybe_property(adb@, prop@).0 == final(session)@.with(halt_of(r)),
        r matches Ok(value) ==> maybe_text(value) == old(session)@.maybe_property(
            adb@,
            prop@,
        ).1,
{
    match adb_shell_prop(adb, prop, session) {
        Ok(value) => Ok(Some(value)),
        Err(Halt::Failed(_)) => Ok(None),
        Err(h) => Err(h),
    }
}

/// Finds out what is known of the head unit. That there is none is no error.
pub fn check_device(platform: Platform, session: &mut Session) -> (r: Result<DeviceInfo, Halt>)
    ensures
        old(session)@.check_device(platform).0 == final(session)@.with(halt_of(r)),
        r matches Ok(device) ==> device@ == old(session)@.check_device(platform).1,
{
    let path = ensure_adb(platform, session)?;
    let shown = session.text(Ask::ShowPath(copies(&path)))?;
    match resolve_head_unit(&path, session) {
        Ok(adb) => {
            let model = maybe_property(&adb, "ro.product.model", session)?;
            let android = maybe_property(&adb, "ro.build.version.release", session)?;
            Ok(
                DeviceInfo {
                    connected: true,
                    adb_path: Some(shown),
                    serial: Some(adb.serial),
                    model,
                    android,
                },
            )
        },
        Err(Halt::Failed(_)) => Ok(
            DeviceInfo {
                connected: false,
                adb_path: Some(shown),
                serial: None,
                model: None,
                android: None,
            },
        ),
        Err(h) => Err(h),
    }
}

/// The arguments that copy a file to the device.
pub open spec fn push_args(from: Seq<char>, to: Seq<char>) -> Seq<Seq<char>> {
    seq!["push"@, from, to]
}

/// The arguments that let every process on the device read a file.
pub open spec fn readable_args(path: Seq<char>) -> Seq<Seq<char>> {
    seq!["shell"@, "chmod"@, "644"@, path]
}

/// The arguments that uninstall a package.
pub open spec fn uninstall_args(package: Seq<char>) -> Seq<Seq<char>> {
    seq!["shell"@, "pm"@, "uninstall"@, package]
}

/// The arguments that have the helper install the APK.
pub open spec fn install_args() -> Seq<Seq<char>> {
    seq![
        "shell"@,
        "CLASSPATH="@ + REMOTE_HELPER@ + " /system/bin/app_process /system/bin LocalInstall "@
            + REMOTE_APK@,
    ]
}

/// The arguments that ask for the warnings of the package manager.
pub open spec fn manager_log_args() -> Seq<Seq<char>> {
    seq!["shell"@, "logcat"@, "-d"@, "-t"@, "600"@, "-s"@, "PackageManager:W"@]
}

/// The arguments that stop a package.
pub open spec fn stop_args(package: Seq<char>) -> Seq<Seq<char>> {
    seq!["shell"@, "am"@, "force-stop"@, package]
}

/// The arguments that start a package.
pub open spec fn start_args(package: Seq<char>) -> Seq<Seq<char>> {
    seq![
        "shell"@,
        "monkey"@,
        "-p"@,
        package,
        "-c"@,
        "android.intent.category.LAUNCHER"@,
        "1"@,
    ]
}

/// The arguments that remove what was copied to the device.
pub open spec fn clean_args() -> Seq<Seq<char>> {
    seq!["shell"@, "rm"@, "-f"@, REMOTE_APK@, REMOTE_HELPER@]
}

/// The last text of a list that `part` stands in.
pub open spec fn last_with(all: Seq<Seq<char>>, part: Seq<char>) -> Option<Seq<char>>
    decreases all.len(),
{
    if all.len() == 0 {
        None
    } else if has_text(all.last(), part) {
        Some(all.last())
    } else {
        last_with(all.drop_last(), part)
    }
}

/// Why the package manager refused a package, by its log: the last line that names the package.
pub open spec fn refusal(log: Seq<char>, package: Seq<char>) -> Seq<char> {
    match last_with(lines(log), package) {
        Some(line) => trim(line),
        None => "причина не найдена в логе PackageManager"@,
    }
}

/// Why the package manager refused a package, by its log.
pub fn refusal_reason(log: &str, package_name: &str) -> (r: String)
    ensures
        r@ == refusal(log@, package_name@),
{
    let all = split_lines(&chars_of(log));
    let part = chars_of(package_name);
    let mut i: usize = all.len();
    assert(rows(all@).take(i as int) =~= rows(all@));
    while i > 0
        invariant
            i <= all.len(),
            part@ == package_name@,
            rows(all@) == lines(log@),
            last_with(rows(all@), package_name@) == last_with(
                rows(all@).take(i as int),
                package_name@,
            ),
        decreases i,
    {
        assert(rows(all@).take(i as int).last() == all@[i - 1]@);
        assert(rows(all@).take(i as int).drop_last() =~= rows(all@).take(i - 1));
        i = i - 1;
        if includes(&all[i], &part) {
            return text_of(&trimmed(&all[i]));
        }
    }
    "причина не найдена в логе PackageManager".to_owned()
}

impl Talk {
    /// Asks for the package name of the APK, which may not be found.
    pub open spec fn package_hint(self, apk_path: Seq<char>) -> (Talk, Option<Seq<char>>) {
        let (t, name) = self.text(AskView::ApkPackage(apk_path));
        (
            t.forgiven(self),
            if t.halt is None {
                Some(name)
            } else {
                None
            },
        )
    }

    /// Copies a file to the device.
    pub open spec fn copy_to_device(
        self,
        adb: TargetView,
        from: Seq<char>,
        to: Seq<char>,
    ) -> Talk {
        self.run_adb_checked(adb, push_args(from, to)).0.run_adb_checked(adb, readable_args(to)).0
    }

    /// Uninstalls the package, if its name is known and it is there.
    pub open spec fn remove_installed(self, adb: TargetView, hint: Option<Seq<char>>) -> Talk {
        match hint {
            Some(package) => {
                let (t, there) = self.is_package_installed(adb, package);
                if there {
                    t.say(info("Снимаю установленную версию "@ + package)).run_adb_optional(
                        adb,
                        uninstall_args(package),
                    )
                } else {
                    t
                }
            },
            None => self,
        }
    }

    /// Has the helper install the APK, and gives the package manager time to finish.
    pub open spec fn start_install(self, adb: TargetView) -> Talk {
        let (t, out) = self.say(
            info("Устанавливаю APK через PackageInstaller.Session"@),
        ).run_adb_checked(adb, install_args());
        t.log_all(output_steps(out)).order(AskView::Sleep(2))
    }

    /// Fails, and tells why the package manager refused the package.
    pub open spec fn fail_refused(self, adb: TargetView, package: Seq<char>) -> Talk {
        let (t, out) = self.run_adb(adb, manager_log_args());
        t.forgiven(self).fail(
            "Установка "@ + package + " не завершилась: "@ + refusal(out.stdout, package),
        )
    }

    /// Finds out which package was installed.
    pub open spec fn installed_package(
        self,
        adb: TargetView,
        hint: Option<Seq<char>>,
        before: Seq<Seq<char>>,
    ) -> (Talk, Seq<char>) {
        match hint {
            Some(package) => {
                let (t, there) = self.is_package_installed(adb, package);
                (
                    if there {
                        t
                    } else {
                        t.fail_refused(adb, package)
                    },
                    package,
                )
            },
            None => self.detect_new_package(adb, before),
        }
    }

    /// Makes the package the manager of the vehicle, if it is to be.
    pub open spec fn manage_vehicle(
        self,
        adb: TargetView,
        package: Seq<char>,
        car_management: bool,
    ) -> Talk {
        if car_management {
            self.apply_vehicle_management_inner(adb, package).apply_device_owner_inner(adb, package)
        } else {
            self
        }
    }

    /// Restarts the package and removes what was copied to the device.
    pub open spec fn restart_and_clean(self, adb: TargetView, package: Seq<char>) -> Talk {
        self.run_adb_optional(adb, stop_args(package)).run_adb_optional(
            adb,
            start_args(package),
        ).run_adb_optional(adb, clean_args())
    }

    /// Grants an installed package everything and restarts it.
    pub open spec fn finish_install(
        self,
        adb: TargetView,
        package: Seq<char>,
        car_management: bool,
    ) -> Talk {
        self.say(info("Пакет установлен: "@ + package)).grant_all_permissions_inner(
            adb,
            package,
        ).manage_vehicle(adb, package, car_management).restart_and_clean(adb, package)
    }

    /// Installs an APK on the head unit.
    pub open spec fn install_apk(
        self,
        platform: Platform,
        apk_path: Seq<char>,
        car_management: bool,
    ) -> (Talk, Seq<char>) {
        let (t1, is_file) = self.flag(AskView::ApkIsFile(apk_path));
        let t2 = if is_file {
            t1
        } else {
            t1.fail("APK не найден: "@ + apk_path)
        };
        let (t3, adb) = t2.ensure_adb(platform).resolve_head_unit(adb_program(platform.windows));
        let t4 = if car_management {
            t3.apply_vehicle_preinstall(adb)
        } else {
            t3
        };
        let (t5, before) = t4.list_packages(adb);
        let (t6, hint) = t5.package_hint(apk_path);
        let (t7, helper) = t6.resource_localinstall();
        let t8 = t7.say(info("Копирую APK на устройство"@)).copy_to_device(
            adb,
            apk_path,
            REMOTE_APK@,
        ).say(info("Копирую helper установки"@)).copy_to_device(adb, helper, REMOTE_HELPER@);
        let (t9, package) = t8.remove_installed(adb, hint).start_install(adb).installed_package(
            adb,
            hint,
            before,
        );
        (t9.finish_install(adb, package, car_management), package)
    }
}

/// Asks for the package name of the APK, which may not be found.
fn package_hint(apk_path: &str, session: &mut Session) -> (r: Result<Option<String>, Halt>)
    ensures
        old(session)@.package_hint(apk_path@).0 == final(session)@.with(halt_of(r)),
        r matches Ok(hint) ==> maybe_text(hint) == old(session)@.package_hint(apk_path@).1,
{
    match session.text(Ask::ApkPackage(apk_path.to_owned())) {
        Ok(name) => Ok(Some(name)),
        Err(Halt::Failed(_)) => Ok(None),
        Err(h) => Err(h),
    }
}

/// Copies a file to the device.
fn copy_to_device(adb: &AdbTarget, from: &str, to: &str, session: &mut Session) -> (r: Result<
    (),
    Halt,
>)
    ensures
        old(session)@.copy_to_device(adb@, from@, to@) == final(session)@.with(halt_of(r)),
{
    let args = ["push", from, to];
    assert(strs(args@) =~= push_args(from@, to@));
    run_adb_checked(adb, &args, session)?;
    let args = ["shell", "chmod", "644", to];
    assert(strs(args@) =~= readable_args(to@));
    run_adb_checked(adb, &args, session)?;
    Ok(())
}

/// Uninstalls the package, if its name is known and it is there: a session cannot install over it,
/// and what an earlier version left would stand against an APK with another signature.
fn remove_installed(adb: &AdbTarget, hint: &Option<String>, session: &mut Session) -> (r: Result<
    (),
    Halt,
>)
    ensures
        old(session)@.remove_installed(adb@, maybe_text(*hint)) == final(session)@.with(
            halt_of(r),
        ),
{
    if let Some(package) = hint {
        if is_package_installed(adb, package.as_str(), session)? {
            session.info(concat2("Снимаю установленную версию ", package.as_str()).as_str());
            let args = ["shell", "pm", "uninstall", package.as_str()];
            assert(strs(args@) =~= uninstall_args(package@));
            run_adb_optional(adb, &args, session)?;
        }
    }
    Ok(())
}

/// Has the helper install the APK, and gives the package manager time to finish.
fn start_install(adb: &AdbTarget, session: &mut Session) -> (r: Result<(), Halt>)
    ensures
        old(session)@.start_install(adb@) == final(session)@.with(halt_of(r)),
{
    session.info("Устанавливаю APK через PackageInstaller.Session");
    let install_cmd = concat4(
        "CLASSPATH=",
        REMOTE_HELPER,
        " /system/bin/app_process /system/bin LocalInstall ",
        REMOTE_APK,
    );
    let args = ["shell", install_cmd.as_str()];
    assert(strs(args@) =~= install_args());
    let output = run_adb_checked(adb, &args, session)?;
    append_output(session, &output);
    session.order(Ask::Sleep(2))
}

/// Fails, and tells why the package manager refused the package. The helper does not wait for the
/// outcome, so the reason is taken from the log of the package manager.
fn refuse_install(adb: &AdbTarget, package_name: &str, session: &mut Session) -> (r: Halt)
    ensures
        old(session)@.fail_refused(adb@, package_name@) == final(session)@.with(Some(r@)),
{
    let args = ["shell", "logcat", "-d", "-t", "600", "-s", "PackageManager:W"];
    assert(strs(args@) =~= manager_log_args());
    let reason = match run_adb(adb, &args, session) {
        Ok(out) => refusal_reason(out.stdout.as_str(), package_name),
        Err(Halt::Failed(_)) => {
            proof {
                reveal_strlit("");
                assert(""@ =~= Seq::empty());
            }
            refusal_reason("", package_name)
        },
        Err(h) => {
            return h;
        },
    };
    failure(
        concat4("Установка ", package_name, " не завершилась: ", reason.as_str()).as_str(),
    )
}

/// Finds out which package was installed.
fn installed_package(
    adb: &AdbTarget,
    hint: Option<String>,
    before: &Vec<String>,
    session: &mut Session,
) -> (r: Result<String, Halt>)
    ensures
        old(session)@.installed_package(adb@, maybe_text(hint), texts(before@)).0
            == final(session)@.with(halt_of(r)),
        r matches Ok(p) ==> p@ == old(session)@.installed_package(
            adb@,
            maybe_text(hint),
            texts(before@),
        ).1,
{
    match hint {
        Some(package) => {
            if is_package_installed(adb, package.as_str(), session)? {
                Ok(package)
            } else {
                Err(refuse_install(adb, package.as_str(), session))
            }
        },
        None => detect_new_package(adb, before, session),
    }
}

/// Restarts the package and removes what was copied to the device.
fn restart_and_clean(adb: &AdbTarget, package_name: &str, session: &mut Session) -> (r: Result<
    (),
    Halt,
>)
    ensures
        old(session)@.restart_and_clean(adb@, package_name@) == final(session)@.with(halt_of(r)),
{
    let args = ["shell", "am", "force-stop", package_name];
    assert(strs(args@) =~= stop_args(package_name@));
    run_adb_optional(adb, &args, session)?;
    let args = [
        "shell",
        "monkey",
        "-p",
        package_name,
        "-c",
        "android.intent.category.LAUNCHER",
        "1",
    ];
    assert(strs(args@) =~= start_args(package_name@));
    run_adb_optional(adb, &args, session)?;
    let args = ["shell", "rm", "-f", REMOTE_APK, REMOTE_HELPER];
    assert(strs(args@) =~= clean_args());
    run_adb_optional(adb, &args, session)
}

/// Installs an APK on the head unit, grants the package everything, makes it the manager of the
/// vehicle if it is to be, and restarts it.
pub fn install_apk(
    platform: Platform,
    apk_path: &str,
    car_management: bool,
    session: &mut Session,
) -> (r: Result<InstallResult, Halt>)
    ensures
        old(session)@.install_apk(platform, apk_path@, car_management).0 == final(session)@.with(
            halt_of(r),
        ),
        r matches Ok(result) ==> {
            &&& result.package_name@ == old(session)@.install_apk(
                platform,
                apk_path@,
                car_management,
            ).1
            &&& step_views(result.steps@) == final(session)@.log
        },
{
    if !session.flag(Ask::ApkIsFile(apk_path.to_owned()))? {
        return Err(failure(concat2("APK не найден: ", apk_path).as_str()));
    }
    let adb_path = ensure_adb(platform, session)?;
    let adb = ensure_device(&adb_path, session)?;
    if car_management {
        apply_vehicle_preinstall(&adb, session)?;
    }
    let package_before = list_packages(&adb, session)?;
    let hint = package_hint(apk_path, session)?;
    let helper = resource_localinstall(session)?;
    session.info("Копирую APK на устройство");
    copy_to_device(&adb, apk_path, REMOTE_APK, session)?;
    session.info("Копирую helper установки");
    copy_to_device(&adb, helper.as_str(), REMOTE_HELPER, session)?;
    remove_installed(&adb, &hint, session)?;
    start_install(&adb, session)?;
    let package_name = installed_package(&adb, hint, &package_before, session)?;
    session.info(concat2("Пакет установлен: ", package_name.as_str()).as_str());
    grant_all_permissions_inner(&adb, package_name.as_str(), session)?;
    if car_management {
        apply_vehicle_management_inner(&adb, package_name.as_str(), session)?;
        apply_device_owner_inner(&adb, package_name.as_str(), session)?;
    }
    restart_and_clean(&adb, package_name.as_str(), session)?;
    Ok(InstallResult { package_name, steps: session.steps() })
}

/// The arguments that make a device list the packages that did not come with it.
pub open spec fn list_added_args() -> Seq<Seq<char>> {
    list_args().push("-3"@)
}

impl Talk {
    /// Stops, unless the text is a package name that is safe to hand to a shell.
    pub open spec fn require_safe_name(self, package: Seq<char>, words: Seq<char>) -> Talk {
        if is_package_name(package) {
            self
        } else {
            self.fail(words + package)
        }
    }

    /// Finds the head unit, and fails unless it has the package.
    pub open spec fn find_package(
        self,
        platform: Platform,
        package: Seq<char>,
        words: Seq<char>,
    ) -> (Talk, TargetView) {
        let (t1, adb) = self.ensure_adb(platform).resolve_head_unit(adb_program(platform.windows));
        let (t2, there) = t1.is_package_installed(adb, package);
        (
            if there {
                t2
            } else {
                t2.fail(words + package)
            },
            adb,
        )
    }

    /// Grants an installed package all the permissions that there are.
    pub open spec fn grant_all_permissions(self, platform: Platform, package: Seq<char>) -> Talk {
        let (t, adb) = self.require_safe_name(
            package,
            "Некорректное имя пакета: "@,
        ).find_package(platform, package, "Пакет не установлен: "@);
        t.grant_all_permissions_inner(adb, package)
    }

    /// Asks the head unit for the packages that can be uninstalled.
    pub open spec fn list_uninstallable_packages(self, platform: Platform) -> (
        Talk,
        Seq<Seq<char>>,
    ) {
        let (t1, adb) = self.ensure_adb(platform).resolve_head_unit(adb_program(platform.windows));
        let (t2, out) = t1.run_adb_checked(adb, list_added_args());
        (t2, uninstallable(out.stdout))
    }

    /// Uninstalls a package.
    pub open spec fn uninstall_package(self, platform: Platform, package: Seq<char>) -> Talk {
        let (t1, adb) = self.require_safe_name(package, "Invalid package name: "@).find_package(
            platform,
            package,
            "Package is not installed: "@,
        );
        let (t2, out) = t1.say(info("Uninstalling package: "@ + package)).run_adb_checked(
            adb,
            uninstall_args(package),
        );
        t2.log_all(output_steps(out)).say(info("Uninstalled: "@ + package))
    }
}

/// Finds the head unit, and fails unless it has the package.
fn find_package(platform: Platform, package_name: &str, words: &str, session: &mut Session) -> (r:
    Result<AdbTarget, Halt>)
    ensures
        old(session)@.find_package(platform, package_name@, words@).0 == final(session)@.with(
            halt_of(r),
        ),
        r matches Ok(adb) ==> adb@ == old(session)@.find_package(
            platform,
            package_name@,
            words@,
        ).1,
{
    let adb_path = ensure_adb(platform, session)?;
    let adb = ensure_device(&adb_path, session)?;
    if !is_package_installed(&adb, package_name, session)? {
        return Err(failure(concat2(words, package_name).as_str()));
    }
    Ok(adb)
}

/// Grants an installed package all the permissions that there are.
pub fn grant_all_permissions(platform: Platform, package_name: &str, session: &mut Session) -> (r:
    Result<Vec<Step>, Halt>)
    ensures
        old(session)@.grant_all_permissions(platform, package_name@) == final(session)@.with(
            halt_of(r),
        ),
        r matches Ok(steps) ==> step_views(steps@) == final(session)@.log,
{
    if !is_safe_package_name(package_name) {
        return Err(failure(concat2("Некорректное имя пакета: ", package_name).as_str()));
    }
    let adb = find_package(platform, package_name, "Пакет не установлен: ", session)?;
    grant_all_permissions_inner(&adb, package_name, session)?;
    Ok(session.steps())
}

/// Asks the head unit for the packages that can be uninstalled, in order.
pub fn list_uninstallable_packages(platform: Platform, session: &mut Session) -> (r: Result<
    Vec<String>,
    Halt,
>)
    ensures
        old(session)@.list_uninstallable_packages(platform).0 == final(session)@.with(halt_of(r)),
        r matches Ok(packages) ==> {
            &&& sorted_texts(texts(packages@))
            &&& texts(packages@).to_multiset() == old(session)@.list_uninstallable_packages(
                platform,
            ).1.to_multiset()
        },
{
    let adb_path = ensure_adb(platform, session)?;
    let adb = ensure_device(&adb_path, session)?;
    let args = ["shell", "pm", "list", "packages", "-3"];
    assert(strs(args@) =~= list_added_args());
    let output = run_adb_checked(&adb, &args, session)?;
    Ok(parse_uninstallable(output.stdout.as_str()))
}

/// Uninstalls a package.
pub fn uninstall_package(platform: Platform, package_name: &str, session: &mut Session) -> (r:
    Result<Vec<Step>, Halt>)
    ensures
        old(session)@.uninstall_package(platform, package_name@) == final(session)@.with(
            halt_of(r),
        ),
        r matches Ok(steps) ==> step_views(steps@) == final(session)@.log,
{
    if !is_safe_package_name(package_name) {
        return Err(failure(concat2("Invalid package name: ", package_name).as_str()));
    }
    let adb = find_package(platform, package_name, "Package is not installed: ", session)?;
    session.info(concat2("Uninstalling package: ", package_name).as_str());
    let args = ["shell", "pm", "uninstall", package_name];
    assert(strs(args@) =~= uninstall_args(package_name@));
    let output = run_adb_checked(&adb, &args, session)?;
    append_output(session, &output);
    session.info(concat2("Uninstalled: ", package_name).as_str());
    Ok(session.steps())
}

}
