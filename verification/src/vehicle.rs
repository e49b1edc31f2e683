//! Making a package the manager of the vehicle.

use vstd::prelude::*;

use crate::components::{device_admin_candidates, notification_listener_candidates};
use crate::grants::{
    allow_each_listener, appop_args, grant_args, listener_args, whitelist_args, whitelist_package,
};
use crate::session::{
    append_output, halt_of, output_steps, run_adb, run_adb_optional, session_is_live, AdbTarget,
    Halt, Session, Talk, TargetView,
};
use crate::text::{chars_of, concat2, has_text, includes, strs, texts};
use crate::worklog::{info, warn};

verus! {

broadcast use session_is_live;

/// The arguments that tell the vehicle that an installation is coming.
pub open spec fn preinstall_args() -> Seq<Seq<char>> {
    seq!["shell"@, "setprop"@, "persist.sys.sv.isl"@, "true"@]
}

/// The permissions that managing the vehicle takes.
pub open spec fn vehicle_permissions() -> Seq<Seq<char>> {
    seq![
        "android.permission.READ_LOGS"@,
        "android.permission.ACCESS_FINE_LOCATION"@,
        "android.permission.ACCESS_BACKGROUND_LOCATION"@,
        "android.permission.WRITE_SECURE_SETTINGS"@,
        "android.permission.RECORD_AUDIO"@,
        "android.permission.BLUETOOTH_CONNECT"@,
    ]
}

/// The app operations that managing the vehicle takes.
pub open spec fn vehicle_appops() -> Seq<Seq<char>> {
    seq![
        "SYSTEM_ALERT_WINDOW"@,
        "REQUEST_INSTALL_PACKAGES"@,
        "MANAGE_EXTERNAL_STORAGE"@,
        "ACTIVATE_VPN"@,
        "android:write_settings"@,
        "android:mock_location"@,
    ]
}

/// The arguments that make a component the owner of the device.
pub open spec fn set_owner_args(component: Seq<char>) -> Seq<Seq<char>> {
    seq!["shell"@, "dpm"@, "set-device-owner"@, component]
}

/// The arguments that ask for the owner of the device.
pub open spec fn get_owner_args() -> Seq<Seq<char>> {
    seq!["shell"@, "dpm"@, "get-device-owner"@]
}

impl Talk {
    /// Tells the vehicle that an installation is coming.
    pub open spec fn apply_vehicle_preinstall(self, adb: TargetView) -> Talk {
        self.say(info("Applying vehicle integration pre-install flag"@)).run_adb_optional(
            adb,
            preinstall_args(),
        )
    }

    /// Gives the package what managing the vehicle takes.
    pub open spec fn apply_vehicle_management_inner(
        self,
        adb: TargetView,
        package: Seq<char>,
    ) -> Talk {
        let (t, listeners) = self.say(
            info("Applying vehicle-management compatibility commands"@),
        ).apply_vehicle_preinstall(adb).each_optional(
            adb,
            vehicle_permissions().map_values(|p: Seq<char>| grant_args(package, p)),
        ).each_optional(
            adb,
            vehicle_appops().map_values(|op: Seq<char>| appop_args(package, op)),
        ).notification_listener_candidates(adb, package);
        t.each_optional(
            adb,
            listeners.map_values(|c: Seq<char>| listener_args(c)),
        ).run_adb_optional(adb, whitelist_args(package))
    }

    /// Tries to make one of the components the owner of the device, until one is.
    pub open spec fn try_owners(
        self,
        adb: TargetView,
        package: Seq<char>,
        components: Seq<Seq<char>>,
    ) -> Talk
        decreases components.len(),
    {
        if self.halt is Some {
            self
        } else if components.len() == 0 {
            self.say(
                warn(
                    "Device Owner was not enabled. Android may already be provisioned or have another owner."@,
                ),
            )
        } else {
            let (t1, out) = self.say(
                info("Trying Device Owner receiver: "@ + components[0]),
            ).run_adb(adb, set_owner_args(components[0]));
            let (t2, owner) = t1.log_all(output_steps(out)).run_adb(adb, get_owner_args());
            if owner.success && has_text(owner.stdout, package) {
                t2.say(info("Device Owner enabled: "@ + components[0]))
            } else {
                t2.try_owners(adb, package, components.skip(1))
            }
        }
    }

    /// Makes the package the owner of the device.
    pub open spec fn apply_device_owner_inner(self, adb: TargetView, package: Seq<char>) -> Talk {
        let (t, components) = self.say(info("Applying Device Owner mode"@)).device_admin_candidates(
            adb,
            package,
        );
        if components.len() == 0 {
            t.say(warn("No DeviceAdmin receiver found for package: "@ + package))
        } else {
            t.try_owners(adb, package, components)
        }
    }
}

/// Tells the vehicle that an installation is coming.
pub fn apply_vehicle_preinstall(adb: &AdbTarget, session: &mut Session) -> (r: Result<(), Halt>)
    ensures
        old(session)@.apply_vehicle_preinstall(adb@) == final(session)@.with(halt_of(r)),
{
    session.info("Applying vehicle integration pre-install flag");
    let args = ["shell", "setprop", "persist.sys.sv.isl", "true"];
    assert(strs(args@) =~= preinstall_args());
    run_adb_optional(adb, &args, session)
}

/// Grants permissions, and logs those that could not be granted.
fn grant_each(adb: &AdbTarget, package_name: &str, permissions: &[&str], session: &mut Session) -> (r:
    Result<(), Halt>)
    ensures
        old(session)@.each_optional(
            adb@,
            strs(permissions@).map_values(|p: Seq<char>| grant_args(package_name@, p)),
        ) == final(session)@.with(halt_of(r)),
{
    let ghost commands = strs(permissions@).map_values(
        |p: Seq<char>| grant_args(package_name@, p),
    );
    let mut i: usize = 0;
    assert(commands.skip(0) =~= commands);
    while i < permissions.len()
        invariant
            i <= permissions.len(),
            commands == strs(permissions@).map_values(
                |p: Seq<char>| grant_args(package_name@, p),
            ),
            old(session)@.each_optional(adb@, commands) == session@.each_optional(
                adb@,
                commands.skip(i as int),
            ),
        decreases permissions.len() - i,
    {
        proof {
            reveal_with_fuel(Talk::each_optional, 2);
        }
        assert(commands.skip(i as int)[0] == grant_args(package_name@, permissions@[i as int]@));
        assert(commands.skip(i as int).skip(1) =~= commands.skip(i + 1));
        let args = ["shell", "pm", "grant", package_name, permissions[i]];
        assert(strs(args@) =~= grant_args(package_name@, permissions@[i as int]@));
        run_adb_optional(adb, &args, session)?;
        i = i + 1;
    }
    Ok(())
}

/// Allows app operations, and logs those that could not be allowed.
fn allow_each(adb: &AdbTarget, package_name: &str, ops: &[&str], session: &mut Session) -> (r:
    Result<(), Halt>)
    ensures
        old(session)@.each_optional(
            adb@,
            strs(ops@).map_values(|op: Seq<char>| appop_args(package_name@, op)),
        ) == final(session)@.with(halt_of(r)),
{
    let ghost commands = strs(ops@).map_values(|op: Seq<char>| appop_args(package_name@, op));
    let mut i: usize = 0;
    assert(commands.skip(0) =~= commands);
    while i < ops.len()
        invariant
            i <= ops.len(),
            commands == strs(ops@).map_values(|op: Seq<char>| appop_args(package_name@, op)),
            old(session)@.each_optional(adb@, commands) == session@.each_optional(
                adb@,
                commands.skip(i as int),
            ),
        decreases ops.len() - i,
    {
        proof {
            reveal_with_fuel(Talk::each_optional, 2);
        }
        assert(commands.skip(i as int)[0] == appop_args(package_name@, ops@[i as int]@));
        assert(commands.skip(i as int).skip(1) =~= commands.skip(i + 1));
        let args = ["shell", "appops", "set", package_name, ops[i], "allow"];
        assert(strs(args@) =~= appop_args(package_name@, ops@[i as int]@));
        run_adb_optional(adb, &args, session)?;
        i = i + 1;
    }
    Ok(())
}

/// Gives the package what managing the vehicle takes.
pub fn apply_vehicle_management_inner(adb: &AdbTarget, package_name: &str, session: &mut Session) -> (r:
    Result<(), Halt>)
    ensures
        old(session)@.apply_vehicle_management_inner(adb@, package_name@) == final(session)@.with(
            halt_of(r),
        ),
{
    session.info("Applying vehicle-management compatibility commands");
    apply_vehicle_preinstall(adb, session)?;
    let permissions = [
        "android.permission.READ_LOGS",
        "android.permission.ACCESS_FINE_LOCATION",
        "android.permission.ACCESS_BACKGROUND_LOCATION",
        "android.permission.WRITE_SECURE_SETTINGS",
        "android.permission.RECORD_AUDIO",
        "android.permission.BLUETOOTH_CONNECT",
    ];
    assert(strs(permissions@) =~= vehicle_permissions());
    grant_each(adb, package_name, &permissions, session)?;
    let ops = [
        "SYSTEM_ALERT_WINDOW",
        "REQUEST_INSTALL_PACKAGES",
        "MANAGE_EXTERNAL_STORAGE",
        "ACTIVATE_VPN",
        "android:write_settings",
        "android:mock_location",
    ];
    assert(strs(ops@) =~= vehicle_appops());
    allow_each(adb, package_name, &ops, session)?;
    let listeners = notification_listener_candidates(adb, package_name, session)?;
    allow_each_listener(adb, &listeners, session)?;
    whitelist_package(adb, package_name, session)
}

/// Makes the package the owner of the device, by the first of its administrators that works.
pub fn apply_device_owner_inner(adb: &AdbTarget, package_name: &str, session: &mut Session) -> (r:
    Result<(), Halt>)
    ensures
        old(session)@.apply_device_owner_inner(adb@, package_name@) == final(session)@.with(
            halt_of(r),
        ),
{
    session.info("Applying Device Owner mode");
    let candidates = device_admin_candidates(adb, package_name, session)?;
    if candidates.len() == 0 {
        session.warn(
            concat2("No DeviceAdmin receiver found for package: ", package_name).as_str(),
        );
        return Ok(());
    }
    let ghost all = texts(candidates@);
    let mut i: usize = 0;
    assert(all.skip(0) =~= all);
    while i < candidates.len()
        invariant
            i <= candidates.len(),
            all == texts(candidates@),
            old(session)@.apply_device_owner_inner(adb@, package_name@) == session@.try_owners(
                adb@,
                package_name@,
                all.skip(i as int),
            ),
        decreases candidates.len() - i,
    {
        proof {
            reveal_with_fuel(Talk::try_owners, 2);
        }
        assert(all.skip(i as int)[0] == candidates@[i as int]@);
        assert(all.skip(i as int).skip(1) =~= all.skip(i + 1));
        let component = candidates[i].as_str();
        session.info(concat2("Trying Device Owner receiver: ", component).as_str());
        let args = ["shell", "dpm", "set-device-owner", component];
        assert(strs(args@) =~= set_owner_args(component@));
        let output = run_adb(adb, &args, session)?;
        append_output(session, &output);
        let args = ["shell", "dpm", "get-device-owner"];
        assert(strs(args@) =~= get_owner_args());
        let owner = run_adb(adb, &args, session)?;
        if owner.success && includes(
            &chars_of(owner.stdout.as_str()),
            &chars_of(package_name),
        ) {
            session.info(concat2("Device Owner enabled: ", component).as_str());
            return Ok(());
        }
        i = i + 1;
    }
    session.warn(
        "Device Owner was not enabled. Android may already be provisioned or have another owner.",
    );
    Ok(())
}

}
