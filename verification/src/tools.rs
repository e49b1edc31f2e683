//! The adb program that comes with the installer.

use vstd::prelude::*;

use crate::error::{ErrorView, InstallerError};
use crate::session::{halt_of, session_is_live, Ask, AskView, Halt, HaltView, Session, Talk};
use crate::text::{concat2, owned, strs, texts};

verus! {

broadcast use session_is_live;

/// The version of the bundled adb. It is part of the path that adb is unpacked to, so that an
/// update of the installer does not go on with an older adb.
pub const ADB_VERSION: &'static str = "37.0.1";

/// What matters of the system that the installer runs on.
#[derive(Clone, Copy, Debug)]
pub struct Platform {
    pub windows: bool,
    pub unix: bool,
}

/// The name of the adb program.
pub open spec fn exe_name(windows: bool) -> Seq<char> {
    if windows {
        "adb.exe"@
    } else {
        "adb"@
    }
}

/// The name of the adb program.
pub fn adb_exe_name(windows: bool) -> (r: &'static str)
    ensures
        r@ == exe_name(windows),
{
    if windows {
        "adb.exe"
    } else {
        "adb"
    }
}

/// Where adb is kept.
pub open spec fn tools_dir() -> Seq<Seq<char>> {
    seq!["adb"@, ADB_VERSION@]
}

/// The adb program where it is kept.
pub open spec fn adb_program(windows: bool) -> Seq<Seq<char>> {
    tools_dir().push(exe_name(windows))
}

/// Where earlier installers kept the tools that they downloaded.
pub open spec fn downloaded_tools() -> Seq<Seq<char>> {
    seq!["android-platform-tools"@]
}

/// Where adb is unpacked before it is moved to where it is kept.
pub open spec fn staging_dir() -> Seq<Seq<char>> {
    seq!["adb"@, ADB_VERSION@ + ".unpacking"@]
}

/// The adb program where it is unpacked.
pub open spec fn staged_program(windows: bool) -> Seq<Seq<char>> {
    staging_dir().push(exe_name(windows))
}

/// The permission bits of a program: all may run it, its owner may change it.
pub const PROGRAM_MODE: u32 = 0o755;

impl Talk {
    /// The conversation after a question that was asked in the conversation `before`: an error
    /// in the reply is told with the given words before it.
    pub open spec fn explained(self, before: Talk, words: Seq<char>) -> Talk {
        match self.halt {
            Some(HaltView::Failed(e)) => if before.halt is None {
                self.with(Some(HaltView::Failed(ErrorView::Message(words + e.text()))))
            } else {
                self
            },
            _ => self,
        }
    }

    /// Asks for the directory for the application's data.
    pub open spec fn app_data_dir(self) -> Talk {
        self.order(AskView::DataDir).explained(self, "Не удалось получить app data dir: "@)
    }

    /// Asks for the install helper.
    pub open spec fn resource_localinstall(self) -> (Talk, Seq<char>) {
        let (t, path) = self.text(AskView::Helper);
        (t.explained(self, "Не найден localinstall.apk: "@), path)
    }

    /// Removes the directory, if it is there.
    pub open spec fn remove_if_there(self, dir: Seq<Seq<char>>) -> Talk {
        let (t, there) = self.flag(AskView::Exists(dir));
        if there {
            t.order(AskView::RemoveDir(dir))
        } else {
            t
        }
    }

    /// Unpacks adb into the staging directory, from which anything older is removed first.
    pub open spec fn stage_adb(self, platform: Platform) -> Talk {
        let t = self.remove_if_there(staging_dir()).order(
            AskView::CreateDir(staging_dir()),
        ).order(AskView::Unpack(staging_dir()));
        if platform.unix {
            t.order(AskView::SetMode(staged_program(platform.windows), PROGRAM_MODE))
        } else {
            t
        }
    }

    /// Makes sure that adb is where it is kept.
    pub open spec fn ensure_adb(self, platform: Platform) -> Talk {
        let (t, present) = self.app_data_dir().flag(
            AskView::IsFile(adb_program(platform.windows)),
        );
        if present {
            t
        } else {
            t.remove_if_there(downloaded_tools()).stage_adb(platform).remove_if_there(
                tools_dir(),
            ).order(AskView::Rename(staging_dir(), tools_dir()))
        }
    }
}

/// The halt with the given words before its error.
fn explain(h: Halt, words: &str) -> (r: Halt)
    ensures
        h@ matches HaltView::Failed(e) ==> r@ == HaltView::Failed(
            ErrorView::Message(words@ + e.text()),
        ),
        !(h@ is Failed) ==> r@ == h@,
{
    match h {
        Halt::Failed(e) => Halt::Failed(
            InstallerError::Message(concat2(words, e.text().as_str())),
        ),
        other => other,
    }
}

/// Asks for the directory for the application's data.
pub fn app_data_dir(session: &mut Session) -> (r: Result<(), Halt>)
    ensures
        old(session)@.app_data_dir() == final(session)@.with(halt_of(r)),
{
    match session.order(Ask::DataDir) {
        Ok(()) => Ok(()),
        Err(h) => Err(explain(h, "Не удалось получить app data dir: ")),
    }
}

/// Asks for the install helper.
pub fn resource_localinstall(session: &mut Session) -> (r: Result<String, Halt>)
    ensures
        old(session)@.resource_localinstall().0 == final(session)@.with(halt_of(r)),
        r matches Ok(path) ==> path@ == old(session)@.resource_localinstall().1,
{
    match session.text(Ask::Helper) {
        Ok(path) => Ok(path),
        Err(h) => Err(explain(h, "Не найден localinstall.apk: ")),
    }
}

/// Removes the directory, if it is there.
fn remove_if_there(dir: &[&str], session: &mut Session) -> (r: Result<(), Halt>)
    ensures
        old(session)@.remove_if_there(strs(dir@)) == final(session)@.with(halt_of(r)),
{
    if session.flag(Ask::Exists(owned(dir)))? {
        session.order(Ask::RemoveDir(owned(dir)))?;
    }
    Ok(())
}

/// Makes sure that adb is where it is kept, and tells where that is. It is unpacked elsewhere and
/// then moved as a whole, so that unpacking that breaks off never leaves something there that would
/// be taken for adb.
pub fn ensure_adb(platform: Platform, session: &mut Session) -> (r: Result<Vec<String>, Halt>)
    ensures
        old(session)@.ensure_adb(platform) == final(session)@.with(halt_of(r)),
        r matches Ok(path) ==> texts(path@) == adb_program(platform.windows),
{
    app_data_dir(session)?;
    let tools = ["adb", ADB_VERSION];
    assert(strs(tools@) =~= tools_dir());
    let program = ["adb", ADB_VERSION, adb_exe_name(platform.windows)];
    assert(strs(program@) =~= adb_program(platform.windows));
    if session.flag(Ask::IsFile(owned(&program)))? {
        return Ok(owned(&program));
    }
    let downloaded = ["android-platform-tools"];
    assert(strs(downloaded@) =~= downloaded_tools());
    remove_if_there(&downloaded, session)?;
    let staging_name = concat2(ADB_VERSION, ".unpacking");
    let staging = ["adb", staging_name.as_str()];
    assert(strs(staging@) =~= staging_dir());
    remove_if_there(&staging, session)?;
    session.order(Ask::CreateDir(owned(&staging)))?;
    session.order(Ask::Unpack(owned(&staging)))?;
    if platform.unix {
        let staged = ["adb", staging_name.as_str(), adb_exe_name(platform.windows)];
        assert(strs(staged@) =~= staged_program(platform.windows));
        session.order(Ask::SetMode(owned(&staged), PROGRAM_MODE))?;
    }
    remove_if_there(&tools, session)?;
    session.order(Ask::Rename(owned(&staging), owned(&tools)))?;
    Ok(owned(&program))
}

}
