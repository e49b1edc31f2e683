//! Conversations with the world outside.
//!
//! Work that needs the device, the file system or the clock is written as ordinary code against a
//! [`Session`], which holds the replies that came in so far. Where the code asks for something that
//! has no reply yet, it halts with the question. The caller answers it, rewinds the session and
//! runs the code again: the recorded replies take it back to where it stopped, and on from there.

use vstd::prelude::*;
use vstd::utf8::{decode_utf8, valid_utf8};

use crate::decode::{text_from_utf8, utf8_text};
use crate::error::{ErrorView, InstallerError};
use crate::text::{
    chars_of, concat2, concat3, concat4, copies, join, joined, owned, rows, strs, text_of, texts,
};
use crate::worklog::{filled_lines, info, split_filled_lines, warn, Step, StepView, WorkLog};

verus! {

/// Something that only the world outside can do or tell. A list of names is a path below the
/// directory for the application's data.
#[derive(Debug)]
pub enum Ask {
    /// Find the directory for the application's data.
    DataDir,
    /// Whether there is a file at the path.
    IsFile(Vec<String>),
    /// Whether there is anything at the path.
    Exists(Vec<String>),
    /// Remove the directory and all that it holds.
    RemoveDir(Vec<String>),
    /// Create the directory and those above it.
    CreateDir(Vec<String>),
    /// Unpack the bundled adb into the directory.
    Unpack(Vec<String>),
    /// Give the file the permission bits.
    SetMode(Vec<String>, u32),
    /// Move the first path to the second.
    Rename(Vec<String>, Vec<String>),
    /// The path, written out in full.
    ShowPath(Vec<String>),
    /// Whether there is a file at the user's path.
    ApkIsFile(String),
    /// The package name of the APK at the user's path.
    ApkPackage(String),
    /// The path of the install helper.
    Helper,
    /// Wait for so many seconds.
    Sleep(u64),
    /// Run the program at the path with the arguments.
    Run(Vec<String>, Vec<String>),
}

/// The value of an [`Ask`].
pub enum AskView {
    DataDir,
    IsFile(Seq<Seq<char>>),
    Exists(Seq<Seq<char>>),
    RemoveDir(Seq<Seq<char>>),
    CreateDir(Seq<Seq<char>>),
    Unpack(Seq<Seq<char>>),
    SetMode(Seq<Seq<char>>, u32),
    Rename(Seq<Seq<char>>, Seq<Seq<char>>),
    ShowPath(Seq<Seq<char>>),
    ApkIsFile(Seq<char>),
    ApkPackage(Seq<char>),
    Helper,
    Sleep(u64),
    Run(Seq<Seq<char>>, Seq<Seq<char>>),
}

impl View for Ask {
    type V = AskView;

    open spec fn view(&self) -> AskView {
        match self {
            Ask::DataDir => AskView::DataDir,
            Ask::IsFile(p) => AskView::IsFile(texts(p@)),
            Ask::Exists(p) => AskView::Exists(texts(p@)),
            Ask::RemoveDir(p) => AskView::RemoveDir(texts(p@)),
            Ask::CreateDir(p) => AskView::CreateDir(texts(p@)),
            Ask::Unpack(p) => AskView::Unpack(texts(p@)),
            Ask::SetMode(p, mode) => AskView::SetMode(texts(p@), *mode),
            Ask::Rename(p, q) => AskView::Rename(texts(p@), texts(q@)),
            Ask::ShowPath(p) => AskView::ShowPath(texts(p@)),
            Ask::ApkIsFile(p) => AskView::ApkIsFile(p@),
            Ask::ApkPackage(p) => AskView::ApkPackage(p@),
            Ask::Helper => AskView::Helper,
            Ask::Sleep(seconds) => AskView::Sleep(*seconds),
            Ask::Run(program, args) => AskView::Run(texts(program@), texts(args@)),
        }
    }
}

/// What a command left behind.
#[derive(Debug)]
pub struct CommandOutput {
    pub success: bool,
    pub stdout: String,
    pub stderr: String,
    pub command: String,
}

/// The value of a [`CommandOutput`].
pub struct OutputView {
    pub success: bool,
    pub stdout: Seq<char>,
    pub stderr: Seq<char>,
    pub command: Seq<char>,
}

impl View for CommandOutput {
    type V = OutputView;

    open spec fn view(&self) -> OutputView {
        OutputView {
            success: self.success,
            stdout: self.stdout@,
            stderr: self.stderr@,
            command: self.command@,
        }
    }
}

impl CommandOutput {
    /// An equal output.
    pub fn copy(&self) -> (r: CommandOutput)
        ensures
            r@ == self@,
    {
        CommandOutput {
            success: self.success,
            stdout: self.stdout.clone(),
            stderr: self.stderr.clone(),
            command: self.command.clone(),
        }
    }
}

/// The reply to an [`Ask`].
#[derive(Debug)]
pub enum Reply {
    /// It is done.
    Done,
    /// Yes or no.
    Flag(bool),
    /// The text that was asked for.
    Text(String),
    /// The command ran.
    Output(CommandOutput),
    /// It could not be done.
    Failed(InstallerError),
}

/// The value of a [`Reply`].
pub enum ReplyView {
    Done,
    Flag(bool),
    Text(Seq<char>),
    Output(OutputView),
    Failed(ErrorView),
}

impl View for Reply {
    type V = ReplyView;

    open spec fn view(&self) -> ReplyView {
        match self {
            Reply::Done => ReplyView::Done,
            Reply::Flag(b) => ReplyView::Flag(*b),
            Reply::Text(s) => ReplyView::Text(s@),
            Reply::Output(o) => ReplyView::Output(o@),
            Reply::Failed(e) => ReplyView::Failed(e@),
        }
    }
}

impl Reply {
    /// An equal reply.
    pub fn copy(&self) -> (r: Reply)
        ensures
            r@ == self@,
    {
        match self {
            Reply::Done => Reply::Done,
            Reply::Flag(b) => Reply::Flag(*b),
            Reply::Text(s) => Reply::Text(s.clone()),
            Reply::Output(o) => Reply::Output(o.copy()),
            Reply::Failed(e) => Reply::Failed(e.copy()),
        }
    }
}

/// Why work stopped before its end.
#[derive(Debug)]
pub enum Halt {
    /// It failed.
    Failed(InstallerError),
    /// It waits for a reply.
    Waiting(Ask),
    /// A reply does not fit its question.
    Unexpected,
}

/// The value of a [`Halt`].
pub enum HaltView {
    Failed(ErrorView),
    Waiting(AskView),
    Unexpected,
}

impl View for Halt {
    type V = HaltView;

    open spec fn view(&self) -> HaltView {
        match self {
            Halt::Failed(e) => HaltView::Failed(e@),
            Halt::Waiting(q) => HaltView::Waiting(q@),
            Halt::Unexpected => HaltView::Unexpected,
        }
    }
}

/// A command as the user reads it: the program and its arguments, with spaces between them.
pub open spec fn command_line(program: Seq<char>, args: Seq<Seq<char>>) -> Seq<char> {
    program + " "@ + join(args, seq![' '])
}

/// What a program left behind that ran with the given arguments.
pub fn command_output(
    program: &str,
    args: &Vec<String>,
    success: bool,
    stdout: &[u8],
    stderr: &[u8],
) -> (r: CommandOutput)
    ensures
        r@ == (OutputView {
            success,
            stdout: utf8_text(stdout@),
            stderr: utf8_text(stderr@),
            command: command_line(program@, texts(args@)),
        }),
        valid_utf8(stdout@) ==> r@.stdout == decode_utf8(stdout@),
        valid_utf8(stderr@) ==> r@.stderr == decode_utf8(stderr@),
{
    let mut parts: Vec<Vec<char>> = Vec::new();
    let mut i: usize = 0;
    while i < args.len()
        invariant
            i <= args.len(),
            rows(parts@) == texts(args@).take(i as int),
        decreases args.len() - i,
    {
        let ghost before = rows(parts@);
        parts.push(chars_of(args[i].as_str()));
        assert(rows(parts@) =~= before.push(args@[i as int]@));
        assert(rows(parts@) =~= texts(args@).take(i + 1));
        i = i + 1;
    }
    assert(texts(args@).take(args@.len() as int) =~= texts(args@));
    let line = text_of(&joined(&parts, ' '));
    CommandOutput {
        success,
        stdout: text_from_utf8(stdout),
        stderr: text_from_utf8(stderr),
        command: concat3(program, " ", line.as_str()),
    }
}

/// Why a piece of work stopped, if it did.
pub open spec fn halt_of<T>(r: Result<T, Halt>) -> Option<HaltView> {
    match r {
        Ok(_) => None,
        Err(h) => Some(h@),
    }
}

/// A conversation at one moment: the replies there are, how many of them are used up, what has been
/// asked, what has been logged, and why it stopped, if it did. A conversation that has stopped
/// stays as it is.
#[verifier::ext_equal]
pub struct Talk {
    pub replies: Seq<ReplyView>,
    pub next: nat,
    pub asked: Seq<AskView>,
    pub log: Seq<StepView>,
    pub halt: Option<HaltView>,
}

impl Talk {
    /// The conversation with the given reason for having stopped.
    pub open spec fn with(self, halt: Option<HaltView>) -> Talk {
        Talk { halt, ..self }
    }

    /// The conversation, stopped by an error with the given message.
    pub open spec fn fail(self, message: Seq<char>) -> Talk {
        if self.halt is Some {
            self
        } else {
            self.with(Some(HaltView::Failed(ErrorView::Message(message))))
        }
    }

    /// The conversation with more entries in its log.
    pub open spec fn log_all(self, steps: Seq<StepView>) -> Talk {
        if self.halt is Some {
            self
        } else {
            Talk { log: self.log + steps, ..self }
        }
    }

    /// The conversation with one more entry in its log.
    pub open spec fn say(self, step: StepView) -> Talk {
        if self.halt is Some {
            self
        } else {
            Talk { log: self.log.push(step), ..self }
        }
    }

    /// The conversation with one more question asked, and the reply to it. Without a reply it
    /// stops there, waiting.
    pub open spec fn ask(self, q: AskView) -> (Talk, ReplyView) {
        if self.halt is Some {
            (self, ReplyView::Done)
        } else if self.next < self.replies.len() {
            (
                Talk { next: self.next + 1, asked: self.asked.push(q), ..self },
                self.replies[self.next as int],
            )
        } else {
            (
                Talk {
                    asked: self.asked.push(q),
                    halt: Some(HaltView::Waiting(q)),
                    ..self
                },
                ReplyView::Done,
            )
        }
    }

    /// The conversation, stopped by the reply to a question that wants another kind of reply.
    pub open spec fn refuse(self, reply: ReplyView) -> Talk {
        if self.halt is Some {
            self
        } else {
            match reply {
                ReplyView::Failed(e) => self.with(Some(HaltView::Failed(e))),
                _ => self.with(Some(HaltView::Unexpected)),
            }
        }
    }

    /// Asks for something to be done.
    pub open spec fn order(self, q: AskView) -> Talk {
        let (t, reply) = self.ask(q);
        if reply is Done {
            t
        } else {
            t.refuse(reply)
        }
    }

    /// Asks a question of yes or no.
    pub open spec fn flag(self, q: AskView) -> (Talk, bool) {
        let (t, reply) = self.ask(q);
        match reply {
            ReplyView::Flag(b) => (t, b),
            _ => (t.refuse(reply), false),
        }
    }

    /// Asks for a text.
    pub open spec fn text(self, q: AskView) -> (Talk, Seq<char>) {
        let (t, reply) = self.ask(q);
        match reply {
            ReplyView::Text(s) => (t, s),
            _ => (t.refuse(reply), seq![]),
        }
    }

    /// Asks for a program to be run.
    pub open spec fn run_output(self, program: Seq<Seq<char>>, args: Seq<Seq<char>>) -> (
        Talk,
        OutputView,
    ) {
        let (t, reply) = self.ask(AskView::Run(program, args));
        match reply {
            ReplyView::Output(o) => (t, o),
            _ => (t.refuse(reply), no_output()),
        }
    }

    /// Asks for adb to be run on the device.
    pub open spec fn run_adb(self, adb: TargetView, args: Seq<Seq<char>>) -> (Talk, OutputView) {
        self.run_output(adb.path, seq!["-s"@, adb.serial] + args)
    }

    /// Asks for adb to be run on the device, and fails where the command does.
    pub open spec fn run_adb_checked(self, adb: TargetView, args: Seq<Seq<char>>) -> (
        Talk,
        OutputView,
    ) {
        let (t, out) = self.run_adb(adb, args);
        if t.halt is None && !out.success {
            (t.fail(command_failed(out)), out)
        } else {
            (t, out)
        }
    }

    /// Asks for adb to be run on the device, and only logs it where that does not work.
    pub open spec fn run_adb_optional(self, adb: TargetView, args: Seq<Seq<char>>) -> Talk {
        let (t, out) = self.run_adb(adb, args);
        if self.halt is Some {
            self
        } else {
            match t.halt {
                None => if out.success {
                    t
                } else {
                    t.say(warn(optional_command_failed(out)))
                },
                Some(HaltView::Failed(e)) => t.with(None).say(
                    warn("Необязательная команда не выполнена: "@ + e.text()),
                ),
                Some(_) => t,
            }
        }
    }
}

/// The output that stands for none.
pub open spec fn no_output() -> OutputView {
    OutputView { success: false, stdout: seq![], stderr: seq![], command: seq![] }
}

/// The message for a command that had to succeed and did not.
pub open spec fn command_failed(out: OutputView) -> Seq<char> {
    "Команда завершилась с ошибкой: "@ + out.command + "\n"@ + out.stdout + out.stderr
}

/// The message for a command that did not have to succeed and did not.
pub open spec fn optional_command_failed(out: OutputView) -> Seq<char> {
    "Необязательная команда завершилась с ошибкой: "@ + out.command + "\n"@ + out.stderr
}

/// The adb program and the device that its commands are for.
#[derive(Debug)]
pub struct AdbTarget {
    pub path: Vec<String>,
    pub serial: String,
}

/// The value of an [`AdbTarget`].
pub struct TargetView {
    pub path: Seq<Seq<char>>,
    pub serial: Seq<char>,
}

impl View for AdbTarget {
    type V = TargetView;

    open spec fn view(&self) -> TargetView {
        TargetView { path: texts(self.path@), serial: self.serial@ }
    }
}

/// A conversation as code takes part in it.
pub struct Session {
    log: WorkLog,
    replies: Vec<Reply>,
    next: usize,
    asked: Ghost<Seq<AskView>>,
}

impl View for Session {
    type V = Talk;

    closed spec fn view(&self) -> Talk {
        Talk {
            replies: self.replies@.map_values(|r: Reply| r@),
            next: self.next as nat,
            asked: self.asked@,
            log: self.log@,
            halt: None,
        }
    }
}

/// A conversation that code takes part in has not stopped.
pub broadcast proof fn session_is_live(session: Session)
    ensures
        (#[trigger] session@).halt is None,
{
}

impl Session {
    /// A conversation in which nothing has been said.
    pub fn new() -> (r: Session)
        ensures
            r@ == (Talk { replies: seq![], next: 0, asked: seq![], log: seq![], halt: None }),
    {
        let r = Session {
            log: WorkLog::new(),
            replies: Vec::new(),
            next: 0,
            asked: Ghost(Seq::empty()),
        };
        assert(r@.replies =~= seq![]);
        r
    }

    /// Goes back to the start of the conversation, with the replies that there are.
    pub fn rewind(&mut self)
        ensures
            final(self)@ == (Talk { next: 0, asked: seq![], log: seq![], ..old(self)@ }),
    {
        self.next = 0;
        self.asked = Ghost(Seq::empty());
        self.log = WorkLog::new();
    }

    /// Records the reply to the question that comes after those which have one.
    pub fn answer(&mut self, reply: Reply)
        ensures
            final(self)@ == (Talk { replies: old(self)@.replies.push(reply@), ..old(self)@ }),
    {
        self.replies.push(reply);
        assert(self@.replies =~= old(self)@.replies.push(reply@));
    }

    /// The log so far.
    pub fn steps(&self) -> (r: Vec<Step>)
        ensures
            r@.map_values(|s: Step| s@) == self@.log,
    {
        self.log.copy().steps
    }

    /// Logs something done.
    pub fn info(&mut self, message: &str)
        ensures
            final(self)@ == old(self)@.say(info(message@)),
    {
        self.log.info(message);
    }

    /// Logs something that did not work.
    pub fn warn(&mut self, message: &str)
        ensures
            final(self)@ == old(self)@.say(warn(message@)),
    {
        self.log.warn(message);
    }

    /// Asks a question; the reply, or the halt at a question without one.
    pub fn ask(&mut self, q: Ask) -> (r: Result<Reply, Halt>)
        ensures
            old(self)@.ask(q@).0 == final(self)@.with(halt_of(r)),
            r matches Ok(reply) ==> reply@ == old(self)@.ask(q@).1,
            r matches Err(h) ==> h@ == HaltView::Waiting(q@),
    {
        self.asked = Ghost(self.asked@.push(q@));
        if self.next < self.replies.len() {
            let reply = self.replies[self.next].copy();
            self.next = self.next + 1;
            Ok(reply)
        } else {
            Err(Halt::Waiting(q))
        }
    }

    /// Asks for something to be done.
    pub fn order(&mut self, q: Ask) -> (r: Result<(), Halt>)
        ensures
            old(self)@.order(q@) == final(self)@.with(halt_of(r)),
    {
        match self.ask(q)? {
            Reply::Done => Ok(()),
            other => Err(misfit(other)),
        }
    }

    /// Asks a question of yes or no.
    pub fn flag(&mut self, q: Ask) -> (r: Result<bool, Halt>)
        ensures
            old(self)@.flag(q@).0 == final(self)@.with(halt_of(r)),
            r matches Ok(b) ==> b == old(self)@.flag(q@).1,
    {
        match self.ask(q)? {
            Reply::Flag(b) => Ok(b),
            other => Err(misfit(other)),
        }
    }

    /// Asks for a text.
    pub fn text(&mut self, q: Ask) -> (r: Result<String, Halt>)
        ensures
            old(self)@.text(q@).0 == final(self)@.with(halt_of(r)),
            r matches Ok(s) ==> s@ == old(self)@.text(q@).1,
    {
        match self.ask(q)? {
            Reply::Text(s) => Ok(s),
            other => Err(misfit(other)),
        }
    }
}

/// The halt at a reply that is not of the kind that was asked for.
fn misfit(reply: Reply) -> (r: Halt)
    ensures
        reply matches Reply::Failed(e) ==> r@ == HaltView::Failed(e@),
        !(reply is Failed) ==> r@ == HaltView::Unexpected,
{
    match reply {
        Reply::Failed(e) => Halt::Failed(e),
        _ => Halt::Unexpected,
    }
}

/// The error that work ends with when it fails with the given message.
pub fn failure(message: &str) -> (r: Halt)
    ensures
        r@ == HaltView::Failed(ErrorView::Message(message@)),
{
    Halt::Failed(InstallerError::message(message))
}

/// Asks for a program to be run.
pub fn run_output(program: &Vec<String>, args: Vec<String>, session: &mut Session) -> (r: Result<
    CommandOutput,
    Halt,
>)
    ensures
        old(session)@.run_output(texts(program@), texts(args@)).0 == final(session)@.with(
            halt_of(r),
        ),
        r matches Ok(out) ==> out@ == old(session)@.run_output(texts(program@), texts(args@)).1,
{
    match session.ask(Ask::Run(copies(program), args))? {
        Reply::Output(out) => Ok(out),
        other => Err(misfit(other)),
    }
}

/// Asks for adb to be run on the device.
pub fn run_adb(adb: &AdbTarget, args: &[&str], session: &mut Session) -> (r: Result<
    CommandOutput,
    Halt,
>)
    ensures
        old(session)@.run_adb(adb@, strs(args@)).0 == final(session)@.with(halt_of(r)),
        r matches Ok(out) ==> out@ == old(session)@.run_adb(adb@, strs(args@)).1,
{
    let mut full_args: Vec<String> = Vec::new();
    full_args.push("-s".to_owned());
    full_args.push(adb.serial.clone());
    let mut rest = owned(args);
    let ghost tail = texts(rest@);
    full_args.append(&mut rest);
    assert(texts(full_args@) =~= seq!["-s"@, adb.serial@] + tail);
    run_output(&adb.path, full_args, session)
}

/// Asks for adb to be run on the device, and fails where the command does.
pub fn run_adb_checked(adb: &AdbTarget, args: &[&str], session: &mut Session) -> (r: Result<
    CommandOutput,
    Halt,
>)
    ensures
        old(session)@.run_adb_checked(adb@, strs(args@)).0 == final(session)@.with(halt_of(r)),
        r matches Ok(out) ==> out@ == old(session)@.run_adb_checked(adb@, strs(args@)).1,
{
    let out = run_adb(adb, args, session)?;
    if out.success {
        Ok(out)
    } else {
        let mut message = concat4(
            "Команда завершилась с ошибкой: ",
            out.command.as_str(),
            "\n",
            out.stdout.as_str(),
        );
        message.append(out.stderr.as_str());
        Err(failure(message.as_str()))
    }
}

/// Asks for adb to be run on the device, and only logs it where that does not work. Halts only to
/// wait, or at a reply that does not fit.
pub fn run_adb_optional(adb: &AdbTarget, args: &[&str], session: &mut Session) -> (r: Result<
    (),
    Halt,
>)
    ensures
        old(session)@.run_adb_optional(adb@, strs(args@)) == final(session)@.with(halt_of(r)),
        r matches Err(h) ==> !(h@ is Failed),
{
    match run_adb(adb, args, session) {
        Ok(out) => {
            if !out.success {
                let message = concat4(
                    "Необязательная команда завершилась с ошибкой: ",
                    out.command.as_str(),
                    "\n",
                    out.stderr.as_str(),
                );
                session.warn(message.as_str());
            }
            Ok(())
        },
        Err(Halt::Failed(e)) => {
            session.warn(
                concat2("Необязательная команда не выполнена: ", e.text().as_str()).as_str(),
            );
            Ok(())
        },
        Err(h) => Err(h),
    }
}

/// What a command wrote, as entries of the log: its output as done, its errors as not.
pub open spec fn output_steps(out: OutputView) -> Seq<StepView> {
    filled_lines(out.stdout).map_values(|line: Seq<char>| info(line)) + filled_lines(
        out.stderr,
    ).map_values(|line: Seq<char>| warn(line))
}

/// Logs what a command wrote, line by line, without the blank ones.
pub fn append_output(session: &mut Session, output: &CommandOutput)
    ensures
        final(session)@ == old(session)@.log_all(output_steps(output@)),
{
    let ghost start = session@;
    let shown = split_filled_lines(output.stdout.as_str());
    let ghost done = filled_lines(output.stdout@).map_values(|line: Seq<char>| info(line));
    let mut i: usize = 0;
    assert(start.log + done.take(0) =~= start.log);
    while i < shown.len()
        invariant
            i <= shown.len(),
            start.halt is None,
            texts(shown@) == filled_lines(output.stdout@),
            done == filled_lines(output.stdout@).map_values(|line: Seq<char>| info(line)),
            session@ == start.log_all(done.take(i as int)),
        decreases shown.len() - i,
    {
        session.info(shown[i].as_str());
        assert(texts(shown@)[i as int] == shown@[i as int]@);
        assert(start.log + done.take(i + 1) =~= (start.log + done.take(i as int)).push(
            done[i as int],
        ));
        i = i + 1;
    }
    assert(done.take(i as int) =~= done);
    let complaints = split_filled_lines(output.stderr.as_str());
    let ghost rest = filled_lines(output.stderr@).map_values(|line: Seq<char>| warn(line));
    let mut k: usize = 0;
    assert(start.log + (done + rest.take(0)) =~= start.log + done);
    while k < complaints.len()
        invariant
            k <= complaints.len(),
            start.halt is None,
            texts(complaints@) == filled_lines(output.stderr@),
            rest == filled_lines(output.stderr@).map_values(|line: Seq<char>| warn(line)),
            session@ == start.log_all(done + rest.take(k as int)),
        decreases complaints.len() - k,
    {
        session.warn(complaints[k].as_str());
        assert(texts(complaints@)[k as int] == complaints@[k as int]@);
        assert(start.log + (done + rest.take(k + 1)) =~= (start.log + (done + rest.take(
            k as int,
        ))).push(rest[k as int]));
        k = k + 1;
    }
    assert(rest.take(k as int) =~= rest);
}

}
