//! The log of what was done, as the user sees it.

use vstd::prelude::*;

use crate::text::{chars_of, lines, rows, split_lines, text_of, texts, trim, trimmed};

verus! {

/// One entry of the log.
#[derive(Debug)]
pub struct Step {
    pub level: String,
    pub message: String,
}

/// The value of a [`Step`].
pub struct StepView {
    pub level: Seq<char>,
    pub message: Seq<char>,
}

impl View for Step {
    type V = StepView;

    open spec fn view(&self) -> StepView {
        StepView { level: self.level@, message: self.message@ }
    }
}

/// The entry that tells of something done.
pub open spec fn info(message: Seq<char>) -> StepView {
    StepView { level: "info"@, message }
}

/// The entry that tells of something that did not work.
pub open spec fn warn(message: Seq<char>) -> StepView {
    StepView { level: "warn"@, message }
}

/// The log of one piece of work.
#[derive(Debug)]
pub struct WorkLog {
    pub steps: Vec<Step>,
}

impl View for WorkLog {
    type V = Seq<StepView>;

    open spec fn view(&self) -> Seq<StepView> {
        self.steps@.map_values(|s: Step| s@)
    }
}

impl WorkLog {
    /// An empty log.
    pub fn new() -> (r: WorkLog)
        ensures
            r@ == Seq::<StepView>::empty(),
    {
        let r = WorkLog { steps: Vec::new() };
        assert(r@ =~= Seq::empty());
        r
    }

    /// Adds an entry that tells of something done.
    pub fn info(&mut self, message: &str)
        ensures
            final(self)@ == old(self)@.push(info(message@)),
    {
        self.steps.push(Step { level: "info".to_owned(), message: message.to_owned() });
        assert(self@ =~= old(self)@.push(info(message@)));
    }

    /// Adds an entry that tells of something that did not work.
    pub fn warn(&mut self, message: &str)
        ensures
            final(self)@ == old(self)@.push(warn(message@)),
    {
        self.steps.push(Step { level: "warn".to_owned(), message: message.to_owned() });
        assert(self@ =~= old(self)@.push(warn(message@)));
    }

    /// A log with the same entries.
    pub fn copy(&self) -> (r: WorkLog)
        ensures
            r@ == self@,
    {
        let mut copied = WorkLog::new();
        let mut i: usize = 0;
        while i < self.steps.len()
            invariant
                i <= self.steps.len(),
                copied@ == self@.take(i as int),
            decreases self.steps.len() - i,
        {
            let ghost before = copied@;
            copied.steps.push(
                Step {
                    level: self.steps[i].level.clone(),
                    message: self.steps[i].message.clone(),
                },
            );
            assert(copied@ =~= before.push(self.steps@[i as int]@));
            assert(copied@ =~= self@.take(i + 1));
            i = i + 1;
        }
        assert(self@.take(self.steps@.len() as int) =~= self@);
        copied
    }
}

/// The lines of a text that hold more than white space.
pub open spec fn filled_lines(text: Seq<char>) -> Seq<Seq<char>> {
    lines(text).filter(|line: Seq<char>| trim(line).len() > 0)
}

/// The lines of a text that hold more than white space.
pub fn split_filled_lines(text: &str) -> (r: Vec<String>)
    ensures
        texts(r@) == filled_lines(text@),
{
    let all = split_lines(&chars_of(text));
    let mut out: Vec<String> = Vec::new();
    let mut i: usize = 0;
    let ghost keep = |line: Seq<char>| trim(line).len() > 0;
    assert(texts(out@) =~= rows(all@).take(0).filter(keep)) by {
        reveal(Seq::filter);
    }
    while i < all.len()
        invariant
            i <= all.len(),
            keep == (|line: Seq<char>| trim(line).len() > 0),
            texts(out@) == rows(all@).take(i as int).filter(keep),
        decreases all.len() - i,
    {
        reveal(Seq::filter);
        let ghost before = texts(out@);
        assert(rows(all@).take(i + 1).drop_last() =~= rows(all@).take(i as int));
        if trimmed(&all[i]).len() > 0 {
            out.push(text_of(&all[i]));
            assert(texts(out@) =~= before.push(all@[i as int]@));
        }
        i = i + 1;
    }
    assert(rows(all@).take(all@.len() as int) =~= rows(all@));
    out
}

}
