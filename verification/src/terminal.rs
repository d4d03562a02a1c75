//! The terminal session that the interface runs in, and the external editor.
//!
//! A session acquires raw mode, the alternate screen, bracketed paste,
//! optionally mouse capture, and a hidden cursor, in that order; releasing
//! gives back exactly what was acquired, in the reverse order, and keeps
//! going past failures.
use vstd::prelude::*;

use crate::text::{
    chars_eq_str, chars_of, has_char, join_chars, join_with, lower_seq, lowercase, string_from_chars,
    trim, trim_chars,
};

verus! {

/// The terminal operations a session needs. Implementations report each
/// operation's failure; nothing is assumed of when they fail.
pub trait TerminalControl {
    fn enable_raw(&mut self) -> Result<(), TerminalError>;

    fn disable_raw(&mut self) -> Result<(), TerminalError>;

    fn enter_alternate(&mut self) -> Result<(), TerminalError>;

    fn leave_alternate(&mut self) -> Result<(), TerminalError>;

    fn enable_paste(&mut self) -> Result<(), TerminalError>;

    fn disable_paste(&mut self) -> Result<(), TerminalError>;

    fn enable_mouse(&mut self) -> Result<(), TerminalError>;

    fn disable_mouse(&mut self) -> Result<(), TerminalError>;

    fn hide_cursor(&mut self) -> Result<(), TerminalError>;

    fn show_cursor(&mut self) -> Result<(), TerminalError>;
}

#[derive(Debug, Clone, PartialEq, Eq)]
pub enum TerminalError {
    Operation(String),
    Cleanup(String),
}

impl TerminalError {
    pub open spec fn message_spec(&self) -> Seq<char> {
        match self {
            TerminalError::Operation(d) => "terminal operation failed: "@ + d@,
            TerminalError::Cleanup(d) => "terminal cleanup failed: "@ + d@,
        }
    }

    pub fn message(&self) -> (r: String)
        ensures
            r@ == self.message_spec(),
    {
        let (prefix, detail) = match self {
            TerminalError::Operation(d) => ("terminal operation failed: ", d),
            TerminalError::Cleanup(d) => ("terminal cleanup failed: ", d),
        };
        let mut v = chars_of(prefix);
        crate::text::append_str(&mut v, detail.as_str());
        string_from_chars(&v)
    }

    fn duplicate(&self) -> (r: TerminalError)
        ensures
            r == *self,
    {
        match self {
            TerminalError::Operation(d) => TerminalError::Operation(d.clone()),
            TerminalError::Cleanup(d) => TerminalError::Cleanup(d.clone()),
        }
    }
}

/// One call that a session made on its terminal.
pub ghost enum TerminalStep {
    EnableRaw,
    DisableRaw,
    EnterAlternate,
    LeaveAlternate,
    EnablePaste,
    DisablePaste,
    EnableMouse,
    DisableMouse,
    HideCursor,
    ShowCursor,
}

/// The terminal states that a session holds.
#[derive(Debug, Clone, Copy, Default, PartialEq, Eq, Structural)]
pub struct AcquiredStates {
    pub raw: bool,
    pub alternate: bool,
    pub paste: bool,
    pub mouse: bool,
    pub cursor_hidden: bool,
}

pub open spec fn nothing_acquired() -> AcquiredStates {
    AcquiredStates { raw: false, alternate: false, paste: false, mouse: false, cursor_hidden: false }
}

/// The calls that acquiring makes, in order, while each succeeds.
pub open spec fn acquire_plan(mouse: bool) -> Seq<TerminalStep> {
    let head = seq![TerminalStep::EnableRaw, TerminalStep::EnterAlternate, TerminalStep::EnablePaste];
    if mouse {
        head + seq![TerminalStep::EnableMouse, TerminalStep::HideCursor]
    } else {
        head + seq![TerminalStep::HideCursor]
    }
}

/// What is held once the first `k` calls of the acquiring plan succeeded.
pub open spec fn held_after(mouse: bool, k: int) -> AcquiredStates {
    AcquiredStates {
        raw: k >= 1,
        alternate: k >= 2,
        paste: k >= 3,
        mouse: mouse && k >= 4,
        cursor_hidden: k >= acquire_plan(mouse).len(),
    }
}

/// The calls that releasing makes: each held state given back, the last
/// acquired first.
pub open spec fn release_plan(held: AcquiredStates) -> Seq<TerminalStep> {
    (if held.cursor_hidden { seq![TerminalStep::ShowCursor] } else { Seq::empty() })
        + (if held.mouse { seq![TerminalStep::DisableMouse] } else { Seq::empty() })
        + (if held.paste { seq![TerminalStep::DisablePaste] } else { Seq::empty() })
        + (if held.alternate { seq![TerminalStep::LeaveAlternate] } else { Seq::empty() })
        + (if held.raw { seq![TerminalStep::DisableRaw] } else { Seq::empty() })
}

/// The interface's hold on the terminal. `steps` records every call made on
/// the terminal, in order.
pub struct TerminalSession<C: TerminalControl> {
    control: C,
    acquired: AcquiredStates,
    cleaned: bool,
    cleanup_error: Option<TerminalError>,
    steps: Ghost<Seq<TerminalStep>>,
    results: Ghost<Seq<Option<TerminalError>>>,
}

/// What one terminal call gave: nothing when it succeeded, else its error.
pub open spec fn outcome(r: Result<(), TerminalError>) -> Option<TerminalError> {
    match r {
        Ok(_) => None,
        Err(e) => Some(e),
    }
}

/// `n` calls that all succeeded.
pub open spec fn successes(n: nat) -> Seq<Option<TerminalError>> {
    Seq::new(n, |i: int| None::<TerminalError>)
}

/// The messages of the calls that failed, in order.
pub open spec fn failure_messages(results: Seq<Option<TerminalError>>) -> Seq<Seq<char>>
    decreases results.len(),
{
    if results.len() == 0 {
        Seq::empty()
    } else {
        let rest = failure_messages(results.drop_last());
        match results.last() {
            Some(e) => rest.push(e.message_spec()),
            None => rest,
        }
    }
}

/// What releasing answers after calls with these results: `Ok` when every
/// call succeeded, else a cleanup error that joins the failures' messages.
pub open spec fn release_answer(results: Seq<Option<TerminalError>>, r: Result<(), TerminalError>) -> bool {
    if failure_messages(results).len() == 0 {
        r is Ok
    } else {
        r matches Err(TerminalError::Cleanup(d)) && d@ == join_with(failure_messages(results), "; "@)
    }
}

/// Whether `r` is the error of a start whose step failed with `error` and
/// whose cleanup gave `cleanup`: the step's error itself when the cleanup
/// succeeded, else an operation error joining both messages.
pub open spec fn acquire_failure_is(r: TerminalError, error: TerminalError, cleanup: Result<(), TerminalError>) -> bool {
    match cleanup {
        Ok(_) => r == error,
        Err(c) => r matches TerminalError::Operation(m) && m@ == error.message_spec() + "; cleanup also failed: "@
            + c.message_spec(),
    }
}

/// The error of a start whose step failed with `error`, given what the
/// cleanup that followed answered.
pub fn acquire_failure(error: TerminalError, cleanup: Result<(), TerminalError>) -> (r: TerminalError)
    ensures
        acquire_failure_is(r, error, cleanup),
{
    match cleanup {
        Ok(()) => error,
        Err(cleanup_error) => {
            let mut v = chars_of(error.message().as_str());
            crate::text::append_str(&mut v, "; cleanup also failed: ");
            let c = chars_of(cleanup_error.message().as_str());
            crate::text::append_chars(&mut v, &c);
            TerminalError::Operation(string_from_chars(&v))
        },
    }
}

/// The error a start answers when step `step_error` failed and its undo
/// calls gave `undo`: the step's error where every undo succeeded, else an
/// operation error that joins it with the cleanup error.
pub open spec fn failure_after_undo(e: TerminalError, step_error: TerminalError, undo: Seq<Option<TerminalError>>) -> bool {
    if failure_messages(undo).len() == 0 {
        e == step_error
    } else {
        e matches TerminalError::Operation(m) && m@ == step_error.message_spec() + "; cleanup also failed: "@
            + "terminal cleanup failed: "@ + join_with(failure_messages(undo), "; "@)
    }
}

/// A start from `calls0`/`results0` whose step `n` of the plan failed with
/// `step_error`: the calls are the plan's first `n` steps, then the undoing
/// of the `n - 1` that succeeded, the last taken first; the results record
/// each step and undo; and the answer is `e`.
pub open spec fn start_failed(
    calls0: Seq<TerminalStep>,
    results0: Seq<Option<TerminalError>>,
    calls: Seq<TerminalStep>,
    results: Seq<Option<TerminalError>>,
    mouse: bool,
    n: int,
    step_error: TerminalError,
    e: TerminalError,
) -> bool {
    &&& 1 <= n <= acquire_plan(mouse).len()
    &&& calls == calls0 + acquire_plan(mouse).take(n) + release_plan(held_after(mouse, n - 1))
    &&& results.len() == results0.len() + n + release_plan(held_after(mouse, n - 1)).len()
    &&& results.take(results0.len() + n) == results0 + successes((n - 1) as nat).push(Some(step_error))
    &&& failure_after_undo(e, step_error, results.skip(results0.len() + n))
}

impl<C: TerminalControl> TerminalSession<C> {
    pub closed spec fn held(&self) -> AcquiredStates {
        self.acquired
    }

    pub closed spec fn is_cleaned(&self) -> bool {
        self.cleaned
    }

    pub closed spec fn recorded_error(&self) -> Option<TerminalError> {
        self.cleanup_error
    }

    pub closed spec fn calls(&self) -> Seq<TerminalStep> {
        self.steps@
    }

    /// What each call in `calls` gave, in the same order.
    pub closed spec fn call_results(&self) -> Seq<Option<TerminalError>> {
        self.results@
    }

    /// Acquires the terminal: runs the plan until a call fails, holding what
    /// succeeded.
    fn acquire(&mut self, mouse: bool) -> (r: Result<(), TerminalError>)
        requires
            old(self).acquired == nothing_acquired(),
        ensures
            final(self).cleaned == old(self).cleaned,
            final(self).cleanup_error == old(self).cleanup_error,
            r is Ok ==> final(self).acquired == held_after(mouse, acquire_plan(mouse).len() as int)
                && final(self).steps@ == old(self).steps@ + acquire_plan(mouse)
                && final(self).results@ == old(self).results@ + successes(acquire_plan(mouse).len()),
            r matches Err(e) ==> exists|n: int| 1 <= n <= acquire_plan(mouse).len()
                && #[trigger] final(self).steps@ == old(self).steps@ + acquire_plan(mouse).take(n)
                && final(self).results@ == old(self).results@ + successes((n - 1) as nat).push(Some(e))
                && final(self).acquired == held_after(mouse, n - 1),
    {
        let ghost start = self.steps@;
        let ghost rstart = self.results@;
        let ghost plan = acquire_plan(mouse);
        let step = self.control.enable_raw();
        self.steps = Ghost(self.steps@.push(TerminalStep::EnableRaw));
        self.results = Ghost(self.results@.push(outcome(step)));
        proof {
            assert(self.steps@ =~= start + plan.take(1));
        }
        if let Err(e) = step {
            proof {
                assert(self.results@ =~= rstart + successes(0).push(Some(e)));
            }
            return Err(e);
        }
        self.acquired.raw = true;
        proof {
            assert(held_after(mouse, 1) == self.acquired);
            assert(self.results@ =~= rstart + successes(1));
        }
        let step = self.control.enter_alternate();
        self.steps = Ghost(self.steps@.push(TerminalStep::EnterAlternate));
        self.results = Ghost(self.results@.push(outcome(step)));
        proof {
            assert(self.steps@ =~= start + plan.take(2));
        }
        if let Err(e) = step {
            proof {
                assert(self.results@ =~= rstart + successes(1).push(Some(e)));
            }
            return Err(e);
        }
        self.acquired.alternate = true;
        proof {
            assert(held_after(mouse, 2) == self.acquired);
            assert(self.results@ =~= rstart + successes(2));
        }
        let step = self.control.enable_paste();
        self.steps = Ghost(self.steps@.push(TerminalStep::EnablePaste));
        self.results = Ghost(self.results@.push(outcome(step)));
        proof {
            assert(self.steps@ =~= start + plan.take(3));
        }
        if let Err(e) = step {
            proof {
                assert(self.results@ =~= rstart + successes(2).push(Some(e)));
            }
            return Err(e);
        }
        self.acquired.paste = true;
        proof {
            assert(held_after(mouse, 3) == self.acquired);
            assert(self.results@ =~= rstart + successes(3));
        }
        if mouse {
            let step = self.control.enable_mouse();
            self.steps = Ghost(self.steps@.push(TerminalStep::EnableMouse));
            self.results = Ghost(self.results@.push(outcome(step)));
            proof {
                assert(self.steps@ =~= start + plan.take(4));
            }
            if let Err(e) = step {
                proof {
                    assert(self.results@ =~= rstart + successes(3).push(Some(e)));
                }
                return Err(e);
            }
            self.acquired.mouse = true;
            proof {
                assert(held_after(mouse, 4) == self.acquired);
                assert(self.results@ =~= rstart + successes(4));
            }
        }
        let ghost done = if mouse { 4int } else { 3int };
        let step = self.control.hide_cursor();
        self.steps = Ghost(self.steps@.push(TerminalStep::HideCursor));
        self.results = Ghost(self.results@.push(outcome(step)));
        proof {
            assert(self.steps@ =~= start + plan.take(done + 1));
            assert(plan.take(done + 1) =~= plan);
        }
        if let Err(e) = step {
            proof {
                assert(self.results@ =~= rstart + successes(done as nat).push(Some(e)));
            }
            return Err(e);
        }
        self.acquired.cursor_hidden = true;
        proof {
            assert(held_after(mouse, plan.len() as int) == self.acquired);
            assert(self.results@ =~= rstart + successes(plan.len()));
        }
        Ok(())
    }

    /// Gives back everything held, the last acquired first, carrying on past
    /// failures; a failure is recorded as the cleanup error.
    #[verifier::rlimit(40)]
    #[verifier::spinoff_prover]
    fn release(&mut self) -> (r: Result<(), TerminalError>)
        ensures
            final(self).acquired == nothing_acquired(),
            final(self).steps@ == old(self).steps@ + release_plan(old(self).acquired),
            final(self).results@.len() == old(self).results@.len() + release_plan(old(self).acquired).len(),
            final(self).results@.take(old(self).results@.len() as int) == old(self).results@,
            release_answer(final(self).results@.skip(old(self).results@.len() as int), r),
            final(self).cleaned == old(self).cleaned,
            r is Ok ==> final(self).cleanup_error == old(self).cleanup_error,
            r matches Err(e) ==> e is Cleanup && final(self).cleanup_error == Some(e),
    {
        let ghost start = self.steps@;
        let ghost r0 = self.results@;
        let ghost held = self.acquired;
        let mut errors: Vec<Vec<char>> = Vec::new();
        proof {
            assert(r0.take(r0.len() as int) =~= r0);
            assert(r0.skip(r0.len() as int) =~= Seq::<Option<TerminalError>>::empty());
            assert(errors@.map_values(|v: Vec<char>| v@) =~= Seq::<Seq<char>>::empty());
        }
        if self.acquired.cursor_hidden {
            let res = self.control.show_cursor();
            let ghost before = self.results@;
            let ghost eb = errors@.map_values(|v: Vec<char>| v@);
            if let Err(e) = &res {
                let m = chars_of(e.message().as_str());
                errors.push(m);
                proof {
                    assert(errors@.map_values(|v: Vec<char>| v@) =~= eb.push(e.message_spec()));
                }
            }
            self.steps = Ghost(self.steps@.push(TerminalStep::ShowCursor));
            self.results = Ghost(self.results@.push(outcome(res)));
            proof {
                lemma_record(r0, before, outcome(res));
            }
        }
        proof {
            assert(self.results@.len() == r0.len() + self.steps@.len() - start.len());
            assert(self.results@.take(r0.len() as int) == r0);
            assert(errors@.map_values(|v: Vec<char>| v@) == failure_messages(self.results@.skip(r0.len() as int)));
        }
        if self.acquired.mouse {
            let res = self.control.disable_mouse();
            let ghost before = self.results@;
            let ghost eb = errors@.map_values(|v: Vec<char>| v@);
            if let Err(e) = &res {
                let m = chars_of(e.message().as_str());
                errors.push(m);
                proof {
                    assert(errors@.map_values(|v: Vec<char>| v@) =~= eb.push(e.message_spec()));
                }
            }
            self.steps = Ghost(self.steps@.push(TerminalStep::DisableMouse));
            self.results = Ghost(self.results@.push(outcome(res)));
            proof {
                lemma_record(r0, before, outcome(res));
            }
        }
        proof {
            assert(self.results@.len() == r0.len() + self.steps@.len() - start.len());
            assert(self.results@.take(r0.len() as int) == r0);
            assert(errors@.map_values(|v: Vec<char>| v@) == failure_messages(self.results@.skip(r0.len() as int)));
        }
        if self.acquired.paste {
            let res = self.control.disable_paste();
            let ghost before = self.results@;
            let ghost eb = errors@.map_values(|v: Vec<char>| v@);
            if let Err(e) = &res {
                let m = chars_of(e.message().as_str());
                errors.push(m);
                proof {
                    assert(errors@.map_values(|v: Vec<char>| v@) =~= eb.push(e.message_spec()));
                }
            }
            self.steps = Ghost(self.steps@.push(TerminalStep::DisablePaste));
            self.results = Ghost(self.results@.push(outcome(res)));
            proof {
                lemma_record(r0, before, outcome(res));
            }
        }
        proof {
            assert(self.results@.len() == r0.len() + self.steps@.len() - start.len());
            assert(self.results@.take(r0.len() as int) == r0);
            assert(errors@.map_values(|v: Vec<char>| v@) == failure_messages(self.results@.skip(r0.len() as int)));
        }
        if self.acquired.alternate {
            let res = self.control.leave_alternate();
            let ghost before = self.results@;
            let ghost eb = errors@.map_values(|v: Vec<char>| v@);
            if let Err(e) = &res {
                let m = chars_of(e.message().as_str());
                errors.push(m);
                proof {
                    assert(errors@.map_values(|v: Vec<char>| v@) =~= eb.push(e.message_spec()));
                }
            }
            self.steps = Ghost(self.steps@.push(TerminalStep::LeaveAlternate));
            self.results = Ghost(self.results@.push(outcome(res)));
            proof {
                lemma_record(r0, before, outcome(res));
            }
        }
        proof {
            assert(self.results@.len() == r0.len() + self.steps@.len() - start.len());
            assert(self.results@.take(r0.len() as int) == r0);
            assert(errors@.map_values(|v: Vec<char>| v@) == failure_messages(self.results@.skip(r0.len() as int)));
        }
        if self.acquired.raw {
            let res = self.control.disable_raw();
            let ghost before = self.results@;
            let ghost eb = errors@.map_values(|v: Vec<char>| v@);
            if let Err(e) = &res {
                let m = chars_of(e.message().as_str());
                errors.push(m);
                proof {
                    assert(errors@.map_values(|v: Vec<char>| v@) =~= eb.push(e.message_spec()));
                }
            }
            self.steps = Ghost(self.steps@.push(TerminalStep::DisableRaw));
            self.results = Ghost(self.results@.push(outcome(res)));
            proof {
                lemma_record(r0, before, outcome(res));
            }
        }
        proof {
            assert(self.results@.len() == r0.len() + self.steps@.len() - start.len());
            assert(self.results@.take(r0.len() as int) == r0);
            assert(errors@.map_values(|v: Vec<char>| v@) == failure_messages(self.results@.skip(r0.len() as int)));
        }
        proof {
            assert(self.steps@ =~= start + release_plan(held));
        }
        self.acquired = AcquiredStates { raw: false, alternate: false, paste: false, mouse: false, cursor_hidden: false };
        if errors.len() == 0 {
            Ok(())
        } else {
            let joined = join_chars(&errors, "; ");
            let error = TerminalError::Cleanup(string_from_chars(&joined));
            self.cleanup_error = Some(error.duplicate());
            Err(error)
        }
    }

    /// A session on `control` that holds nothing and has made no call yet.
    pub fn idle(control: C) -> (s: Self)
        ensures
            s.held() == nothing_acquired(),
            !s.is_cleaned(),
            s.calls() == Seq::<TerminalStep>::empty(),
            s.call_results() == Seq::<Option<TerminalError>>::empty(),
            s.recorded_error().is_none(),
    {
        TerminalSession {
            control,
            acquired: AcquiredStates { raw: false, alternate: false, paste: false, mouse: false, cursor_hidden: false },
            cleaned: false,
            cleanup_error: None,
            steps: Ghost(Seq::empty()),
            results: Ghost(Seq::empty()),
        }
    }

    /// Takes the terminal (with mouse capture where asked). Where a step of
    /// the plan fails, the session is cleaned up, which gives back what the
    /// earlier steps took, and the step's error is returned, joined with the
    /// cleanup's where that failed too.
    pub fn start(&mut self, mouse: bool) -> (r: Result<(), TerminalError>)
        requires
            old(self).held() == nothing_acquired(),
            !old(self).is_cleaned(),
        ensures
            r is Ok ==> final(self).held() == held_after(mouse, acquire_plan(mouse).len() as int)
                && !final(self).is_cleaned()
                && final(self).calls() == old(self).calls() + acquire_plan(mouse)
                && final(self).call_results() == old(self).call_results() + successes(acquire_plan(mouse).len())
                && final(self).recorded_error() == old(self).recorded_error(),
            r matches Err(e) ==> final(self).is_cleaned() && final(self).held() == nothing_acquired()
                && exists|n: int, step_error: TerminalError| start_failed(
                    old(self).calls(),
                    old(self).call_results(),
                    final(self).calls(),
                    final(self).call_results(),
                    mouse,
                    n,
                    step_error,
                    e,
                ),
    {
        match self.acquire(mouse) {
            Ok(()) => Ok(()),
            Err(error) => {
                let ghost mid = self.results@;
                let ghost mid_steps = self.steps@;
                let ghost mid_held = self.acquired;
                let cleanup = self.cleanup();
                let r = acquire_failure(error, cleanup);
                proof {
                    let n = choose|n: int| #![trigger acquire_plan(mouse).take(n)]
                        1 <= n <= acquire_plan(mouse).len()
                        && mid_steps == old(self).steps@ + acquire_plan(mouse).take(n)
                        && mid == old(self).results@ + successes((n - 1) as nat).push(Some(error))
                        && mid_held == held_after(mouse, n - 1);
                    assert(mid.len() == old(self).results@.len() + n);
                    assert(self.results@.take(mid.len() as int) == mid);
                    assert(self.steps@ == mid_steps + release_plan(mid_held));
                    let undo = self.results@.skip(mid.len() as int);
                    assert(release_answer(undo, cleanup));
                    if failure_messages(undo).len() == 0 {
                        assert(cleanup is Ok);
                        assert(r == error);
                    } else {
                        let c = cleanup->Err_0;
                        assert(c matches TerminalError::Cleanup(d) && d@ == join_with(failure_messages(undo), "; "@));
                        assert(r matches TerminalError::Operation(m) && m@ == error.message_spec() + "; cleanup also failed: "@
                            + c.message_spec());
                        let m = r->Operation_0;
                        assert(m@ =~= error.message_spec() + "; cleanup also failed: "@ + "terminal cleanup failed: "@
                            + join_with(failure_messages(undo), "; "@));
                    }
                    assert(failure_after_undo(r, error, undo));
                    assert(start_failed(old(self).steps@, old(self).results@, self.steps@, self.results@, mouse, n, error, r));
                    assert(start_failed(
                        old(self).calls(),
                        old(self).call_results(),
                        self.calls(),
                        self.call_results(),
                        mouse,
                        n,
                        error,
                        r,
                    ));
                }
                Err(r)
            },
        }
    }

    /// Takes the terminal (with mouse capture where asked): an idle session
    /// on `control`, then `start`. The session and its record of calls go
    /// with a failure; `start` states which calls a failure made.
    pub fn new_with_mouse(control: C, mouse: bool) -> (r: Result<Self, TerminalError>)
        ensures
            r matches Ok(s) ==> s.held() == held_after(mouse, acquire_plan(mouse).len() as int) && !s.is_cleaned()
                && s.calls() == acquire_plan(mouse) && s.call_results() == successes(acquire_plan(mouse).len())
                && s.recorded_error().is_none(),
            r matches Err(e) ==> exists|calls: Seq<TerminalStep>, results: Seq<Option<TerminalError>>, n: int, step_error: TerminalError|
                start_failed(Seq::empty(), Seq::empty(), calls, results, mouse, n, step_error, e),
    {
        let mut session = Self::idle(control);
        match session.start(mouse) {
            Ok(()) => {
                proof {
                    assert(session.steps@ =~= acquire_plan(mouse));
                    assert(session.results@ =~= successes(acquire_plan(mouse).len()));
                }
                Ok(session)
            },
            Err(error) => Err(error),
        }
    }

    pub fn new(control: C) -> (r: Result<Self, TerminalError>)
        ensures
            r matches Ok(s) ==> s.held() == held_after(false, acquire_plan(false).len() as int) && !s.is_cleaned()
                && s.calls() == acquire_plan(false) && s.call_results() == successes(acquire_plan(false).len()),
            r matches Err(e) ==> exists|calls: Seq<TerminalStep>, results: Seq<Option<TerminalError>>, n: int, step_error: TerminalError|
                start_failed(Seq::empty(), Seq::empty(), calls, results, false, n, step_error, e),
    {
        Self::new_with_mouse(control, false)
    }

    /// Gives the terminal back for a while (to an interactive child).
    pub fn suspend(&mut self) -> (r: Result<(), TerminalError>)
        ensures
            old(self).is_cleaned() ==> (r matches Err(TerminalError::Operation(m))
                && m@ == "terminal session has already been cleaned up"@ && final(self).calls() == old(self).calls()
                && final(self).call_results() == old(self).call_results()
                && final(self).held() == old(self).held()),
            !old(self).is_cleaned() ==> final(self).held() == nothing_acquired()
                && final(self).calls() == old(self).calls() + release_plan(old(self).held())
                && final(self).call_results().len() == old(self).call_results().len() + release_plan(old(self).held()).len()
                && final(self).call_results().take(old(self).call_results().len() as int) == old(self).call_results()
                && release_answer(final(self).call_results().skip(old(self).call_results().len() as int), r),
            final(self).is_cleaned() == old(self).is_cleaned(),
    {
        if self.cleaned {
            return Err(TerminalError::Operation("terminal session has already been cleaned up".to_owned()));
        }
        self.release()
    }

    /// Takes the terminal again after a suspension; a session that still
    /// holds something is left as it is.
    pub fn resume(&mut self, mouse: bool) -> (r: Result<(), TerminalError>)
        ensures
            old(self).is_cleaned() ==> (r matches Err(TerminalError::Operation(m))
                && m@ == "terminal session has already been cleaned up"@ && final(self).calls() == old(self).calls()
                && final(self).call_results() == old(self).call_results()),
            !old(self).is_cleaned() && old(self).held() != nothing_acquired() ==> r is Ok
                && final(self).calls() == old(self).calls() && final(self).held() == old(self).held()
                && final(self).call_results() == old(self).call_results(),
            !old(self).is_cleaned() && old(self).held() == nothing_acquired() && r is Ok ==>
                final(self).held() == held_after(mouse, acquire_plan(mouse).len() as int)
                && final(self).calls() == old(self).calls() + acquire_plan(mouse)
                && final(self).call_results() == old(self).call_results() + successes(acquire_plan(mouse).len()),
            !old(self).is_cleaned() && old(self).held() == nothing_acquired() ==> (r matches Err(e) ==>
                final(self).held() == nothing_acquired() && exists|n: int| 1 <= n <= acquire_plan(mouse).len()
                && #[trigger] final(self).calls() == old(self).calls() + acquire_plan(mouse).take(n)
                + release_plan(held_after(mouse, n - 1))
                && final(self).call_results().take(old(self).call_results().len() + n) == old(self).call_results()
                + successes((n - 1) as nat).push(Some(e))
                && final(self).call_results().len() == old(self).call_results().len() + n + release_plan(
                held_after(mouse, n - 1),
            ).len()),
            final(self).is_cleaned() == old(self).is_cleaned(),
    {
        if self.cleaned {
            return Err(TerminalError::Operation("terminal session has already been cleaned up".to_owned()));
        }
        if self.acquired != (AcquiredStates { raw: false, alternate: false, paste: false, mouse: false, cursor_hidden: false }) {
            return Ok(());
        }
        match self.acquire(mouse) {
            Ok(()) => Ok(()),
            Err(error) => {
                let _ = self.release();
                Err(error)
            },
        }
    }

    /// Gives the terminal back for good. A second cleanup makes no calls and
    /// answers with the error of the first, if it had one.
    pub fn cleanup(&mut self) -> (r: Result<(), TerminalError>)
        ensures
            final(self).is_cleaned(),
            old(self).is_cleaned() ==> final(self).calls() == old(self).calls()
                && final(self).call_results() == old(self).call_results()
                && final(self).held() == old(self).held()
                && final(self).recorded_error() == old(self).recorded_error()
                && match old(self).recorded_error() {
                    Some(e) => r == Err::<(), TerminalError>(e),
                    None => r is Ok,
                },
            !old(self).is_cleaned() ==> final(self).held() == nothing_acquired()
                && final(self).calls() == old(self).calls() + release_plan(old(self).held())
                && final(self).call_results().len() == old(self).call_results().len() + release_plan(old(self).held()).len()
                && final(self).call_results().take(old(self).call_results().len() as int) == old(self).call_results()
                && release_answer(final(self).call_results().skip(old(self).call_results().len() as int), r)
                && (r matches Err(e) ==> final(self).recorded_error() == Some(e)),
    {
        if self.cleaned {
            return match &self.cleanup_error {
                Some(e) => Err(e.duplicate()),
                None => Ok(()),
            };
        }
        self.cleaned = true;
        self.release()
    }

    /// The error of the cleanup, if it failed.
    pub fn cleanup_error(&self) -> (r: Option<&TerminalError>)
        ensures
            match self.recorded_error() {
                Some(e) => r == Some(&e),
                None => r.is_none(),
            },
    {
        match &self.cleanup_error {
            Some(e) => Some(e),
            None => None,
        }
    }
}


#[derive(Debug, Clone, Copy, PartialEq, Eq, Structural)]
pub enum EditorError {
    NotConfigured,
    InvalidCommand,
    Spawn,
    Wait,
}

impl EditorError {
    pub open spec fn message_spec(&self) -> Seq<char> {
        match self {
            EditorError::NotConfigured => "no usable external editor is configured"@,
            EditorError::InvalidCommand => "the external editor command is invalid"@,
            EditorError::Spawn => "the external editor could not be started"@,
            EditorError::Wait => "the external editor could not be waited for"@,
        }
    }

    pub fn message(&self) -> (r: &'static str)
        ensures
            r@ == self.message_spec(),
    {
        match self {
            EditorError::NotConfigured => "no usable external editor is configured",
            EditorError::InvalidCommand => "the external editor command is invalid",
            EditorError::Spawn => "the external editor could not be started",
            EditorError::Wait => "the external editor could not be waited for",
        }
    }
}

/// How the external editor ended; `elapsed` in milliseconds.
#[derive(Debug, Clone, Copy, PartialEq, Eq, Structural)]
pub struct EditorExit {
    pub success: bool,
    pub code: Option<i32>,
    pub elapsed: u64,
}

/// The words that `shlex::split` makes of a string, or none where its
/// quoting is unbalanced.
pub uninterp spec fn shell_words(value: Seq<char>) -> Option<Seq<Seq<char>>>;

/// `shlex::split`: POSIX shell word splitting, or `None` on bad quoting.
#[verifier::external_body]
fn split_words(value: &str) -> (r: Option<Vec<String>>)
    ensures
        match r {
            Some(words) => shell_words(value@) == Some(words@.map_values(|w: String| w@)),
            None => shell_words(value@).is_none(),
        },
{
    shlex::split(value)
}

/// A character that only a shell would act on.
pub open spec fn is_shell_syntax(c: char) -> bool {
    c == ';' || c == '|' || c == '&' || c == '>' || c == '<' || c == '`' || c == '$' || c == '\n' || c == '\r'
}

pub open spec fn has_shell_syntax(value: Seq<char>) -> bool {
    exists|i: int| 0 <= i < value.len() && is_shell_syntax(#[trigger] value[i])
}

fn contains_shell_syntax(value: &Vec<char>) -> (r: bool)
    ensures
        r == has_shell_syntax(value@),
{
    let mut i: usize = 0;
    while i < value.len()
        invariant
            i <= value.len(),
            forall|k: int| 0 <= k < i ==> !is_shell_syntax(#[trigger] value@[k]),
        decreases value.len() - i,
    {
        let c = value[i];
        if c == ';' || c == '|' || c == '&' || c == '>' || c == '<' || c == '`' || c == '$' || c == '\n' || c == '\r' {
            proof {
                assert(is_shell_syntax(value@[i as int]));
            }
            return true;
        }
        i = i + 1;
    }
    false
}

/// The last piece of a path, split at `/` or `\`.
pub open spec fn last_segment(value: Seq<char>) -> Seq<char>
    decreases value.len(),
{
    if value.len() == 0 {
        value
    } else if value.last() == '/' || value.last() == '\\' {
        Seq::empty()
    } else {
        last_segment(value.drop_last()).push(value.last())
    }
}

fn last_segment_chars(value: &Vec<char>) -> (r: Vec<char>)
    ensures
        r@ == last_segment(value@),
{
    let mut start: usize = value.len();
    proof {
        assert(value@.take(value@.len() as int) =~= value@);
        assert(value@.skip(value@.len() as int) =~= Seq::<char>::empty());
        assert(value@ + Seq::<char>::empty() =~= value@);
    }
    while start > 0 && value[start - 1] != '/' && value[start - 1] != '\\'
        invariant
            start <= value.len(),
            last_segment(value@) == last_segment(value@.take(start as int)) + value@.skip(start as int),
        decreases start,
    {
        proof {
            let t = value@.take(start as int);
            assert(t.drop_last() =~= value@.take(start - 1));
            assert(value@.skip(start - 1) =~= seq![t.last()] + value@.skip(start as int));
            assert(last_segment(t) =~= last_segment(value@.take(start - 1)).push(t.last()));
        }
        start = start - 1;
    }
    proof {
        assert(value@.take(value@.len() as int) =~= value@);
        assert(value@.skip(value@.len() as int) =~= Seq::<char>::empty());
        assert(last_segment(value@.take(start as int)) =~= Seq::<char>::empty());
    }
    let r = crate::text::slice_chars(value, start, value.len());
    proof {
        assert(r@ =~= value@.skip(start as int));
    }
    r
}

/// A shell, by the last piece of its path in any ASCII case.
pub open spec fn is_shell_name(name: Seq<char>) -> bool {
    let l = lower_seq(last_segment(name));
    l == "sh"@ || l == "sh.exe"@ || l == "bash"@ || l == "bash.exe"@ || l == "zsh"@ || l == "zsh.exe"@
        || l == "dash"@ || l == "dash.exe"@ || l == "fish"@ || l == "fish.exe"@ || l == "ksh"@
        || l == "ksh.exe"@ || l == "cmd"@ || l == "cmd.exe"@ || l == "command.com"@
        || l == "powershell"@ || l == "powershell.exe"@ || l == "pwsh"@ || l == "pwsh.exe"@
}

fn is_shell_executable(value: &Vec<char>) -> (r: bool)
    ensures
        r == is_shell_name(value@),
{
    let last = last_segment_chars(value);
    let l = lowercase(&last);
    chars_eq_str(&l, "sh") || chars_eq_str(&l, "sh.exe") || chars_eq_str(&l, "bash") || chars_eq_str(&l, "bash.exe")
        || chars_eq_str(&l, "zsh") || chars_eq_str(&l, "zsh.exe") || chars_eq_str(&l, "dash")
        || chars_eq_str(&l, "dash.exe") || chars_eq_str(&l, "fish") || chars_eq_str(&l, "fish.exe")
        || chars_eq_str(&l, "ksh") || chars_eq_str(&l, "ksh.exe") || chars_eq_str(&l, "cmd")
        || chars_eq_str(&l, "cmd.exe") || chars_eq_str(&l, "command.com") || chars_eq_str(&l, "powershell")
        || chars_eq_str(&l, "powershell.exe") || chars_eq_str(&l, "pwsh") || chars_eq_str(&l, "pwsh.exe")
}

/// An external editor: a program and its arguments, never a shell.
#[derive(Debug, Clone, PartialEq, Eq)]
pub struct EditorCommand {
    executable: String,
    arguments: Vec<String>,
}

/// The editor that a configured value names, if it is acceptable: not blank,
/// free of shell syntax, quoted properly, and not a shell.
pub open spec fn editor_spec(value: Seq<char>) -> Option<(Seq<char>, Seq<Seq<char>>)> {
    if trim(value).len() == 0 || has_shell_syntax(value) {
        None
    } else {
        match shell_words(value) {
            None => None,
            Some(words) => if words.len() == 0 || words[0].len() == 0 || is_shell_name(words[0]) {
                None
            } else {
                Some((words[0], words.drop_first()))
            },
        }
    }
}

/// The editor setting that counts: `VISUAL` unless it is blank, else
/// `EDITOR` unless it is blank.
pub open spec fn chosen_editor(visual: Option<Seq<char>>, editor: Option<Seq<char>>) -> Option<Seq<char>> {
    match visual {
        Some(v) if trim(v).len() > 0 => Some(v),
        _ => match editor {
            Some(e) if trim(e).len() > 0 => Some(e),
            _ => None,
        },
    }
}

fn set_value(value: Option<&str>) -> (r: Option<&str>)
    ensures
        r matches Some(v) ==> value == Some(v) && trim(v@).len() > 0,
        r is None ==> (value matches Some(v) ==> trim(v@).len() == 0),
{
    match value {
        Some(v) => {
            let t = trim_chars(&chars_of(v));
            if t.len() > 0 {
                Some(v)
            } else {
                None
            }
        },
        None => None,
    }
}

impl EditorCommand {
    /// The editor that the `VISUAL` and `EDITOR` settings name, blank
    /// settings skipped; `NotConfigured` when neither names one.
    pub fn from_environment(visual: Option<&str>, editor: Option<&str>) -> (r: Result<Self, EditorError>)
        ensures
            match chosen_editor(
                match visual { Some(v) => Some(v@), None => None },
                match editor { Some(e) => Some(e@), None => None },
            ) {
                None => r == Err::<EditorCommand, EditorError>(EditorError::NotConfigured),
                Some(value) => match editor_spec(value) {
                    None => r == Err::<EditorCommand, EditorError>(EditorError::InvalidCommand),
                    Some((exe, args)) => r matches Ok(c) && c.executable_spec() == exe && c.arguments_spec() == args,
                },
            },
    {
        let chosen = match set_value(visual) {
            Some(v) => Some(v),
            None => set_value(editor),
        };
        match chosen {
            Some(value) => EditorCommand::parse(value),
            None => Err(EditorError::NotConfigured),
        }
    }

    pub closed spec fn executable_spec(&self) -> Seq<char> {
        self.executable@
    }

    pub closed spec fn arguments_spec(&self) -> Seq<Seq<char>> {
        self.arguments@.map_values(|a: String| a@)
    }

    pub fn parse(value: &str) -> (r: Result<Self, EditorError>)
        ensures
            match editor_spec(value@) {
                None => r == Err::<EditorCommand, EditorError>(EditorError::InvalidCommand),
                Some((exe, args)) => r matches Ok(c) && c.executable_spec() == exe && c.arguments_spec() == args,
            },
    {
        let v = chars_of(value);
        let t = trim_chars(&v);
        if t.len() == 0 || contains_shell_syntax(&v) {
            return Err(EditorError::InvalidCommand);
        }
        let words = match split_words(value) {
            Some(w) => w,
            None => {
                return Err(EditorError::InvalidCommand);
            },
        };
        if words.len() == 0 {
            return Err(EditorError::InvalidCommand);
        }
        let exe = chars_of(words[0].as_str());
        if exe.len() == 0 || is_shell_executable(&exe) {
            proof {
                assert(words@.map_values(|w: String| w@)[0] == words@[0]@);
            }
            return Err(EditorError::InvalidCommand);
        }
        let mut arguments: Vec<String> = Vec::new();
        let mut i: usize = 1;
        while i < words.len()
            invariant
                1 <= i <= words.len(),
                arguments@.map_values(|a: String| a@) == words@.map_values(|w: String| w@).subrange(1, i as int),
            decreases words.len() - i,
        {
            let ghost before = arguments@.map_values(|a: String| a@);
            let w = words[i].clone();
            arguments.push(w);
            proof {
                assert(arguments@.map_values(|a: String| a@) =~= before.push(words@[i as int]@));
                assert(arguments@.map_values(|a: String| a@) =~= words@.map_values(|w: String| w@).subrange(1, i + 1));
            }
            i = i + 1;
        }
        proof {
            assert(words@.map_values(|w: String| w@)[0] == words@[0]@);
            assert(words@.map_values(|w: String| w@).subrange(1, words@.len() as int) =~= words@.map_values(|w: String| w@).drop_first());
        }
        Ok(EditorCommand { executable: words[0].clone(), arguments })
    }

    pub fn executable(&self) -> (r: &String)
        ensures
            r@ == self.executable_spec(),
    {
        &self.executable
    }

    pub fn arguments(&self) -> (r: &Vec<String>)
        ensures
            r@.map_values(|a: String| a@) == self.arguments_spec(),
    {
        &self.arguments
    }

    /// The arguments with the file to edit after them.
    pub fn argv_with_path(&self, path: &str) -> (r: Vec<String>)
        ensures
            r@.map_values(|a: String| a@) == self.arguments_spec().push(path@),
    {
        let mut out: Vec<String> = Vec::new();
        let mut i: usize = 0;
        while i < self.arguments.len()
            invariant
                i <= self.arguments.len(),
                out@.map_values(|a: String| a@) == self.arguments@.map_values(|a: String| a@).take(i as int),
            decreases self.arguments.len() - i,
        {
            let ghost before = out@.map_values(|a: String| a@);
            let a = self.arguments[i].clone();
            out.push(a);
            proof {
                assert(out@.map_values(|a: String| a@) =~= before.push(self.arguments@[i as int]@));
                assert(out@.map_values(|a: String| a@) =~= self.arguments@.map_values(|a: String| a@).take(i + 1));
            }
            i = i + 1;
        }
        out.push(path.to_owned());
        proof {
            assert(self.arguments@.map_values(|a: String| a@).take(self.arguments@.len() as int) =~= self.arguments@.map_values(|a: String| a@));
            assert(out@.map_values(|a: String| a@) =~= self.arguments_spec().push(path@));
        }
        out
    }
}


/// The call that undoes an acquiring call.
pub open spec fn undo(step: TerminalStep) -> TerminalStep {
    match step {
        TerminalStep::EnableRaw => TerminalStep::DisableRaw,
        TerminalStep::EnterAlternate => TerminalStep::LeaveAlternate,
        TerminalStep::EnablePaste => TerminalStep::DisablePaste,
        TerminalStep::EnableMouse => TerminalStep::DisableMouse,
        TerminalStep::HideCursor => TerminalStep::ShowCursor,
        other => other,
    }
}

/// Recording one more call result after the results `r0` of earlier calls.
proof fn lemma_record(r0: Seq<Option<TerminalError>>, before: Seq<Option<TerminalError>>, x: Option<TerminalError>)
    requires
        before.len() >= r0.len(),
        before.take(r0.len() as int) == r0,
    ensures
        before.push(x).take(r0.len() as int) == r0,
        before.push(x).skip(r0.len() as int) == before.skip(r0.len() as int).push(x),
        failure_messages(before.push(x).skip(r0.len() as int)) == match x {
            Some(e) => failure_messages(before.skip(r0.len() as int)).push(e.message_spec()),
            None => failure_messages(before.skip(r0.len() as int)),
        },
{
    assert(before.push(x).take(r0.len() as int) =~= before.take(r0.len() as int));
    assert(before.push(x).skip(r0.len() as int) =~= before.skip(r0.len() as int).push(x));
    assert(before.skip(r0.len() as int).push(x).drop_last() =~= before.skip(r0.len() as int));
}

/// Releasing a fully acquired terminal undoes every acquiring call, the last
/// one first; releasing what a failed acquisition held undoes exactly the
/// calls that succeeded, also in reverse.
pub proof fn release_undoes_acquire(mouse: bool, k: int)
    requires
        0 <= k <= acquire_plan(mouse).len(),
    ensures
        release_plan(held_after(mouse, k)) == acquire_plan(mouse).take(k).reverse().map_values(|s: TerminalStep| undo(s)),
        release_plan(nothing_acquired()) == Seq::<TerminalStep>::empty(),
{
    let plan = acquire_plan(mouse);
    let undone = plan.take(k).reverse().map_values(|s: TerminalStep| undo(s));
    if mouse {
        if k == 0 {
            assert(release_plan(held_after(mouse, k)) =~= undone);
        } else if k == 1 {
            assert(release_plan(held_after(mouse, k)) =~= undone);
        } else if k == 2 {
            assert(release_plan(held_after(mouse, k)) =~= undone);
        } else if k == 3 {
            assert(release_plan(held_after(mouse, k)) =~= undone);
        } else if k == 4 {
            assert(release_plan(held_after(mouse, k)) =~= undone);
        } else {
            assert(release_plan(held_after(mouse, k)) =~= undone);
        }
    } else {
        if k == 0 {
            assert(release_plan(held_after(mouse, k)) =~= undone);
        } else if k == 1 {
            assert(release_plan(held_after(mouse, k)) =~= undone);
        } else if k == 2 {
            assert(release_plan(held_after(mouse, k)) =~= undone);
        } else if k == 3 {
            assert(release_plan(held_after(mouse, k)) =~= undone);
        } else {
            assert(release_plan(held_after(mouse, k)) =~= undone);
        }
    }
    assert(release_plan(nothing_acquired()) =~= Seq::<TerminalStep>::empty());
}

} // verus!
