use std::cell::RefCell;
use std::rc::Rc;

use tale::terminal::{EditorCommand, EditorError, TerminalControl, TerminalError, TerminalSession};

#[derive(Clone, Default)]
struct Recorder {
    calls: Rc<RefCell<Vec<&'static str>>>,
    fail: Rc<RefCell<Vec<&'static str>>>,
}

impl Recorder {
    fn call(&mut self, name: &'static str) -> Result<(), TerminalError> {
        self.calls.borrow_mut().push(name);
        if self.fail.borrow().contains(&name) {
            Err(TerminalError::Operation(format!("{name} refused")))
        } else {
            Ok(())
        }
    }
}

impl TerminalControl for Recorder {
    fn enable_raw(&mut self) -> Result<(), TerminalError> { self.call("enable_raw") }
    fn disable_raw(&mut self) -> Result<(), TerminalError> { self.call("disable_raw") }
    fn enter_alternate(&mut self) -> Result<(), TerminalError> { self.call("enter_alternate") }
    fn leave_alternate(&mut self) -> Result<(), TerminalError> { self.call("leave_alternate") }
    fn enable_paste(&mut self) -> Result<(), TerminalError> { self.call("enable_paste") }
    fn disable_paste(&mut self) -> Result<(), TerminalError> { self.call("disable_paste") }
    fn enable_mouse(&mut self) -> Result<(), TerminalError> { self.call("enable_mouse") }
    fn disable_mouse(&mut self) -> Result<(), TerminalError> { self.call("disable_mouse") }
    fn hide_cursor(&mut self) -> Result<(), TerminalError> { self.call("hide_cursor") }
    fn show_cursor(&mut self) -> Result<(), TerminalError> { self.call("show_cursor") }
}

#[test]
fn cleanup_undoes_acquisition_in_reverse() {
    let recorder = Recorder::default();
    let calls = recorder.calls.clone();
    let session = TerminalSession::new_with_mouse(recorder, true);
    assert!(session.is_ok());
    let mut session = session.ok().unwrap();
    assert_eq!(session.cleanup(), Ok(()));
    assert_eq!(
        *calls.borrow(),
        vec![
            "enable_raw", "enter_alternate", "enable_paste", "enable_mouse", "hide_cursor",
            "show_cursor", "disable_mouse", "disable_paste", "leave_alternate", "disable_raw"
        ]
    );
    assert_eq!(session.cleanup(), Ok(()));
    assert_eq!(calls.borrow().len(), 10);
    assert_eq!(
        session.suspend(),
        Err(TerminalError::Operation("terminal session has already been cleaned up".to_owned()))
    );
}

#[test]
fn failed_acquisition_releases_what_was_taken() {
    let recorder = Recorder::default();
    recorder.fail.borrow_mut().push("enable_paste");
    let calls = recorder.calls.clone();
    let session = TerminalSession::new(recorder);
    assert_eq!(
        session.err(),
        Some(TerminalError::Operation("enable_paste refused".to_owned()))
    );
    assert_eq!(
        *calls.borrow(),
        vec!["enable_raw", "enter_alternate", "enable_paste", "leave_alternate", "disable_raw"]
    );
}

#[test]
fn cleanup_failures_are_remembered() {
    let recorder = Recorder::default();
    let fail = recorder.fail.clone();
    let mut session = TerminalSession::new(recorder).ok().unwrap();
    fail.borrow_mut().push("show_cursor");
    fail.borrow_mut().push("disable_raw");
    let expected = TerminalError::Cleanup(
        "terminal operation failed: show_cursor refused; terminal operation failed: disable_raw refused".to_owned(),
    );
    assert_eq!(session.cleanup(), Err(expected.clone()));
    assert_eq!(session.cleanup_error(), Some(&expected));
    assert_eq!(session.cleanup(), Err(expected));
}

#[test]
fn suspend_and_resume_round_trip() {
    let recorder = Recorder::default();
    let calls = recorder.calls.clone();
    let mut session = TerminalSession::new(recorder).ok().unwrap();
    assert_eq!(session.suspend(), Ok(()));
    assert_eq!(session.resume(false), Ok(()));
    assert_eq!(session.resume(false), Ok(()));
    assert_eq!(calls.borrow().len(), 4 + 4 + 4);
}

#[test]
fn editor_commands_refuse_shells_and_shell_syntax() {
    let editor = EditorCommand::parse("code --wait 'my file'");
    assert!(editor.is_ok());
    if let Ok(editor) = editor {
        assert_eq!(editor.executable(), "code");
        assert_eq!(editor.arguments(), &vec!["--wait".to_owned(), "my file".to_owned()]);
        assert_eq!(
            editor.argv_with_path("/tmp/policy.hujson"),
            vec!["--wait".to_owned(), "my file".to_owned(), "/tmp/policy.hujson".to_owned()]
        );
    }
    assert_eq!(EditorCommand::parse("vim; rm -rf /").err(), Some(EditorError::InvalidCommand));
    assert_eq!(EditorCommand::parse("/bin/BASH -c vim").err(), Some(EditorError::InvalidCommand));
    assert_eq!(EditorCommand::parse("   ").err(), Some(EditorError::InvalidCommand));
    assert_eq!(EditorCommand::parse("vim 'unclosed").err(), Some(EditorError::InvalidCommand));
    assert_eq!(EditorError::Spawn.message(), "the external editor could not be started");
}

#[test]
fn the_editor_comes_from_visual_then_editor() {
    let chosen = EditorCommand::from_environment(Some("nano"), Some("vim")).expect("visual");
    assert_eq!(chosen.executable(), "nano");
    let chosen = EditorCommand::from_environment(Some("  "), Some("vim -n")).expect("editor");
    assert_eq!(chosen.executable(), "vim");
    assert_eq!(chosen.arguments(), &vec!["-n".to_owned()]);
    let chosen = EditorCommand::from_environment(None, Some("emacs")).expect("editor");
    assert_eq!(chosen.executable(), "emacs");
    assert_eq!(EditorCommand::from_environment(None, None).err(), Some(EditorError::NotConfigured));
    assert_eq!(EditorCommand::from_environment(Some(""), Some(" \t")).err(), Some(EditorError::NotConfigured));
    assert_eq!(EditorCommand::from_environment(Some("sh -c vim"), Some("vim")).err(), Some(EditorError::InvalidCommand));
}

#[test]
fn failed_resumption_gives_back_what_it_took_and_the_failing_error() {
    let recorder = Recorder::default();
    let calls = recorder.calls.clone();
    let fail = recorder.fail.clone();
    let mut session = TerminalSession::new_with_mouse(recorder, true).ok().unwrap();
    fail.borrow_mut().push("leave_alternate");
    assert_eq!(
        session.suspend(),
        Err(TerminalError::Cleanup("terminal operation failed: leave_alternate refused".to_owned()))
    );
    fail.borrow_mut().clear();
    fail.borrow_mut().push("enable_mouse");
    calls.borrow_mut().clear();
    assert_eq!(session.resume(true), Err(TerminalError::Operation("enable_mouse refused".to_owned())));
    assert_eq!(
        *calls.borrow(),
        vec!["enable_raw", "enter_alternate", "enable_paste", "enable_mouse", "disable_paste", "leave_alternate", "disable_raw"]
    );
    fail.borrow_mut().clear();
    assert_eq!(session.resume(true), Ok(()));
}

#[test]
fn a_failed_start_joins_the_cleanup_failure_to_the_step_error() {
    let recorder = Recorder::default();
    recorder.fail.borrow_mut().push("enable_paste");
    recorder.fail.borrow_mut().push("leave_alternate");
    let calls = recorder.calls.clone();
    let session = TerminalSession::new(recorder);
    assert_eq!(
        session.err(),
        Some(TerminalError::Operation(
            "terminal operation failed: enable_paste refused; cleanup also failed: terminal cleanup failed: terminal operation failed: leave_alternate refused"
                .to_owned()
        ))
    );
    assert_eq!(
        *calls.borrow(),
        vec!["enable_raw", "enter_alternate", "enable_paste", "leave_alternate", "disable_raw"]
    );
}

#[test]
fn starting_an_idle_session_that_fails_leaves_it_cleaned_up() {
    let recorder = Recorder::default();
    recorder.fail.borrow_mut().push("hide_cursor");
    let calls = recorder.calls.clone();
    let mut session = TerminalSession::idle(recorder);
    assert!(calls.borrow().is_empty());
    assert_eq!(
        session.start(true),
        Err(TerminalError::Operation("hide_cursor refused".to_owned()))
    );
    assert_eq!(
        *calls.borrow(),
        vec![
            "enable_raw", "enter_alternate", "enable_paste", "enable_mouse", "hide_cursor",
            "disable_mouse", "disable_paste", "leave_alternate", "disable_raw"
        ]
    );
    assert!(session.cleanup_error().is_none());
    assert_eq!(session.cleanup(), Ok(()));
    assert_eq!(calls.borrow().len(), 9);
    assert_eq!(
        tale::terminal::acquire_failure(
            TerminalError::Operation("x".to_owned()),
            Err(TerminalError::Cleanup("y".to_owned()))
        ),
        TerminalError::Operation(
            "terminal operation failed: x; cleanup also failed: terminal cleanup failed: y".to_owned()
        )
    );
}
