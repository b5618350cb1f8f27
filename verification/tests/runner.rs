use codie::output::Output;
use codie::runner::{
    image_tag, container_profile, Action, Event, ExecutorError, RunSpec, Session,
    UnrecognizedContainer,
};

fn spec_for(image: &str) -> RunSpec {
    RunSpec {
        code_path: "/tmp/run.py",
        image_name: image.to_string(),
        dockerfile: "FROM x\n".to_string(),
    }
}

#[test]
fn image_tag_is_namespaced() {
    assert_eq!(image_tag(&spec_for("python3.9-scipy")), "codie/python3.9-scipy");
}

#[test]
fn profile_is_locked_down() {
    let p = container_profile();
    assert_eq!(p.user, "65534:65534");
    assert!(p.capabilities.is_empty());
    assert!(!p.privileged);
    assert_eq!(p.network_mode, "none");
    assert_eq!(p.working_dir, "/tmp");
    assert_eq!(p.stop_signal, "SIGKILL");
    assert_eq!(p.stop_timeout_secs, 0);
}

#[test]
fn unrecognized_container_message() {
    assert_eq!(UnrecognizedContainer.message(), "UnrecognizedContainer");
}

#[test]
fn session_happy_path() {
    let (mut s, a) = Session::new(1900);
    assert_eq!(a, Action::CreateContainer);
    assert_eq!(s.step(Event::Created), Action::CopyCode);
    assert_eq!(s.step(Event::Copied), Action::StartContainer);
    assert_eq!(s.step(Event::Started), Action::ReadChunk);
    assert_eq!(s.step(Event::Chunk(b"Hello, World!\n".to_vec())), Action::ReadChunk);
    assert_eq!(s.step(Event::StreamEnd), Action::WaitExit);
    assert_eq!(s.step(Event::Exited(0)), Action::RemoveContainer);
    assert_eq!(s.step(Event::Removed), Action::Finish);
    let out = s.finish().unwrap();
    assert_eq!(out, Output { status: 0, tty: "Hello, World!\n".to_string() });
    assert!(out.success());
}

#[test]
fn session_missing_image() {
    let (mut s, _) = Session::new(1900);
    assert_eq!(
        s.step(Event::CreateFailed { image_missing: true }),
        Action::Finish,
    );
    assert_eq!(s.finish(), Err(ExecutorError::UnrecognizedImage));
}

#[test]
fn session_create_transport_failure() {
    let (mut s, _) = Session::new(1900);
    assert_eq!(
        s.step(Event::CreateFailed { image_missing: false }),
        Action::Finish,
    );
    assert_eq!(s.finish(), Err(ExecutorError::TransportFailure));
}

#[test]
fn session_timeout_forces_stop_then_drains() {
    let (mut s, _) = Session::new(1900);
    s.step(Event::Created);
    s.step(Event::Copied);
    s.step(Event::Started);
    assert_eq!(s.step(Event::TimedOut), Action::ForceStop);
    assert_eq!(s.step(Event::Stopped), Action::WaitExit);
    // 137 is what SIGKILL leaves behind
    assert_eq!(s.step(Event::Exited(137)), Action::ReadChunk);
    assert_eq!(s.step(Event::Chunk(b"late".to_vec())), Action::ReadChunk);
    assert_eq!(s.step(Event::StreamEnd), Action::RemoveContainer);
    assert_eq!(s.step(Event::Removed), Action::Finish);
    let out = s.finish().unwrap();
    assert_eq!(out.status, 137);
    assert!(!out.success());
    assert_eq!(out.tty, "late");
}

#[test]
fn session_overflow_truncates_and_stops() {
    let (mut s, _) = Session::new(5);
    s.step(Event::Created);
    s.step(Event::Copied);
    s.step(Event::Started);
    assert_eq!(s.step(Event::Chunk(b"abc".to_vec())), Action::ReadChunk);
    // three more codepoints would fit, four do not
    assert_eq!(s.step(Event::Chunk(b"defg".to_vec())), Action::ForceStop);
    assert_eq!(s.step(Event::Stopped), Action::WaitExit);
    assert_eq!(s.step(Event::Exited(137)), Action::RemoveContainer);
    assert_eq!(s.step(Event::Removed), Action::Finish);
    let out = s.finish().unwrap();
    assert_eq!(out.tty, "abc...");
    assert!(out.tty.chars().count() <= 5 + 3);
    assert!(out.tty.ends_with("..."));
}

#[test]
fn session_preserves_chunk_order() {
    let (mut s, _) = Session::new(1900);
    s.step(Event::Created);
    s.step(Event::Copied);
    s.step(Event::Started);
    s.step(Event::Chunk(b"0\n".to_vec()));
    s.step(Event::Chunk(b"1\n".to_vec()));
    s.step(Event::Chunk(b"2\n".to_vec()));
    s.step(Event::StreamEnd);
    s.step(Event::Exited(0));
    s.step(Event::Removed);
    let out = s.finish().unwrap();
    assert_eq!(out.tty, "0\n1\n2\n");
}

#[test]
fn session_removes_after_copy_failure() {
    let (mut s, _) = Session::new(1900);
    s.step(Event::Created);
    assert_eq!(s.step(Event::CopyFailed), Action::RemoveContainer);
    assert_eq!(s.step(Event::Removed), Action::Finish);
    assert_eq!(s.finish(), Err(ExecutorError::TransportFailure));
}

#[test]
fn session_removes_after_start_failure() {
    let (mut s, _) = Session::new(1900);
    s.step(Event::Created);
    s.step(Event::Copied);
    assert_eq!(s.step(Event::StartFailed), Action::RemoveContainer);
    assert_eq!(s.step(Event::Removed), Action::Finish);
    assert_eq!(s.finish(), Err(ExecutorError::TransportFailure));
}

#[test]
fn session_remove_failure_is_transport() {
    let (mut s, _) = Session::new(1900);
    s.step(Event::Created);
    s.step(Event::Copied);
    s.step(Event::Started);
    s.step(Event::StreamEnd);
    s.step(Event::Exited(0));
    assert_eq!(s.step(Event::RemoveFailed), Action::Finish);
    assert_eq!(s.finish(), Err(ExecutorError::TransportFailure));
}

#[test]
fn session_stop_failure_aborts() {
    let (mut s, _) = Session::new(1900);
    s.step(Event::Created);
    s.step(Event::Copied);
    s.step(Event::Started);
    s.step(Event::TimedOut);
    assert_eq!(s.step(Event::StopFailed), Action::Abort);
}

#[test]
fn session_timeout_during_wait() {
    let (mut s, _) = Session::new(1900);
    s.step(Event::Created);
    s.step(Event::Copied);
    s.step(Event::Started);
    s.step(Event::StreamEnd);
    assert_eq!(s.step(Event::TimedOut), Action::ForceStop);
    s.step(Event::Stopped);
    s.step(Event::Exited(137));
    s.step(Event::StreamEnd);
    s.step(Event::Removed);
    assert_eq!(s.finish().unwrap().status, 137);
}

#[test]
fn session_invalid_chunk_counts_bytes() {
    // an invalid chunk is charged its byte length: 4 bytes over a budget
    // of 3 overflow at once
    let (mut s, _) = Session::new(3);
    s.step(Event::Created);
    s.step(Event::Copied);
    s.step(Event::Started);
    assert_eq!(s.step(Event::Chunk(vec![0xff, 0xfe, 0x41, 0x42])), Action::ForceStop);
    s.step(Event::Stopped);
    s.step(Event::Exited(137));
    s.step(Event::Removed);
    let out = s.finish().unwrap();
    assert_eq!(out.tty, "...");
}
