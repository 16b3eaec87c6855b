use arrpc_rs::decimal::to_decimal;
use arrpc_rs::ipc::server::{
    bind_directory, candidate_path, next_bind_step, BindOutcome, BindStep, IpcServer, SessionState,
    CANDIDATES,
};

fn some(s: &str) -> Option<String> {
    Some(s.to_string())
}

fn probe(outcomes: &[BindOutcome; 10]) -> BindStep {
    let mut index = 0u8;
    loop {
        match next_bind_step(index, outcomes[index as usize]) {
            BindStep::Try(next) => index = next,
            step => return step,
        }
    }
}

#[test]
fn directory_is_the_first_variable_that_is_set() {
    assert_eq!(bind_directory(some("/run/user/1"), some("/a"), some("/b"), some("/c")), "/run/user/1");
    assert_eq!(bind_directory(None, some("/a"), some("/b"), some("/c")), "/a");
    assert_eq!(bind_directory(None, None, some("/b"), some("/c")), "/b");
    assert_eq!(bind_directory(None, None, None, some("/c")), "/c");
    assert_eq!(bind_directory(some("/x"), None, None, None), "/x");
}

#[test]
fn directory_defaults_to_tmp() {
    assert_eq!(bind_directory(None, None, None, None), "/tmp");
}

#[test]
fn variable_that_is_set_to_nothing_still_counts() {
    assert_eq!(bind_directory(some(""), some("/a"), None, None), "");
}

#[test]
fn candidate_paths_are_numbered() {
    assert_eq!(candidate_path("/tmp", 0), "/tmp/discord-ipc-0");
    assert_eq!(candidate_path("/tmp", 9), "/tmp/discord-ipc-9");
    assert_eq!(candidate_path("/run/user/1000", 3), "/run/user/1000/discord-ipc-3");
    assert_eq!(candidate_path("", 5), "/discord-ipc-5");
    assert_eq!(candidate_path("/tmp", 10), "/tmp/discord-ipc-10");
    assert_eq!(candidate_path("/tmp", 255), "/tmp/discord-ipc-255");
}

#[test]
fn there_are_ten_candidates() {
    assert_eq!(CANDIDATES, 10);
}

#[test]
fn bind_fails_when_all_ten_are_in_use() {
    assert_eq!(probe(&[BindOutcome::AddrInUse; 10]), BindStep::Exhausted);
}

#[test]
fn bind_takes_the_first_free_candidate() {
    let mut outcomes = [BindOutcome::Bound; 10];
    outcomes[0] = BindOutcome::AddrInUse;
    outcomes[1] = BindOutcome::AddrInUse;
    outcomes[2] = BindOutcome::AddrInUse;
    assert_eq!(probe(&outcomes), BindStep::Serve(3));
    assert_eq!(probe(&[BindOutcome::Bound; 10]), BindStep::Serve(0));
    let mut outcomes = [BindOutcome::AddrInUse; 10];
    outcomes[9] = BindOutcome::Bound;
    assert_eq!(probe(&outcomes), BindStep::Serve(9));
}

#[test]
fn any_other_failure_stops_the_probing() {
    let mut outcomes = [BindOutcome::Bound; 10];
    outcomes[0] = BindOutcome::AddrInUse;
    outcomes[1] = BindOutcome::Failed;
    assert_eq!(probe(&outcomes), BindStep::Abort(1));
    assert_eq!(probe(&[BindOutcome::Failed; 10]), BindStep::Abort(0));
}

#[test]
fn each_outcome_has_its_step() {
    for index in 0..10u8 {
        assert_eq!(next_bind_step(index, BindOutcome::Bound), BindStep::Serve(index));
        assert_eq!(next_bind_step(index, BindOutcome::Failed), BindStep::Abort(index));
        let next = if index < 9 { BindStep::Try(index + 1) } else { BindStep::Exhausted };
        assert_eq!(next_bind_step(index, BindOutcome::AddrInUse), next);
    }
    assert_eq!(next_bind_step(255, BindOutcome::AddrInUse), BindStep::Exhausted);
    assert_eq!(next_bind_step(200, BindOutcome::Bound), BindStep::Serve(200));
}

#[test]
fn session_ids_rise_from_zero_and_are_never_given_twice() {
    let mut server: IpcServer<&str> = IpcServer::new("/tmp/discord-ipc-0".to_string());
    assert_eq!(server.path(), "/tmp/discord-ipc-0");
    let first = server.accept("a").unwrap();
    let second = server.accept("b").unwrap();
    assert_eq!(first.socket_id(), 0);
    assert_eq!(second.socket_id(), 1);
    assert_eq!(first.state(), SessionState::AwaitingHandshake);
    assert_eq!(server.remove(0), Some("a"));
    assert_eq!(server.remove(1), Some("b"));
    let third = server.accept("c").unwrap();
    assert_eq!(third.socket_id(), 2);
    assert_eq!(server.path(), "/tmp/discord-ipc-0");
}

#[test]
fn handle_of_a_session_is_found_under_its_id() {
    let mut server: IpcServer<String> = IpcServer::new(String::new());
    assert_eq!(server.sender(0), None);
    server.accept("zero".to_string());
    server.accept("one".to_string());
    assert_eq!(server.sender(0), Some(&"zero".to_string()));
    assert_eq!(server.sender(1), Some(&"one".to_string()));
    assert_eq!(server.sender(2), None);
    assert_eq!(server.remove(0), Some("zero".to_string()));
    assert_eq!(server.sender(0), None);
    assert_eq!(server.remove(0), None);
    assert_eq!(server.sender(1), Some(&"one".to_string()));
}

#[test]
fn numbers_are_written_in_decimal() {
    assert_eq!(to_decimal(0), "0");
    assert_eq!(to_decimal(7), "7");
    assert_eq!(to_decimal(9), "9");
    assert_eq!(to_decimal(10), "10");
    assert_eq!(to_decimal(42), "42");
    assert_eq!(to_decimal(100), "100");
    assert_eq!(to_decimal(1234567890), "1234567890");
    assert_eq!(to_decimal(usize::MAX), usize::MAX.to_string());
    for n in 0..2000usize {
        assert_eq!(to_decimal(n), n.to_string());
    }
}
