use rkvm::io_error::{ErrorKind, IoError};
use rkvm::session::{
    AuthReply, AuthStatus, AuthStep, Authentication, ClientAction, ClientError, ClientEvent,
    DeviceTask, Heartbeat, Version,
};
use rkvm::update::{DeviceCommand, Update};

const SERVER: Version = Version { number: 6 };

fn failure() -> IoError {
    IoError::new(ErrorKind::Other, "failure")
}

fn advanced_to(step: AuthStep, verified: bool) -> Authentication {
    let mut authentication = Authentication::new(SERVER);
    while authentication.step() != step {
        let reply = match authentication.step() {
            AuthStep::ReceiveVersion => AuthReply::Version(Ok(SERVER)),
            AuthStep::MakeChallenge => AuthReply::Challenge(Ok(())),
            AuthStep::Verify => AuthReply::Response(Ok(verified)),
            AuthStep::Done => panic!("the step does not come"),
            _ => AuthReply::Finished(Ok(())),
        };
        authentication.advance(reply).unwrap();
    }
    authentication
}

#[test]
fn a_client_authenticates_step_by_step() {
    let mut authentication = Authentication::new(SERVER);
    let steps = [
        (AuthReply::Finished(Ok(())), AuthStep::SendVersion),
        (AuthReply::Finished(Ok(())), AuthStep::ReceiveVersion),
        (AuthReply::Version(Ok(SERVER)), AuthStep::MakeChallenge),
        (AuthReply::Challenge(Ok(())), AuthStep::SendChallenge),
        (AuthReply::Finished(Ok(())), AuthStep::Verify),
        (
            AuthReply::Response(Ok(true)),
            AuthStep::SendStatus {
                status: AuthStatus::Passed,
            },
        ),
        (AuthReply::Finished(Ok(())), AuthStep::Done),
    ];
    assert_eq!(authentication.step(), AuthStep::Encrypt);
    for (reply, next) in steps {
        assert_eq!(authentication.advance(reply).unwrap(), next);
        assert_eq!(authentication.step(), next);
    }
}

#[test]
fn a_wrong_password_is_answered_before_the_client_is_turned_away() {
    let status = AuthStep::SendStatus {
        status: AuthStatus::Failed,
    };
    let mut authentication = advanced_to(status, false);
    let err = authentication
        .advance(AuthReply::Finished(Ok(())))
        .unwrap_err();
    assert!(matches!(err, ClientError::Auth));
    assert_eq!(err.message(), "Invalid password");
}

#[test]
fn another_version_is_turned_away() {
    let client = Version { number: 5 };
    let err = advanced_to(AuthStep::ReceiveVersion, true)
        .advance(AuthReply::Version(Ok(client)))
        .unwrap_err();
    assert!(matches!(
        err,
        ClientError::Version {
            server: SERVER,
            client: Version { number: 5 }
        }
    ));
    assert_eq!(
        err.message(),
        "Incompatible client version (got 5, expected 6)"
    );
}

#[test]
fn failures_of_steps_turn_the_client_away() {
    let io = [
        (AuthStep::Encrypt, AuthReply::Finished(Err(failure()))),
        (AuthStep::SendVersion, AuthReply::Finished(Err(failure()))),
        (AuthStep::ReceiveVersion, AuthReply::Version(Err(failure()))),
        (AuthStep::SendChallenge, AuthReply::Finished(Err(failure()))),
        (AuthStep::Verify, AuthReply::Response(Err(failure()))),
        (
            AuthStep::SendStatus {
                status: AuthStatus::Passed,
            },
            AuthReply::Finished(Err(failure())),
        ),
    ];
    for (step, reply) in io {
        let err = advanced_to(step, true).advance(reply).unwrap_err();
        assert!(matches!(err, ClientError::Io(_)));
        assert_eq!(err.message(), "failure");
    }
    let err = advanced_to(AuthStep::MakeChallenge, true)
        .advance(AuthReply::Challenge(Err(failure())))
        .unwrap_err();
    assert!(matches!(err, ClientError::Rand(_)));
    assert_eq!(err.message(), "failure");
}

fn update(id: usize) -> Update {
    Update::DestroyDevice { id }
}

#[test]
fn a_client_shows_that_it_is_alive() {
    let mut heartbeat = Heartbeat::new(100, 1000, 2000);
    assert!(!heartbeat.is_waiting());
    assert_eq!(heartbeat.deadline(), 1100);
    assert!(matches!(
        heartbeat.on_event(ClientEvent::Time, 1099),
        Ok(ClientAction::Wait)
    ));
    assert!(matches!(
        heartbeat.on_event(ClientEvent::Time, 1100),
        Ok(ClientAction::WritePing)
    ));
    heartbeat.wrote_ping(1150);
    assert!(heartbeat.is_waiting());
    assert_eq!(heartbeat.deadline(), 3150);
    assert!(matches!(
        heartbeat.on_event(ClientEvent::Update(Some(update(7))), 1200),
        Ok(ClientAction::WriteUpdate(Update::DestroyDevice { id: 7 }))
    ));
    heartbeat.wrote_update(1210);
    assert!(heartbeat.is_waiting());
    assert!(matches!(
        heartbeat.on_event(ClientEvent::Time, 2500),
        Ok(ClientAction::Wait)
    ));
    assert!(matches!(
        heartbeat.on_event(ClientEvent::Pong(Some(Ok(()))), 2600),
        Ok(ClientAction::Wait)
    ));
    assert!(!heartbeat.is_waiting());
    assert_eq!(heartbeat.deadline(), 2210);
    assert!(matches!(
        heartbeat.on_event(ClientEvent::Pong(Some(Ok(()))), 2601),
        Ok(ClientAction::Wait)
    ));
    assert!(!heartbeat.is_waiting());
    assert!(matches!(
        heartbeat.on_event(ClientEvent::Update(None), 2602),
        Ok(ClientAction::Close)
    ));
}

#[test]
fn updates_put_off_the_next_ping() {
    let mut heartbeat = Heartbeat::new(0, 1000, 2000);
    for (now, id) in [(900, 1), (1800, 2), (2700, 3)] {
        assert!(matches!(
            heartbeat.on_event(ClientEvent::Update(Some(update(id))), now),
            Ok(ClientAction::WriteUpdate(Update::DestroyDevice { id: written })) if written == id
        ));
        heartbeat.wrote_update(now);
        assert!(matches!(
            heartbeat.on_event(ClientEvent::Time, now + 999),
            Ok(ClientAction::Wait)
        ));
    }
    assert!(matches!(
        heartbeat.on_event(ClientEvent::Time, 3700),
        Ok(ClientAction::WritePing)
    ));
}

#[test]
fn a_silent_client_is_given_up() {
    let mut heartbeat = Heartbeat::new(0, 1000, 2000);
    heartbeat.on_event(ClientEvent::Time, 1000).unwrap();
    heartbeat.wrote_ping(1000);
    heartbeat.wrote_update(2500);
    assert!(matches!(
        heartbeat.on_event(ClientEvent::Time, 2999),
        Ok(ClientAction::Wait)
    ));
    match heartbeat.on_event(ClientEvent::Time, 3000) {
        Err(ClientError::Io(err)) => {
            assert_eq!(err.kind, ErrorKind::TimedOut);
            assert_eq!(err.message, "Pong timed out");
        }
        other => panic!("unexpected {:?}", other),
    }
    match heartbeat.on_event(ClientEvent::Pong(None), 3000) {
        Err(ClientError::Io(err)) => {
            assert_eq!(err.kind, ErrorKind::BrokenPipe);
            assert_eq!(err.message, "Pong reader closed");
        }
        other => panic!("unexpected {:?}", other),
    }
    let err = heartbeat
        .on_event(ClientEvent::Pong(Some(Err(failure()))), 3000)
        .unwrap_err();
    assert_eq!(err.message(), "failure");
}

#[test]
fn a_device_task_waits_to_be_reset_after_lost_events() {
    let mut task = DeviceTask::new();
    assert!(task.reads_frames());
    assert!(task.on_frame(false, false, true));
    assert!(task.reads_frames());
    assert!(task.on_frame(true, false, true));
    assert!(!task.reads_frames());
    assert!(task.on_command(Some(&DeviceCommand::Events(vec![])), true));
    assert!(!task.reads_frames());
    assert!(task.on_command(Some(&DeviceCommand::Reset), true));
    assert!(task.reads_frames());
}

#[test]
fn a_device_task_ends_with_its_device_and_its_server() {
    assert!(!DeviceTask::new().on_frame(false, true, true));
    assert!(!DeviceTask::new().on_frame(false, false, false));
    assert!(!DeviceTask::new().on_command(None, true));
    assert!(!DeviceTask::new().on_command(Some(&DeviceCommand::Reset), false));
}
