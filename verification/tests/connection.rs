//! Connections as their callers control them: shutdown, admission, observation.

use http::Request;
use std::time::{Duration, Instant};
use vakya::body::pipe::{TakeError, Wait};
use vakya::client::admission::{Gate, SendError, SubmitError};
use vakya::client::response::{PendingResponse, ResponseEvent, UploadControl};
use vakya::connection::{driven, AbortWait, ConnectionControl};
use vakya::error::{Error, ErrorKind};

#[test]
fn shutdown_wakes_everybody_and_keeps_the_earliest_deadline() {
    let mut control = ConnectionControl::<&str>::new();
    assert!(!control.stopping());
    assert!(matches!(control.abort_requested("driver"), AbortWait::Pending));
    assert_eq!(control.stopped("idle"), Wait::Pending);
    control.admission_waker("sender");
    let now = Instant::now();
    let later = now + Duration::from_secs(2);
    let woken = control.graceful_shutdown_with_deadline(later);
    assert_eq!(woken.driver, Some("driver"));
    assert_eq!(woken.idle, Some("idle"));
    assert_eq!(woken.admission, Some("sender"));
    assert!(control.stopping());
    assert_eq!(control.stopped("idle"), Wait::Ready(()));
    let sooner = now + Duration::from_secs(1);
    control.graceful_shutdown_with_deadline(sooner);
    control.graceful_shutdown_with_deadline(later);
    control.graceful_shutdown();
    assert!(matches!(control.abort_requested("driver"), AbortWait::At(at) if at == sooner));
    assert!(!control.abort_changed(&sooner, "driver"));
    assert!(control.abort_changed(&later, "driver"));
    let woken = control.abort();
    assert_eq!(woken.driver, Some("driver"));
    assert!(control.abort_changed(&sooner, "driver"));
    assert!(matches!(control.abort_requested("driver"), AbortWait::Now));
    assert_eq!(control.released().driver, Some("driver"));
}

#[test]
fn a_driver_that_went_away_lets_nothing_in() {
    let mut control = ConnectionControl::<()>::new();
    control.released();
    assert!(control.stopping());
    assert!(matches!(control.abort_requested(()), AbortWait::Pending));
}

#[test]
fn shutdown_replaces_success_and_cancellation_only() {
    assert_eq!(driven(Ok(1), None).unwrap(), 1);
    let stopped = driven(Ok(1), Some(ErrorKind::Timeout)).unwrap_err();
    assert_eq!(stopped.kind(), ErrorKind::Timeout);
    assert_eq!(stopped.context, "connection shutdown requested");
    let canceled = Err(Error::new(ErrorKind::Canceled, "stopped"));
    let canceled = driven::<()>(canceled, Some(ErrorKind::Closed)).unwrap_err();
    assert_eq!(canceled.kind(), ErrorKind::Closed);
    let failed = Err(Error::new(ErrorKind::Io, "failed"));
    assert_eq!(driven::<()>(failed, Some(ErrorKind::Closed)).unwrap_err().kind(), ErrorKind::Io);
}

fn reserved(gate: &mut Gate<u32, &'static str>) {
    assert!(matches!(gate.reserve(false, false, "owner"), Wait::Ready(Ok(()))));
}

#[test]
fn a_waiter_goes_before_newcomers() {
    let mut gate = Gate::<u32, &str>::new();
    reserved(&mut gate);
    assert!(matches!(gate.reserve(false, false, "waiter"), Wait::Pending));
    let Wait::Ready(Err(error)) = gate.reserve(false, false, "newcomer") else {
        panic!("a second waiter was let in")
    };
    assert_eq!(error.kind(), ErrorKind::Limit);
    assert!(matches!(gate.next(false, "driver"), Wait::Pending));
    assert_eq!(gate.send(7, false).unwrap(), Some("driver"));
    let Wait::Ready(Some(7)) = gate.next(false, "driver") else { panic!("job lost") };
    assert_eq!(gate.release(), (Some("waiter"), None));
    // The waiter was woken and has not come yet.
    assert!(matches!(gate.reserve(false, false, "newcomer"), Wait::Ready(Err(_))));
    assert!(matches!(gate.reserve(true, false, "waiter"), Wait::Ready(Ok(()))));
    assert_eq!(gate.release(), (None, None));
    reserved(&mut gate);
}

#[test]
fn a_waiter_that_leaves_frees_its_place() {
    let mut gate = Gate::<u32, &str>::new();
    reserved(&mut gate);
    assert!(matches!(gate.reserve(false, false, "waiter"), Wait::Pending));
    gate.leave();
    assert!(matches!(gate.reserve(false, false, "second"), Wait::Pending));
    gate.release();
    gate.leave();
    reserved(&mut gate);
}

#[test]
fn stopping_and_closing_give_requests_back() {
    let mut gate = Gate::<u32, &str>::new();
    reserved(&mut gate);
    let (job, error) = gate.send(3, true).unwrap_err();
    assert_eq!(job, 3);
    assert_eq!(error.kind(), ErrorKind::Closed);
    assert!(gate.send(3, false).is_ok());
    assert_eq!(gate.close(), (None, Some(3)));
    assert!(matches!(gate.reserve(false, false, "late"), Wait::Ready(Err(_))));
    assert!(matches!(gate.next(false, "driver"), Wait::Ready(None)));
    let mut stopping = Gate::<u32, &str>::new();
    assert!(matches!(stopping.reserve(false, true, "late"), Wait::Ready(Err(_))));
}

#[test]
fn the_driver_ends_behind_the_last_sender() {
    let mut gate = Gate::<u32, &str>::new();
    gate.sender_cloned();
    assert!(matches!(gate.next(false, "driver"), Wait::Pending));
    assert_eq!(gate.sender_dropped(), Some("driver"));
    assert!(matches!(gate.next(false, "driver"), Wait::Pending));
    reserved(&mut gate);
    assert_eq!(gate.sender_dropped(), Some("driver"));
    // A permit may still bring a request.
    assert!(matches!(gate.next(false, "driver"), Wait::Pending));
    gate.send(1, false).unwrap();
    assert!(matches!(gate.next(true, "driver"), Wait::Ready(Some(1))));
    gate.release();
    assert!(matches!(gate.next(false, "driver"), Wait::Ready(None)));
}

#[test]
fn refused_requests_are_recovered() {
    let error = Error::new(ErrorKind::Closed, "connection closed");
    let refused = SubmitError::new(Request::new("body"), error);
    assert_eq!(refused.error().kind(), ErrorKind::Closed);
    let refused = SendError::Submission(refused);
    assert_eq!(refused.error().kind(), ErrorKind::Closed);
    let SendError::Submission(refused) = refused else { panic!("changed") };
    let (request, error) = refused.into_parts();
    assert_eq!(*request.body(), "body");
    assert_eq!(error.context, "connection closed");
    let failed = SendError::<()>::Exchange(Error::new(ErrorKind::Io, "failed"));
    assert_eq!(failed.error().kind(), ErrorKind::Io);
}

type Taken = Result<Option<ResponseEvent<u16, u16>>, TakeError<Error>>;

#[test]
fn one_final_response_follows_informational_ones() {
    let mut pending = PendingResponse::new();
    assert!(pending.cancels());
    let event = pending.next_event(Taken::Ok(Some(ResponseEvent::Informational(103))));
    assert!(matches!(event, Ok(Some(ResponseEvent::Informational(103)))));
    assert!(PendingResponse::response(event).is_none());
    let event = pending.next_event(Taken::Ok(Some(ResponseEvent::Final(200))));
    let Some(Ok(200)) = PendingResponse::response(event) else { panic!("response lost") };
    assert!(!pending.cancels());
    let event = pending.next_event(Taken::Ok(Some(ResponseEvent::Final(201))));
    assert!(matches!(event, Ok(None)));
    let Some(Err(error)) = PendingResponse::response(event) else { panic!("second response") };
    assert_eq!(error.context, "final response already consumed");
}

#[test]
fn a_driver_that_fails_or_goes_away_ends_observation() {
    let mut failed = PendingResponse::new();
    let cause = TakeError::Failed(Error::new(ErrorKind::Io, "failed"));
    assert_eq!(failed.next_event(Taken::Err(cause)).unwrap_err().kind(), ErrorKind::Io);
    assert!(failed.next_event(Taken::Ok(None)).unwrap().is_none());
    assert!(failed.cancels());
    let mut closed = PendingResponse::new();
    assert_eq!(closed.next_event(Taken::Ok(None)).unwrap_err().kind(), ErrorKind::Closed);
    let mut gone = PendingResponse::new();
    let error = gone.next_event(Taken::Err(TakeError::Disconnected)).unwrap_err();
    assert_eq!(error.context, "response driver closed");
}

#[test]
fn uploads_wait_for_permission_and_abort_until_they_are_complete() {
    let mut upload = UploadControl::<&str>::new();
    assert_eq!(upload.wait_continue("upload"), Wait::Pending);
    upload.wait_left();
    assert_eq!(upload.wait_continue("upload"), Wait::Pending);
    assert_eq!(upload.allow_continue(), Some("upload"));
    assert_eq!(upload.wait_continue("upload"), Wait::Ready(()));
    assert!(upload.abort());
    assert!(upload.aborted);
    let mut complete = UploadControl::<&str>::new();
    complete.completed();
    assert!(!complete.abort());
    assert!(!complete.aborted);
}
