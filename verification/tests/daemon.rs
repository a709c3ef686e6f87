use pincers::client::{handle_response, show, Shown};
use pincers::daemon::{
    accept_step, execute_request, handle_request, listen_step, AcceptEvent, AcceptStep,
    ListenEvent, ListenStep, ReceiveFault, RegisterCommand, Request, RequestType, Response,
    ResponseType,
};
use pincers::pincer::{Pincer, SeatPincerMap};
use pincers::register::{Register, RegisterAddress, RegisterSummary};
use pincers::seat::SeatSpecification;

fn addr(s: &str) -> RegisterAddress {
    s.parse().unwrap()
}

fn plain() -> String {
    "text/plain".to_string()
}

fn register(s: &str) -> Register {
    let mut r = Register::new();
    r.insert(plain(), s.as_bytes().to_vec());
    r
}

fn unspecified(request: RequestType) -> Request {
    Request { seat: SeatSpecification::default(), request }
}

fn specified(name: &str, request: RequestType) -> Request {
    Request { seat: SeatSpecification::Specified(name.to_string()), request }
}

fn managed(names: &[&str]) -> SeatPincerMap {
    let mut m = SeatPincerMap::default();
    for name in names {
        m.insert(name.to_string(), Pincer::new());
    }
    m
}

fn pasted(r: Response) -> Vec<u8> {
    match r {
        Ok(ResponseType::Paste(_, data)) => data,
        other => panic!("{other:?}"),
    }
}

fn active(r: Response) -> RegisterAddress {
    match r {
        Ok(ResponseType::Register(a)) => a,
        other => panic!("{other:?}"),
    }
}

#[test]
fn yank_then_show_and_paste() {
    let mut p = Pincer::new();
    match execute_request(RequestType::Yank(Some(addr("k")), register("hello")), &mut p) {
        Ok(ResponseType::Yank(a, n)) => assert_eq!((a, n), (addr("k"), 5)),
        other => panic!("{other:?}"),
    }
    match execute_request(RequestType::Show(Some(addr("k"))), &mut p) {
        Ok(ResponseType::Show(a, r)) => {
            assert_eq!(a, addr("k"));
            assert_eq!(r.get(&plain()), Some(&b"hello".to_vec()));
        }
        other => panic!("{other:?}"),
    }
    assert_eq!(pasted(execute_request(RequestType::Paste(Some(addr("k")), plain()), &mut p)), b"hello");
}

#[test]
fn requests_without_an_address_mean_zero() {
    let mut p = Pincer::new();
    match execute_request(RequestType::Yank(None, register("hello")), &mut p) {
        Ok(ResponseType::Yank(a, n)) => assert_eq!((a, n), (addr("0"), 5)),
        other => panic!("{other:?}"),
    }
    assert_eq!(pasted(execute_request(RequestType::Paste(None, plain()), &mut p)), b"hello");
}

#[test]
fn a_refused_paste_says_why() {
    let mut p = Pincer::new();
    match execute_request(RequestType::Paste(Some(addr("b")), "x/y".to_string()), &mut p) {
        Err(e) => assert_eq!(e, "Register Named(Bounded(1)) does not contain MIME type x/y"),
        other => panic!("{other:?}"),
    }
}

#[test]
fn list_request() {
    let mut p = Pincer::new();
    execute_request(RequestType::Yank(None, register("old")), &mut p).unwrap();
    execute_request(RequestType::Yank(None, register("newer")), &mut p).unwrap();
    match execute_request(RequestType::List(), &mut p) {
        Ok(ResponseType::List(list)) => {
            assert_eq!(list.len(), 2);
            assert_eq!(list[0].0, addr("0"));
            assert!(matches!(&list[0].1, RegisterSummary::Text(t, 5) if t == "newer"));
            assert_eq!(list[1].0, addr("1"));
            assert!(matches!(&list[1].1, RegisterSummary::Text(t, 3) if t == "old"));
        }
        other => panic!("{other:?}"),
    }
}

#[test]
fn register_commands() {
    let mut p = Pincer::new();
    let command = |c| RequestType::Register(c);
    assert_eq!(active(execute_request(command(RegisterCommand::Active {}), &mut p)), addr("0"));
    let select = RegisterCommand::Select { address: addr("a") };
    assert_eq!(active(execute_request(command(select), &mut p)), addr("a"));
    assert_eq!(active(execute_request(command(RegisterCommand::Active {}), &mut p)), addr("a"));
    assert_eq!(p.get(), Some(addr("a")));
    assert_eq!(active(execute_request(command(RegisterCommand::Clear {}), &mut p)), addr("0"));
    assert_eq!(p.get(), None);
    assert_eq!(active(execute_request(command(RegisterCommand::Active {}), &mut p)), addr("0"));
}

#[test]
fn reading_changes_nothing() {
    let mut p = Pincer::new();
    execute_request(RequestType::Yank(None, register("one")), &mut p).unwrap();
    execute_request(RequestType::Yank(None, register("two")), &mut p).unwrap();
    for _ in 0..3 {
        execute_request(RequestType::Show(Some(addr("1"))), &mut p).unwrap();
        execute_request(RequestType::List(), &mut p).unwrap();
        execute_request(RequestType::Register(RegisterCommand::Active {}), &mut p).unwrap();
        assert!(execute_request(RequestType::Paste(Some(addr("2")), plain()), &mut p).is_err());
        assert_eq!(pasted(execute_request(RequestType::Paste(None, plain()), &mut p)), b"two");
        let one = RequestType::Paste(Some(addr("1")), plain());
        assert_eq!(pasted(execute_request(one, &mut p)), b"one");
    }
}

#[test]
fn a_request_goes_to_the_seat_it_names() {
    let mut m = managed(&["seat0", "seat1"]);
    handle_request(specified("seat1", RequestType::Yank(None, register("one"))), &mut m).unwrap();
    assert_eq!(m.get(&"seat1".to_string()).unwrap().paste(&plain()), Ok(&b"one".to_vec()));
    assert!(m.get(&"seat0".to_string()).unwrap().paste(&plain()).is_err());
}

#[test]
fn a_request_without_a_seat_goes_to_the_first_one() {
    let mut m = managed(&["seat1", "seat0"]);
    handle_request(unspecified(RequestType::Yank(None, register("one"))), &mut m).unwrap();
    assert_eq!(m.get(&"seat1".to_string()).unwrap().paste(&plain()), Ok(&b"one".to_vec()));
    assert!(m.get(&"seat0".to_string()).unwrap().paste(&plain()).is_err());
}

#[test]
fn requests_for_unmanaged_seats_are_refused() {
    let mut m = managed(&[]);
    assert_eq!(
        handle_request(unspecified(RequestType::List()), &mut m).unwrap_err(),
        "Received request for seat Unspecified, but its clipboard is not managed by this daemon"
    );
    let mut m = managed(&["seat0"]);
    assert_eq!(
        handle_request(specified("a\"b\n", RequestType::List()), &mut m).unwrap_err(),
        "Received request for seat Specified(\"a\\\"b\\n\"), but its clipboard is not managed by this daemon"
    );
    assert_eq!(m.len(), 1);
}

#[test]
fn messages_write_seats_like_their_debug_form() {
    for seat in [
        SeatSpecification::Unspecified,
        SeatSpecification::Specified("seat0".to_string()),
        SeatSpecification::Specified("\u{7f}\t'\\".to_string()),
    ] {
        assert_eq!(seat.debug_string(), format!("{seat:?}"));
        assert_eq!(seat.clone(), seat);
    }
}

#[test]
fn every_answer_is_shown() {
    match handle_response(Ok(ResponseType::Yank(addr("c"), 12))) {
        Ok(Shown::Yanked(notice)) => {
            assert_eq!(notice.address, addr("c"));
            assert_eq!(notice.bytes, 12);
        }
        other => panic!("{other:?}"),
    }
    match handle_response(Ok(ResponseType::Paste(addr("c"), vec![1, 2]))) {
        Ok(Shown::Data(data)) => assert_eq!(data, vec![1, 2]),
        other => panic!("{other:?}"),
    }
    match handle_response(Ok(ResponseType::Show(addr("c"), register("hello")))) {
        Ok(Shown::Contents { address, register, summary }) => {
            assert_eq!(address, addr("c"));
            assert_eq!(register.get(&plain()), Some(&b"hello".to_vec()));
            assert!(matches!(summary, RegisterSummary::Text(t, 5) if t == "hello"));
        }
        other => panic!("{other:?}"),
    }
    let list = vec![(addr("3"), RegisterSummary::Blob("image/png".to_string(), 7))];
    match handle_response(Ok(ResponseType::List(list))) {
        Ok(Shown::Listing(list)) => {
            assert_eq!(list.len(), 1);
            assert_eq!(list[0].0, addr("3"));
            assert!(matches!(&list[0].1, RegisterSummary::Blob(m, 7) if m == "image/png"));
        }
        other => panic!("{other:?}"),
    }
    match show(ResponseType::Register(addr("z"))) {
        Shown::Active(a) => assert_eq!(a, addr("z")),
        other => panic!("{other:?}"),
    }
}

#[test]
fn a_refusal_is_passed_on() {
    match handle_response(Err("no".to_string())) {
        Err(e) => assert_eq!(e, "no"),
        other => panic!("{other:?}"),
    }
}

#[test]
fn listening_for_connections() {
    assert_eq!(listen_step(ListenEvent::Cancelled), ListenStep::Stop);
    assert_eq!(listen_step(ListenEvent::Connected), ListenStep::Serve);
    assert_eq!(listen_step(ListenEvent::Failed), ListenStep::Abort);
}

#[test]
fn a_client_that_is_gone_is_no_error() {
    assert_eq!(accept_step(AcceptEvent::Cancelled), AcceptStep::Close);
    assert_eq!(accept_step(AcceptEvent::Received), AcceptStep::Handle);
    for fault in [
        ReceiveFault::TimedOut,
        ReceiveFault::ConnectionReset,
        ReceiveFault::ConnectionAborted,
    ] {
        assert_eq!(accept_step(AcceptEvent::Fault(fault)), AcceptStep::Close);
    }
    for fault in [ReceiveFault::InvalidData, ReceiveFault::Other] {
        assert_eq!(accept_step(AcceptEvent::Fault(fault)), AcceptStep::Fail);
    }
}
