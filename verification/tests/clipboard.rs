use pincers::clipboard::{
    listen_step, Clipboard, Global, ListenEvent, ListenStep, Removal, SendError, YankError,
};
use pincers::pincer::SeatPincerMap;
use pincers::register::Register;
use pincers::seat::{ClipboardState, SeatData, Stale};

fn plain() -> String {
    "text/plain".to_string()
}

fn register(s: &str) -> Register {
    let mut r = Register::new();
    r.insert(plain(), s.as_bytes().to_vec());
    r
}

fn global(seat: u64, name: u32, interface: &str, version: u32) -> Global {
    Global { seat, name, interface: interface.to_string(), version }
}

/// Two seats, the first of which is called `seat0`
fn two_seats() -> (Clipboard, SeatPincerMap) {
    let mut clip = Clipboard::new(&vec![global(1, 11, "wl_seat", 2), global(2, 12, "wl_seat", 9)]);
    let mut pincers = SeatPincerMap::new();
    assert!(clip.seat_name(&mut pincers, 1, "seat0".to_string()));
    (clip, pincers)
}

#[test]
fn seats_are_found_among_globals() {
    let clip = Clipboard::new(&vec![
        global(1, 11, "wl_seat", 1),
        global(2, 12, "wl_seat", 2),
        global(3, 13, "wl_output", 4),
        global(4, 14, "wl_seat", 8),
        global(5, 15, "wl_sea", 8),
    ]);
    assert_eq!(clip.seats(), vec![2, 4]);
}

#[test]
fn the_seat_interface_is_that_of_the_protocol() {
    let name = <wayland_client::protocol::wl_seat::WlSeat as wayland_client::Proxy>::interface().name;
    let mut clip = Clipboard::new(&vec![]);
    assert!(clip.global(&global(1, 1, name, 2)));
    assert!(!clip.global(&global(2, 2, name, 1)));
    assert!(!clip.global(&global(3, 3, "wl_keyboard", 5)));
    assert_eq!(clip.seats(), vec![1]);
}

#[test]
fn a_named_seat_is_managed() {
    let (mut clip, mut pincers) = two_seats();
    assert_eq!(pincers.len(), 1);
    assert!(pincers.get(&"seat0".to_string()).is_some());
    assert!(!clip.seat_name(&mut pincers, 2, "seat0".to_string()));
    assert_eq!(pincers.len(), 1);
    assert!(clip.seat_name(&mut pincers, 2, "seat1".to_string()));
    assert_eq!(pincers.len(), 2);
}

#[test]
fn a_seat_that_disappears_is_not_managed() {
    let (mut clip, mut pincers) = two_seats();
    assert_eq!(clip.global_remove(&mut pincers, 99), Removal::NotASeat);
    assert_eq!(clip.global_remove(&mut pincers, 12), Removal::NotManaged);
    assert_eq!(clip.seats(), vec![1]);
    assert_eq!(pincers.len(), 1);
    assert_eq!(clip.global_remove(&mut pincers, 11), Removal::Unmanaged);
    assert!(clip.seats().is_empty());
    assert_eq!(pincers.len(), 0);
}

#[test]
fn a_named_seat_can_be_unmanaged_already() {
    let (mut clip, mut pincers) = two_seats();
    pincers.remove(&"seat0".to_string());
    assert_eq!(clip.global_remove(&mut pincers, 11), Removal::NotManaged);
    assert_eq!(clip.seats(), vec![2]);
}

#[test]
fn selections_replace_offers() {
    let (mut clip, _) = two_seats();
    assert!(clip.data_offer(50).is_empty());
    assert_eq!(clip.offer(50, plain(), 500), None);
    assert_eq!(clip.offer(50, "text/html".to_string(), 501), None);
    assert_eq!(clip.offer(50, plain(), 502), Some(500));
    assert_eq!(clip.offer(51, plain(), 503), Some(503));
    assert_eq!(clip.offer_pipes(50), Some(vec![(plain(), 502), ("text/html".to_string(), 501)]));
    assert_eq!(clip.offer_pipes(51), None);

    let released = clip.selection(1, Some(50));
    assert!(released.stale.is_empty());
    assert!(released.closed.is_empty());
    assert_eq!(clip.selections(), vec![("seat0".to_string(), 50)]);

    clip.data_offer(60);
    let released = clip.selection(1, Some(60));
    assert_eq!(released.stale, vec![Stale::Offer(50)]);
    assert_eq!(released.closed, vec![502, 501]);
    assert_eq!(clip.offer_pipes(50), None);
    assert_eq!(clip.selections(), vec![("seat0".to_string(), 60)]);

    let released = clip.selection(1, None);
    assert_eq!(released.stale, vec![Stale::Offer(60)]);
    assert!(clip.selections().is_empty());
}

#[test]
fn an_offer_announced_twice_starts_anew() {
    let (mut clip, _) = two_seats();
    clip.data_offer(50);
    clip.offer(50, plain(), 500);
    assert_eq!(clip.data_offer(50), vec![500]);
    assert_eq!(clip.offer_pipes(50), Some(vec![]));
}

#[test]
fn unknown_seats_have_no_selection() {
    let (mut clip, _) = two_seats();
    clip.data_offer(50);
    assert!(clip.selection(9, Some(50)).stale.is_empty());
    assert!(clip.finished(9).closed.is_empty());
    assert_eq!(clip.offer_pipes(50), Some(vec![]));
}

#[test]
fn a_finished_device_is_dropped() {
    let (mut clip, _) = two_seats();
    assert_eq!(clip.set_device(1, 70), None);
    assert_eq!(clip.set_device(1, 71), Some(Stale::Device(70)));
    clip.data_offer(50);
    clip.offer(50, plain(), 500);
    clip.selection(1, Some(50));
    let released = clip.finished(1);
    assert_eq!(released.stale, vec![Stale::Device(71), Stale::Offer(50)]);
    assert_eq!(released.closed, vec![500]);
    assert!(clip.finished(1).stale.is_empty());
}

#[test]
fn unnamed_seats_are_not_read() {
    let (mut clip, _) = two_seats();
    clip.data_offer(50);
    clip.selection(2, Some(50));
    assert!(clip.selections().is_empty());
}

#[test]
fn what_is_copied_is_pasted() {
    let (mut clip, mut pincers) = two_seats();
    clip.data_offer(50);
    clip.selection(1, Some(50));
    assert_eq!(
        clip.yank_from_selection(&mut pincers, &"seat0".to_string(), 50, register("hello")),
        Ok(())
    );
    assert_eq!(clip.send(&pincers, 1, &plain()).ok(), Some(&b"hello".to_vec()));
}

#[test]
fn what_cannot_be_kept_is_reported() {
    let (mut clip, mut pincers) = two_seats();
    clip.data_offer(50);
    assert_eq!(
        clip.yank_from_selection(&mut pincers, &"seat9".to_string(), 51, register("x")),
        Err(YankError::UnknownOffer)
    );
    assert_eq!(
        clip.yank_from_selection(&mut pincers, &"seat9".to_string(), 50, register("x")),
        Err(YankError::Unmanaged)
    );
    assert!(pincers.get(&"seat0".to_string()).unwrap().register(None).is_empty());
}

#[test]
fn grabbing_stops_at_the_first_failure() {
    let (mut clip, mut pincers) = two_seats();
    clip.data_offer(50);
    let seat = || "seat0".to_string();
    assert_eq!(
        clip.grab(
            &mut pincers,
            vec![
                (seat(), 50, register("one")),
                ("seat9".to_string(), 50, register("two")),
                (seat(), 50, register("three")),
            ]
        ),
        Err(YankError::Unmanaged)
    );
    assert_eq!(pincers.get(&seat()).unwrap().paste(&plain()), Ok(&b"one".to_vec()));
    assert_eq!(
        clip.grab(&mut pincers, vec![(seat(), 50, register("two")), (seat(), 50, register("three"))]),
        Ok(())
    );
    let p = pincers.get(&seat()).unwrap();
    assert_eq!(p.paste(&plain()), Ok(&b"three".to_vec()));
    assert_eq!(p.paste_from(Some("2".parse().unwrap()), &plain()), Ok(&b"one".to_vec()));
}

#[test]
fn sending_says_why_nothing_is_sent() {
    let (clip, mut pincers) = two_seats();
    assert!(matches!(clip.send(&pincers, 9, &plain()), Err(SendError::UnknownSeat)));
    assert!(matches!(clip.send(&pincers, 2, &plain()), Err(SendError::UnknownSeat)));
    match clip.send(&pincers, 1, &plain()) {
        Err(SendError::NoData(e)) => assert_eq!(
            e,
            "Register Numeric(Bounded(0)) does not contain MIME type text/plain"
        ),
        _ => panic!("something was sent"),
    }
    pincers.remove(&"seat0".to_string());
    assert!(matches!(clip.send(&pincers, 1, &plain()), Err(SendError::Unmanaged)));
}

#[test]
fn listening_to_the_compositor() {
    assert_eq!(listen_step(ListenEvent::Cancelled), ListenStep::Stop);
    assert_eq!(listen_step(ListenEvent::Read), ListenStep::Dispatch);
    assert_eq!(listen_step(ListenEvent::Failed), ListenStep::Warn);
}

#[test]
fn seat_data_hands_out_what_is_to_be_destroyed() {
    let mut data = SeatData::new(1234567890);
    assert_eq!(data.to_string(), "[unnamed]");
    assert_eq!(data.debug_string(), "[unnamed] (#1234567890)");
    data.set_name("seat0".to_string());
    assert_eq!(data.to_string(), "seat0");
    assert_eq!(data.debug_string(), "seat0 (#1234567890)");
    assert_eq!(SeatData::new(0).debug_string(), "[unnamed] (#0)");

    assert_eq!(data.set_device(Some(3)), None);
    assert_eq!(data.set_device(None), Some(Stale::Device(3)));
    assert_eq!(data.clipboard_state, ClipboardState::Uninitialized);
    assert_eq!(data.set_clipboard_state(ClipboardState::Source(4)), None);
    assert_eq!(data.offer(), None);
    assert_eq!(data.set_offer(Some(5)), Some(Stale::Source(4)));
    assert_eq!(data.offer(), Some(5));
    assert_eq!(data.set_offer(None), Some(Stale::Offer(5)));
    assert_eq!(data.clipboard_state, ClipboardState::Unavailable);
    assert_eq!(data.set_clipboard_state(ClipboardState::Uninitialized), None);
}
