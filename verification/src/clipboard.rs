use vstd::prelude::*;
use vstd::string::*;

use crate::assoc::{dict_of, lemma_same_dict, Assoc, Dict};
use crate::error::Error;
use crate::pincer::{missing_mime_text, Pincer, PincerView, SeatPincerMap};
use crate::register::{bytes_in, Contents, DataBuffer, MimeType, Register};
use crate::seat::{ClipboardState, DeviceId, OfferId, SeatData, SeatIdentifier, SeatView, Stale};

verus! {

/// By which number a seat is known
pub type SeatId = u64;

/// By which number the pipe is known through which an offer's data arrives
pub type PipeId = u64;

/// The version of the seat interface that is needed to learn the names of seats
pub const SEAT_VERSION: u32 = 2;

/// Calls `WlSeat::interface` of the crate `wayland_client`. The interface is believed to have the
/// name that the Wayland protocol gives it, `wl_seat`.
#[verifier::external_body]
fn seat_interface() -> (r: &'static str)
    ensures
        r@ == "wl_seat"@,
{
    <wayland_client::protocol::wl_seat::WlSeat as wayland_client::Proxy>::interface().name
}

/// A global object of the compositor
pub struct Global {
    /// By which number the seat is to be known, if the object is one
    pub seat: SeatId,
    /// The numeric name of the object
    pub name: u32,
    /// The interface of the object
    pub interface: String,
    /// The version of the interface
    pub version: u32,
}

impl Global {
    /// The object is a seat whose clipboard can be managed.
    pub open spec fn is_seat(self) -> bool {
        self.interface@ == "wl_seat"@ && self.version >= SEAT_VERSION
    }
}

/// The seats among some global objects.
pub open spec fn seats_of(globals: Seq<Global>) -> Dict<SeatId, SeatView>
    decreases globals.len(),
{
    if globals.len() == 0 {
        Dict::empty()
    } else {
        let before = seats_of(globals.drop_last());
        let global = globals.last();
        if global.is_seat() {
            before.put(global.seat, SeatView::fresh(global.name))
        } else {
            before
        }
    }
}

/// The first seat with a numeric name, from position `i` on.
pub open spec fn seat_called(seats: Dict<SeatId, SeatView>, name: u32, i: int) -> Option<SeatView>
    decreases seats.keys.len() - i,
{
    if i < 0 || i >= seats.keys.len() {
        None
    } else if seats.map[seats.keys[i]].numeric_name == name {
        Some(seats.map[seats.keys[i]])
    } else {
        seat_called(seats, name, i + 1)
    }
}

/// The seats without those of a numeric name.
pub open spec fn seats_not_called(seats: Dict<SeatId, SeatView>, name: u32) -> Dict<
    SeatId,
    SeatView,
> {
    Dict {
        map: Map::new(
            |k: SeatId| seats.map.contains_key(k) && seats.map[k].numeric_name != name,
            |k: SeatId| seats.map[k],
        ),
        keys: seats.keys.filter(|k: SeatId| seats.map[k].numeric_name != name),
    }
}

/// The values of a dictionary in the order of its keys.
pub open spec fn values_of<A, B>(d: Dict<A, B>) -> Seq<B> {
    Seq::new(d.keys.len(), |i: int| d.map[d.keys[i]])
}

/// Of the seats from the first one on, those that have a name and an offer.
pub open spec fn selections_of(seats: Dict<SeatId, SeatView>, k: int) -> Seq<(Seq<char>, OfferId)>
    decreases k,
{
    if k <= 0 {
        Seq::empty()
    } else {
        let before = selections_of(seats, k - 1);
        let seat = seats.map[seats.keys[k - 1]];
        match (seat.name, seat.clipboard_state.offered()) {
            (Some(name), Some(offer)) => before.push((name, offer)),
            _ => before,
        }
    }
}

/// What a [`Clipboard`] knows: the seats, and for each offer the pipes through which its data
/// arrives by MIME type.
#[verifier::ext_equal]
pub struct ClipboardView {
    pub seats: Dict<SeatId, SeatView>,
    pub offers: Dict<OfferId, Dict<Seq<char>, PipeId>>,
}

impl ClipboardView {
    /// Nothing is listed twice.
    pub open spec fn wf(self) -> bool {
        &&& self.seats.wf()
        &&& self.offers.wf()
        &&& forall|o: OfferId| #[trigger]
            self.offers.map.contains_key(o) ==> self.offers.map[o].wf()
    }

    /// The offer that a seat has at the moment.
    pub open spec fn offer_of(self, seat: SeatId) -> Option<OfferId> {
        match self.seats.get(seat) {
            Some(s) => s.clipboard_state.offered(),
            None => None,
        }
    }

    /// The name of a seat, if the seat is known and has told us its name.
    pub open spec fn name_of(self, seat: SeatId) -> Option<Seq<char>> {
        match self.seats.get(seat) {
            Some(s) => s.name,
            None => None,
        }
    }

    /// The offers without one of them.
    pub open spec fn without_offer(self, offer: Option<OfferId>) -> ClipboardView {
        match offer {
            Some(o) => ClipboardView { offers: self.offers.without(o), ..self },
            None => self,
        }
    }

    /// The pipes of an offer.
    pub open spec fn pipes_of(self, offer: Option<OfferId>) -> Seq<PipeId> {
        match offer {
            Some(o) => match self.offers.get(o) {
                Some(pipes) => values_of(pipes),
                None => Seq::empty(),
            },
            None => Seq::empty(),
        }
    }

    /// A known seat replaced.
    pub open spec fn with_seat(self, seat: SeatId, data: SeatView) -> ClipboardView {
        ClipboardView { seats: self.seats.put(seat, data), ..self }
    }
}

/// What is no longer needed after an event
pub struct Released {
    /// The objects of the compositor that have to be destroyed
    pub stale: Vec<Stale>,
    /// The pipes that have to be closed
    pub closed: Vec<PipeId>,
}

/// Struct that follows the seats of the Wayland compositor and their selections
pub struct Clipboard {
    seats: Assoc<SeatId, SeatData>,
    offers: Assoc<OfferId, Assoc<MimeType, PipeId>>,
}

impl View for Clipboard {
    type V = ClipboardView;

    closed spec fn view(&self) -> ClipboardView {
        ClipboardView { seats: self.seats@, offers: self.offers@ }
    }
}

impl Clipboard {
    /// Nothing is listed twice.
    #[verifier::type_invariant]
    pub open spec fn wf(self) -> bool {
        self@.wf()
    }

    /// Follow those of the compositor's global objects that are seats
    pub fn new(globals: &Vec<Global>) -> (r: Clipboard)
        ensures
            r@ == (ClipboardView { seats: seats_of(globals@), offers: Dict::empty() }),
    {
        let mut clip = Clipboard { seats: Assoc::new(), offers: Assoc::new() };
        for i in 0..globals.len()
            invariant
                clip@ == (ClipboardView {
                    seats: seats_of(globals@.take(i as int)),
                    offers: Dict::empty(),
                }),
        {
            clip.global(&globals[i]);
            assert(globals@.take(i + 1).drop_last() =~= globals@.take(i as int));
        }
        assert(globals@.take(globals@.len() as int) =~= globals@);
        clip
    }

    /// A global object appeared, it could be a seat. If so, we should prepare to manage its
    /// clipboard.
    ///
    /// # Returns
    ///
    /// Whether the object is to be bound as a seat, with version [`SEAT_VERSION`].
    pub fn global(&mut self, global: &Global) -> (r: bool)
        ensures
            r == global.is_seat(),
            final(self)@ == (if global.is_seat() {
                old(self)@.with_seat(global.seat, SeatView::fresh(global.name))
            } else {
                old(self)@
            }),
    {
        if global.interface == seat_interface().to_owned() && global.version >= SEAT_VERSION {
            let mut seats = self.take_seats();
            seats.insert(global.seat, SeatData::new(global.name));
            self.seats = seats;
            true
        } else {
            false
        }
    }

    fn take_seats(&mut self) -> (r: Assoc<SeatId, SeatData>)
        ensures
            r@ == old(self)@.seats,
            r.wf(),
            old(self)@.wf(),
            final(self)@ == (ClipboardView { seats: Dict::empty(), ..old(self)@ }),
    {
        proof {
            use_type_invariant(&*self);
        }
        let mut seats = Assoc::new();
        std::mem::swap(&mut seats, &mut self.seats);
        seats
    }

    fn take_offers(&mut self) -> (r: Assoc<OfferId, Assoc<MimeType, PipeId>>)
        ensures
            r@ == old(self)@.offers,
            r.wf(),
            old(self)@.wf(),
            final(self)@ == (ClipboardView { offers: Dict::empty(), ..old(self)@ }),
    {
        proof {
            use_type_invariant(&*self);
        }
        let mut offers = Assoc::new();
        std::mem::swap(&mut offers, &mut self.offers);
        offers
    }

    /// A global object disappeared, it could be a seat. If so, we should un-manage it.
    pub fn global_remove(&mut self, pincers: &mut SeatPincerMap, name: u32) -> (r: Removal)
        ensures
            final(self)@ == (ClipboardView {
                seats: seats_not_called(old(self)@.seats, name),
                ..old(self)@
            }),
            match seat_called(old(self)@.seats, name, 0) {
                None => r is NotASeat && final(pincers)@ == old(pincers)@,
                Some(seat) => match seat.name {
                    None => r is NotManaged && final(pincers)@ == old(pincers)@,
                    Some(n) => {
                        &&& final(pincers)@ == old(pincers)@.without(n)
                        &&& r is Unmanaged <==> old(pincers)@.map.contains_key(n)
                        &&& r is NotManaged <==> !old(pincers)@.map.contains_key(n)
                    },
                },
            },
    {
        let mut seats = self.take_seats();
        let r = match Self::find(&seats, name) {
            None => Removal::NotASeat,
            Some(seat_data) => match &seat_data.name {
                None => Removal::NotManaged,
                Some(n) => match pincers.remove(n) {
                    Some(_) => Removal::Unmanaged,
                    None => Removal::NotManaged,
                },
            },
        };
        Self::retain(&mut seats, name);
        self.seats = seats;
        r
    }

    /// The first seat with a numeric name
    fn find(seats: &Assoc<SeatId, SeatData>, name: u32) -> (r: Option<&SeatData>)
        requires
            seats.wf(),
        ensures
            match r {
                Some(data) => seat_called(seats@, name, 0) == Some(data@),
                None => seat_called(seats@, name, 0) is None,
            },
    {
        let n = seats.len();
        for i in 0..n
            invariant
                seats.wf(),
                n == seats@.keys.len(),
                seat_called(seats@, name, 0) == seat_called(seats@, name, i as int),
        {
            let (_, data) = seats.at(i);
            if data.numeric_name == name {
                return Some(data);
            }
        }
        None
    }

    /// Forget the seats with a numeric name
    fn retain(seats: &mut Assoc<SeatId, SeatData>, name: u32)
        requires
            old(seats).wf(),
        ensures
            final(seats)@ == seats_not_called(old(seats)@, name),
            final(seats).wf(),
    {
        let ghost all = seats@;
        let ghost keep = |k: SeatId| all.map[k].numeric_name != name;
        let ghost mut done: int = 0;
        let mut i: usize = 0;
        while i < seats.len()
            invariant
                seats.wf(),
                all == old(seats)@,
                all.wf(),
                keep == (|k: SeatId| all.map[k].numeric_name != name),
                0 <= done <= all.keys.len(),
                i == all.keys.take(done).filter(keep).len(),
                seats@.keys == all.keys.take(done).filter(keep) + all.keys.skip(done),
                forall|k: SeatId| #[trigger]
                    seats@.map.contains_key(k) ==> all.map.contains_key(k) && seats@.map[k]
                        == all.map[k],
            decreases all.keys.len() - done,
        {
            let ghost front = all.keys.take(done).filter(keep);
            let (_, data) = seats.at(i);
            let gone = data.numeric_name == name;
            proof {
                assert(seats@.keys[i as int] == all.keys[done]);
                assert(all.keys.take(done + 1).drop_last() =~= all.keys.take(done));
                assert(all.keys.take(done + 1).last() == all.keys[done]);
                reveal(Seq::filter);
            }
            if gone {
                let ghost before = seats@.keys;
                seats.remove_at(i);
                proof {
                    assert(before.remove(i as int) =~= front + all.keys.skip(done + 1));
                }
            } else {
                proof {
                    assert(front + all.keys.skip(done) =~= front.push(all.keys[done])
                        + all.keys.skip(done + 1));
                }
                i += 1;
            }
            proof {
                done = done + 1;
            }
        }
        proof {
            assert(all.keys.skip(done).len() == 0);
            assert(all.keys.take(done) =~= all.keys);
            assert(seats@.keys =~= all.keys.filter(keep));
            let want = seats_not_called(all, name);
            assert forall|k: SeatId| seats@.map.contains_key(k) <==> want.map.contains_key(k) by {
                if seats@.map.contains_key(k) {
                    assert(seats@.keys.contains(k));
                    let j = seats@.keys.index_of(k);
                    all.keys.lemma_filter_pred(keep, j);
                }
                if want.map.contains_key(k) {
                    assert(all.keys.contains(k));
                    all.keys.lemma_filter_contains(keep, all.keys.index_of(k));
                    assert(seats@.keys.contains(k));
                }
            }
            assert(seats@.map =~= want.map);
            assert(seats@ =~= want);
        }
    }

    /// A seat told us its name. A [`Pincer`] instance is created for each seat, accessed by name.
    ///
    /// # Returns
    ///
    /// Whether the seat's clipboard was not managed before.
    pub fn seat_name(
        &mut self,
        pincers: &mut SeatPincerMap,
        seat: SeatId,
        name: SeatIdentifier,
    ) -> (r: bool)
        requires
            old(self)@.seats.map.contains_key(seat),
        ensures
            final(self)@ == old(self)@.with_seat(
                seat,
                SeatView { name: Some(name@), ..old(self)@.seats.map[seat] },
            ),
            r == !old(pincers)@.map.contains_key(name@),
            final(pincers)@ == (if r {
                old(pincers)@.put(name@, PincerView::fresh())
            } else {
                old(pincers)@
            }),
    {
        let mut seats = self.take_seats();
        let data = seats.get_mut(&seat).unwrap();
        data.set_name(name.clone());
        self.seats = seats;
        if pincers.get(&name).is_none() {
            pincers.insert(name, Pincer::new());
            true
        } else {
            false
        }
    }

    /// A device has data to offer. We handle it by preparing a new MIME -> pipe map for the
    /// offer.
    ///
    /// # Returns
    ///
    /// The pipes of an earlier offer by that number, which have to be closed.
    pub fn data_offer(&mut self, offer: OfferId) -> (r: Vec<PipeId>)
        ensures
            final(self)@ == (ClipboardView {
                offers: old(self)@.offers.put(offer, Dict::empty()),
                ..old(self)@
            }),
            r@ == old(self)@.pipes_of(Some(offer)),
    {
        let mut offers = self.take_offers();
        let before = offers.insert(offer, Assoc::new());
        self.offers = offers;
        Self::pipes(before)
    }

    /// The pipes of an offer that is no more
    fn pipes(offer: Option<Assoc<MimeType, PipeId>>) -> (r: Vec<PipeId>)
        requires
            offer matches Some(pipes) ==> pipes.wf(),
        ensures
            r@ == (match offer {
                Some(pipes) => values_of(pipes@),
                None => Seq::empty(),
            }),
    {
        let mut r: Vec<PipeId> = Vec::new();
        if let Some(pipes) = offer {
            let n = pipes.len();
            for i in 0..n
                invariant
                    pipes.wf(),
                    n == pipes@.keys.len(),
                    r@ == values_of(pipes@).take(i as int),
            {
                let (_, pipe) = pipes.at(i);
                r.push(*pipe);
                assert(r@ =~= values_of(pipes@).take(i + 1));
            }
            assert(r@ =~= values_of(pipes@));
        }
        r
    }

    /// A seat's selection is set or unset. All MIME types of the offer indicated were received
    /// before. The previous offer is forgotten.
    pub fn selection(&mut self, seat: SeatId, offer: Option<OfferId>) -> (r: Released)
        ensures
            match old(self)@.seats.get(seat) {
                Some(data) => {
                    &&& final(self)@ == old(self)@.without_offer(
                        old(self)@.offer_of(seat),
                    ).with_seat(
                        seat,
                        SeatView { clipboard_state: ClipboardState::selected(offer), ..data },
                    )
                    &&& r.stale@ == some_of(data.clipboard_state.stale())
                    &&& r.closed@ == old(self)@.pipes_of(old(self)@.offer_of(seat))
                },
                None => {
                    &&& final(self)@ == old(self)@
                    &&& r.stale@.len() == 0
                    &&& r.closed@.len() == 0
                },
            },
    {
        let mut stale: Vec<Stale> = Vec::new();
        let mut closed: Vec<PipeId> = Vec::new();
        let mut seats = self.take_seats();
        let mut offers = self.take_offers();
        if let Some(data) = seats.get_mut(&seat) {
            if let Some(o) = data.offer() {
                closed = Self::pipes(offers.remove(&o));
            }
            if let Some(s) = data.set_offer(offer) {
                stale.push(s);
            }
        }
        self.seats = seats;
        self.offers = offers;
        Released { stale, closed }
    }

    /// A seat's device is no longer valid. We need to drop references to it and its offer, if
    /// any.
    pub fn finished(&mut self, seat: SeatId) -> (r: Released)
        ensures
            match old(self)@.seats.get(seat) {
                Some(data) => {
                    &&& final(self)@ == old(self)@.without_offer(
                        old(self)@.offer_of(seat),
                    ).with_seat(
                        seat,
                        SeatView {
                            device: None,
                            clipboard_state: ClipboardState::Unavailable,
                            ..data
                        },
                    )
                    &&& r.stale@ == some_of(device_of(data)) + some_of(
                        data.clipboard_state.stale(),
                    )
                    &&& r.closed@ == old(self)@.pipes_of(old(self)@.offer_of(seat))
                },
                None => {
                    &&& final(self)@ == old(self)@
                    &&& r.stale@.len() == 0
                    &&& r.closed@.len() == 0
                },
            },
    {
        let mut stale: Vec<Stale> = Vec::new();
        let mut closed: Vec<PipeId> = Vec::new();
        let mut seats = self.take_seats();
        let mut offers = self.take_offers();
        if let Some(data) = seats.get_mut(&seat) {
            if let Some(o) = data.offer() {
                closed = Self::pipes(offers.remove(&o));
            }
            if let Some(s) = data.set_device(None) {
                stale.push(s);
            }
            if let Some(s) = data.set_offer(None) {
                stale.push(s);
            }
        }
        self.seats = seats;
        self.offers = offers;
        Released { stale, closed }
    }

    /// Another client offers data of a MIME type, which will arrive through a pipe.
    ///
    /// # Returns
    ///
    /// The pipe that has to be closed: the one through which data of that MIME type should have
    /// arrived before, if any, or the new one if the offer is not known.
    pub fn offer(&mut self, offer: OfferId, mime: MimeType, pipe: PipeId) -> (r: Option<PipeId>)
        ensures
            match old(self)@.offers.get(offer) {
                Some(pipes) => {
                    &&& final(self)@ == (ClipboardView {
                        offers: old(self)@.offers.put(offer, pipes.put(mime@, pipe)),
                        ..old(self)@
                    })
                    &&& r == pipes.get(mime@)
                },
                None => final(self)@ == old(self)@ && r == Some(pipe),
            },
    {
        let mut offers = self.take_offers();
        let r = match offers.get_mut(&offer) {
            Some(pipes) => pipes.insert(mime, pipe),
            None => Some(pipe),
        };
        self.offers = offers;
        r
    }

    /// The seats, in the order in which they appeared
    pub fn seats(&self) -> (r: Vec<SeatId>)
        ensures
            r@ == self@.seats.keys,
    {
        proof {
            use_type_invariant(self);
        }
        let mut r: Vec<SeatId> = Vec::new();
        let n = self.seats.len();
        for i in 0..n
            invariant
                self.seats.wf(),
                self.seats@ == self@.seats,
                n == self@.seats.keys.len(),
                r@ == self@.seats.keys.take(i as int),
        {
            let (seat, _) = self.seats.at(i);
            r.push(*seat);
            assert(r@ =~= self@.seats.keys.take(i + 1));
        }
        assert(r@ =~= self@.seats.keys);
        r
    }

    /// A seat's device was requested
    ///
    /// # Returns
    ///
    /// The old one, if any, which has to be destroyed.
    pub fn set_device(&mut self, seat: SeatId, device: DeviceId) -> (r: Option<Stale>)
        requires
            old(self)@.seats.map.contains_key(seat),
        ensures
            final(self)@ == old(self)@.with_seat(
                seat,
                SeatView { device: Some(device), ..old(self)@.seats.map[seat] },
            ),
            r == device_of(old(self)@.seats.map[seat]),
    {
        let mut seats = self.take_seats();
        let data = seats.get_mut(&seat).unwrap();
        let r = data.set_device(Some(device));
        self.seats = seats;
        r
    }

    /// The names of the seats that other clients have copied something on, with the offers of
    /// these clients
    pub fn selections(&self) -> (r: Vec<(SeatIdentifier, OfferId)>)
        ensures
            view_selections(r@) == selections_of(self@.seats, self@.seats.keys.len() as int),
    {
        proof {
            use_type_invariant(self);
        }
        let mut r: Vec<(SeatIdentifier, OfferId)> = Vec::new();
        let n = self.seats.len();
        for i in 0..n
            invariant
                self.seats.wf(),
                self.seats@ == self@.seats,
                n == self@.seats.keys.len(),
                view_selections(r@) == selections_of(self@.seats, i as int),
        {
            let (_, data) = self.seats.at(i);
            let ghost before = r@;
            if let Some(name) = &data.name {
                if let Some(offer) = data.offer() {
                    r.push((name.clone(), offer));
                    assert(view_selections(r@) =~= view_selections(before).push((name@, offer)));
                }
            }
        }
        r
    }

    /// The MIME types of an offer, with the pipes through which the data arrives
    pub fn offer_pipes(&self, offer: OfferId) -> (r: Option<Vec<(MimeType, PipeId)>>)
        ensures
            match r {
                Some(pipes) => self@.offers.get(offer) == Some(dict_of(pipes@)),
                None => self@.offers.get(offer) is None,
            },
    {
        proof {
            use_type_invariant(self);
        }
        match self.offers.get(&offer) {
            Some(pipes) => {
                let mut r: Vec<(MimeType, PipeId)> = Vec::new();
                let n = pipes.len();
                for i in 0..n
                    invariant
                        pipes.wf(),
                        n == pipes.entries().len(),
                        n == pipes@.keys.len(),
                        r@.len() == i,
                        forall|j: int|
                            #![trigger r@[j]]
                            0 <= j < i ==> r@[j].0@ == pipes.entries()[j].0@ && r@[j].1@
                                == pipes.entries()[j].1@,
                {
                    let (mime, pipe) = pipes.at(i);
                    r.push((mime.clone(), *pipe));
                }
                proof {
                    pipes.lemma_view();
                    lemma_same_dict(r@, pipes.entries());
                }
                Some(r)
            },
            None => None,
        }
    }

    /// Keep what another client has copied on a seat
    ///
    /// # Arguments
    ///
    /// * `pincers` - the seats whose clipboards are managed
    /// * `seat` - name of the seat
    /// * `offer` - the offer of the other client
    /// * `copied` - what could be read of the offer
    pub fn yank_from_selection(
        &self,
        pincers: &mut SeatPincerMap,
        seat: &SeatIdentifier,
        offer: OfferId,
        copied: Register,
    ) -> (r: Result<(), YankError>)
        requires
            bytes_in(copied@) <= usize::MAX,
        ensures
            match (self@.offers.get(offer), old(pincers)@.get(seat@)) {
                (None, _) => {
                    &&& r == Err::<(), _>(YankError::UnknownOffer)
                    &&& final(pincers)@ == old(pincers)@
                },
                (Some(_), None) => {
                    &&& r == Err::<(), _>(YankError::Unmanaged)
                    &&& final(pincers)@ == old(pincers)@
                },
                (Some(_), Some(pincer)) => {
                    &&& r == Ok::<_, YankError>(())
                    &&& final(pincers)@ == old(pincers)@.put(seat@, pincer.clipped(copied@))
                },
            },
    {
        proof {
            use_type_invariant(self);
        }
        if self.offers.get(&offer).is_none() {
            return Err(YankError::UnknownOffer);
        }
        let mut map = pincers.take();
        let r = match map.get_mut(seat) {
            Some(pincer) => {
                let _ = pincer.clip(copied.into_iter());
                Ok(())
            },
            None => Err(YankError::Unmanaged),
        };
        *pincers = SeatPincerMap::from_map(map);
        r
    }

    /// Keep what other clients have copied, one selection after the other, until one of them
    /// cannot be kept
    ///
    /// # Arguments
    ///
    /// * `pincers` - the seats whose clipboards are managed
    /// * `copied` - names of seats, offers of other clients, and what could be read of them
    pub fn grab(
        &self,
        pincers: &mut SeatPincerMap,
        copied: Vec<(SeatIdentifier, OfferId, Register)>,
    ) -> (r: Result<(), YankError>)
        requires
            forall|i: int|
                0 <= i < copied@.len() ==> bytes_in(#[trigger] copied@[i].2@) <= usize::MAX,
        ensures
            (final(pincers)@, r) == grabbed(self@, old(pincers)@, copied@, 0),
    {
        for selection in it: copied
            invariant
                it.seq() == copied@,
                forall|i: int|
                    0 <= i < copied@.len() ==> bytes_in(#[trigger] copied@[i].2@) <= usize::MAX,
                grabbed(self@, pincers@, copied@, it.index()) == grabbed(
                    self@,
                    old(pincers)@,
                    copied@,
                    0,
                ),
        {
            let (seat, offer, contents) = selection;
            match self.yank_from_selection(pincers, &seat, offer, contents) {
                Ok(()) => {},
                Err(e) => {
                    return Err(e);
                },
            }
        }
        Ok(())
    }

    /// Another client wants to paste our data
    ///
    /// # Returns
    ///
    /// The data of that MIME type in the register that the seat's register pointer selects, or
    /// why nothing is sent.
    pub fn send<'a>(&self, pincers: &'a SeatPincerMap, seat: SeatId, mime: &MimeType) -> (r: Result<
        &'a DataBuffer,
        SendError,
    >)
        ensures
            match self@.name_of(seat) {
                None => r == Err::<&DataBuffer, _>(SendError::UnknownSeat),
                Some(name) => match pincers@.get(name) {
                    None => r == Err::<&DataBuffer, _>(SendError::Unmanaged),
                    Some(pincer) => match pincer.register(pincer.selected()).get(mime@) {
                        Some(held) => r matches Ok(data) && data@ == held,
                        None => r matches Err(SendError::NoData(e)) && e@ == missing_mime_text(
                            pincer.selected(),
                            mime@,
                        ),
                    },
                },
            },
    {
        proof {
            use_type_invariant(self);
        }
        let seat_data = match self.seats.get(&seat) {
            Some(data) => data,
            None => {
                return Err(SendError::UnknownSeat);
            },
        };
        let seat_name = match &seat_data.name {
            Some(name) => name,
            None => {
                return Err(SendError::UnknownSeat);
            },
        };
        let pincer = match pincers.get(seat_name) {
            Some(pincer) => pincer,
            None => {
                return Err(SendError::Unmanaged);
            },
        };
        match pincer.paste(mime) {
            Ok(data) => Ok(data),
            Err(e) => Err(SendError::NoData(e)),
        }
    }
}

/// Why what another client has copied is not kept
#[derive(Debug, Clone, Copy, PartialEq, Eq, Structural)]
pub enum YankError {
    /// The offer is not registered
    UnknownOffer,
    /// The seat's clipboard is not managed
    Unmanaged,
}

/// Why nothing is sent to a client that wants to paste
#[derive(Debug)]
pub enum SendError {
    /// The seat is not known, or has no name
    UnknownSeat,
    /// The seat's clipboard is not managed
    Unmanaged,
    /// The register does not hold data of the MIME type
    NoData(Error),
}

/// How the managed seats are left when selections are kept one after the other, from position `i`
/// on, and what comes of it.
pub open spec fn grabbed(
    clip: ClipboardView,
    pincers: Dict<Seq<char>, PincerView>,
    copied: Seq<(SeatIdentifier, OfferId, Register)>,
    i: int,
) -> (Dict<Seq<char>, PincerView>, Result<(), YankError>)
    decreases copied.len() - i,
{
    if i < 0 || i >= copied.len() {
        (pincers, Ok(()))
    } else {
        let (seat, offer, contents) = copied[i];
        if clip.offers.get(offer) is None {
            (pincers, Err(YankError::UnknownOffer))
        } else {
            match pincers.get(seat@) {
                Some(pincer) => grabbed(
                    clip,
                    pincers.put(seat@, pincer.clipped(contents@)),
                    copied,
                    i + 1,
                ),
                None => (pincers, Err(YankError::Unmanaged)),
            }
        }
    }
}

/// What a list of names and offers stands for.
pub open spec fn view_selections(l: Seq<(SeatIdentifier, OfferId)>) -> Seq<(Seq<char>, OfferId)> {
    Seq::new(l.len(), |i: int| (l[i].0@, l[i].1))
}

/// What is kept of an offer whose data was read, where some of it could not be read.
pub open spec fn readable(reads: Seq<(MimeType, Option<DataBuffer>)>) -> Contents
    decreases reads.len(),
{
    if reads.len() == 0 {
        Dict::empty()
    } else {
        let before = readable(reads.drop_last());
        match reads.last().1 {
            Some(data) => before.put(reads.last().0@, data@),
            None => before,
        }
    }
}

/// Collect what could be read of an offer
///
/// # Arguments
///
/// * `reads` - the MIME types of the offer, with the data that arrived, or `None` where it could
///   not be read
pub fn collect_readable(reads: Vec<(MimeType, Option<DataBuffer>)>) -> (r: Register)
    ensures
        r@ == readable(reads@),
{
    let mut r = Register::new();
    for x in it: reads
        invariant
            it.seq() == reads@,
            r@ == readable(reads@.take(it.index())),
    {
        proof {
            assert(reads@.take(it.index() + 1).drop_last() =~= reads@.take(it.index()));
        }
        let (mime, data) = x;
        if let Some(data) = data {
            r.insert(mime, data);
        }
    }
    assert(reads@.take(reads@.len() as int) =~= reads@);
    r
}

/// What happens to a clipboard that listens to the compositor
#[derive(Debug, Clone, Copy, PartialEq, Eq, Structural)]
pub enum ListenEvent {
    /// The clipboard is told to stop
    Cancelled,
    /// The compositor sent events
    Read,
    /// The events of the compositor could not be read
    Failed,
}

/// What a clipboard that listens to the compositor does next
#[derive(Debug, Clone, Copy, PartialEq, Eq, Structural)]
pub enum ListenStep {
    /// Stop listening
    Stop,
    /// Dispatch the events, and listen on
    Dispatch,
    /// Report the error, and listen on
    Warn,
}

/// Decide what a clipboard that listens to the compositor does next
pub fn listen_step(event: ListenEvent) -> (r: ListenStep)
    ensures
        r is Stop <==> event is Cancelled,
        r is Dispatch <==> event is Read,
        r is Warn <==> event is Failed,
{
    match event {
        ListenEvent::Cancelled => ListenStep::Stop,
        ListenEvent::Read => ListenStep::Dispatch,
        ListenEvent::Failed => ListenStep::Warn,
    }
}

/// At most one object as a sequence.
pub open spec fn some_of(stale: Option<Stale>) -> Seq<Stale> {
    match stale {
        Some(s) => seq![s],
        None => Seq::empty(),
    }
}

/// The object that has to be destroyed when a seat's device is replaced.
pub open spec fn device_of(data: SeatView) -> Option<Stale> {
    match data.device {
        Some(id) => Some(Stale::Device(id)),
        None => None,
    }
}

/// What became of a seat whose global object disappeared
#[derive(Debug, Clone, Copy, PartialEq, Eq, Structural)]
pub enum Removal {
    /// The object was not a known seat
    NotASeat,
    /// The seat's clipboard is no longer managed
    Unmanaged,
    /// The seat's clipboard was not managed before
    NotManaged,
}

} // verus!
