use vstd::prelude::*;
use vstd::std_specs::iter::IteratorSpec;
use vstd::string::*;

use crate::address::{view_option, AddressView};
use crate::assoc::{Assoc, Dict};
use crate::error::Error;
use crate::register::{
    lemma_total_prefix, stored, total, Contents, DataBuffer, MimeType, NumericT, Register,
    RegisterAddress, RegisterSummary, SummaryView, N_NAMED, N_NUMERIC,
};
use crate::seat::SeatIdentifier;

verus! {

/// What a [`Pincer`] holds: its register pointer, and the contents of its registers
/// in the order of their addresses.
#[verifier::ext_equal]
pub struct PincerView {
    pub active: Option<AddressView>,
    pub numeric: Seq<Contents>,
    pub named: Seq<Contents>,
}

impl PincerView {
    /// No register pointer, and nothing in any register.
    pub open spec fn fresh() -> PincerView {
        PincerView {
            active: None,
            numeric: Seq::new(N_NUMERIC as nat, |i: int| Contents::empty()),
            named: Seq::new(N_NAMED as nat, |i: int| Contents::empty()),
        }
    }

    /// There is a register for every address, and the register pointer is an address.
    pub open spec fn wf(self) -> bool {
        &&& self.numeric.len() == N_NUMERIC
        &&& self.named.len() == N_NAMED
        &&& self.active matches Some(a) ==> a.valid()
    }

    /// The contents of a register.
    pub open spec fn register(self, addr: AddressView) -> Contents {
        match addr {
            AddressView::Numeric(n) => self.numeric[n],
            AddressView::Named(n) => self.named[n],
        }
    }

    /// The address that the register pointer selects: `"0` if it is not set.
    pub open spec fn selected(self) -> AddressView {
        AddressView::or_default(self.active)
    }

    /// The contents of one register replaced.
    pub open spec fn with(self, addr: AddressView, contents: Contents) -> PincerView {
        match addr {
            AddressView::Numeric(n) => PincerView {
                numeric: self.numeric.update(n, contents),
                ..self
            },
            AddressView::Named(n) => PincerView { named: self.named.update(n, contents), ..self },
        }
    }

    /// The register pointer replaced.
    pub open spec fn with_active(self, active: Option<AddressView>) -> PincerView {
        PincerView { active, ..self }
    }

    /// Every numeric register pushed to the next higher one, the highest one coming
    /// round to `"0`.
    pub open spec fn shifted(self) -> PincerView {
        PincerView { numeric: seq![self.numeric.last()] + self.numeric.drop_last(), ..self }
    }

    /// After a yank into a register. A yank into a numeric register first pushes the
    /// numeric registers up.
    pub open spec fn yanked(self, addr: AddressView, contents: Contents) -> PincerView {
        match addr {
            AddressView::Numeric(_) => self.shifted().with(addr, contents),
            AddressView::Named(_) => self.with(addr, contents),
        }
    }

    /// After something is copied: it goes in `"0`, pushing the previous clippings up, and
    /// also in the register that the register pointer is set to.
    pub open spec fn clipped(self, contents: Contents) -> PincerView {
        let pushed = self.yanked(AddressView::Numeric(0), contents);
        match self.active {
            Some(addr) => pushed.with(addr, contents),
            None => pushed,
        }
    }

    /// The summaries of those of the first `k` registers that hold something.
    pub open spec fn listing_of(self, k: int) -> Seq<(AddressView, SummaryView)>
        decreases k,
    {
        if k <= 0 {
            Seq::empty()
        } else {
            let addr = AddressView::nth(k - 1);
            let before = self.listing_of(k - 1);
            if self.register(addr).is_empty() {
                before
            } else {
                before.push((addr, crate::register::summary(self.register(addr))))
            }
        }
    }

    /// The summaries of the registers that hold something.
    pub open spec fn listing(self) -> Seq<(AddressView, SummaryView)> {
        self.listing_of(crate::address::n_registers())
    }
}

/// What is answered where a register does not hold data of a MIME type.
pub open spec fn missing_mime_text(addr: AddressView, mime: Seq<char>) -> Seq<char> {
    "Register "@ + addr.debug_text() + " does not contain MIME type "@ + mime
}

/// What a list of summaries stands for.
pub open spec fn view_listing(l: Seq<(RegisterAddress, RegisterSummary)>) -> Seq<
    (AddressView, SummaryView),
> {
    Seq::new(l.len(), |i: int| (l[i].0@, l[i].1@))
}

/// Struct for the state of the clipboard manager
#[derive(Debug)]
pub struct Pincer {
    // The Pincer's currently active register
    active: Option<RegisterAddress>,
    // To avoid moving data as yanks to "0 shift higher-numbered registers up, we will treat the
    // `numeric` array as a circular buffer. This is the offset in that circular buffer.
    pointer: NumericT,
    numeric: [Register; 10],
    named: [Register; 26],
}

impl View for Pincer {
    type V = PincerView;

    closed spec fn view(&self) -> PincerView {
        PincerView {
            active: view_option(self.active),
            numeric: Seq::new(
                N_NUMERIC as nat,
                |i: int| self.numeric@[shifted_back(i, self.pointer@)]@,
            ),
            named: Seq::new(N_NAMED as nat, |i: int| self.named@[i]@),
        }
    }
}

/// Store pastes in an empty register
fn fill<T>(reg: &mut Register, pastes: T) -> (r: usize) where
    T: Iterator<Item = (MimeType, DataBuffer)>,

    requires
        pastes.obeys_prophetic_iter_laws(),
        pastes.decrease() is Some,
        total(pastes.remaining()) <= usize::MAX,
        old(reg)@ == Contents::empty(),
    ensures
        r == total(pastes.remaining()),
        final(reg)@ == stored(pastes.remaining()),
{
    let mut bytes: usize = 0;
    let mut iter = pastes;
    let ghost mut seen: Seq<(MimeType, DataBuffer)> = Seq::empty();
    loop
        invariant
            iter.obeys_prophetic_iter_laws(),
            iter.decrease() is Some,
            pastes.remaining() == seen + iter.remaining(),
            total(pastes.remaining()) <= usize::MAX,
            bytes == total(seen),
            reg@ == stored(seen),
        ensures
            bytes == total(pastes.remaining()),
            reg@ == stored(pastes.remaining()),
        decreases iter.decrease()->0,
    {
        let ghost before = iter;
        match iter.next() {
            None => {
                assert(seen + iter.remaining() =~= seen);
                break;
            },
            Some(paste) => {
                proof {
                    assert(seen.push(paste) + iter.remaining() =~= seen + before.remaining());
                    assert(seen.push(paste).drop_last() =~= seen);
                    lemma_total_prefix(seen.push(paste), iter.remaining());
                    seen = seen.push(paste);
                }
                let (mime, data) = paste;
                bytes += data.len();
                reg.insert(mime, data);
            },
        }
    }
    bytes
}

impl Pincer {
    /// Create a new Pincer
    pub fn new() -> (r: Pincer)
        ensures
            r@ == PincerView::fresh(),
    {
        let r = Pincer {
            active: None,
            pointer: NumericT::new(0).unwrap(),
            numeric: [
                Register::new(),
                Register::new(),
                Register::new(),
                Register::new(),
                Register::new(),
                Register::new(),
                Register::new(),
                Register::new(),
                Register::new(),
                Register::new(),
            ],
            named: [
                Register::new(),
                Register::new(),
                Register::new(),
                Register::new(),
                Register::new(),
                Register::new(),
                Register::new(),
                Register::new(),
                Register::new(),
                Register::new(),
                Register::new(),
                Register::new(),
                Register::new(),
                Register::new(),
                Register::new(),
                Register::new(),
                Register::new(),
                Register::new(),
                Register::new(),
                Register::new(),
                Register::new(),
                Register::new(),
                Register::new(),
                Register::new(),
                Register::new(),
                Register::new(),
            ],
        };
        assert(r@ =~= PincerView::fresh());
        r
    }

    /// Set the Pincer's register pointer
    pub fn set(&mut self, addr: RegisterAddress)
        ensures
            final(self)@ == old(self)@.with_active(Some(addr@)),
    {
        self.active = Some(addr);
        assert(self@ =~= old(self)@.with_active(Some(addr@)));
    }

    /// Unset the Pincer's register pointer
    pub fn unset(&mut self)
        ensures
            final(self)@ == old(self)@.with_active(None),
    {
        self.active = None;
        assert(self@ =~= old(self)@.with_active(None));
    }

    /// Get the Pincer's register pointer
    pub fn get(&self) -> (r: Option<RegisterAddress>)
        ensures
            view_option(r) == self@.active,
    {
        self.active
    }

    /// Get a register from a register address
    ///
    /// # Arguments
    ///
    /// * `addr` -  address to the register. `None` means the default, `"0`
    pub fn register(&self, addr: Option<RegisterAddress>) -> (r: &Register)
        ensures
            r@ == self@.register(AddressView::or_default(view_option(addr))),
    {
        match RegisterAddress::or_default(addr) {
            RegisterAddress::Numeric(n) => &self.numeric[shift_backward(
                n,
                self.pointer,
            ).get() as usize],
            RegisterAddress::Named(n) => &self.named[n.get() as usize],
        }
    }

    /// The address that the register pointer selects: `"0` if it is not set
    pub fn get_active(&self) -> (r: RegisterAddress)
        ensures
            r@ == self@.selected(),
            self@.wf(),
    {
        RegisterAddress::or_default(self.active)
    }

    fn advance_pointer(&mut self)
        ensures
            final(self)@ == old(self)@.shifted(),
    {
        let p = self.pointer;
        proof {
            use_type_invariant(&p);
        }
        self.pointer = shift_forward(p, NumericT::new(1).unwrap());
        assert(self@ =~= old(self)@.shifted());
    }

    /// Get the data contained in a register
    ///
    /// # Arguments
    ///
    /// * `addr` -  address to the register to paste from. `None` means the default, `"0`
    /// * `mime` -  MIME type to get
    ///
    /// # Returns
    ///
    /// If the MIME type exists in the register, `Ok(buffer)` where `buffer` contains the data.
    /// Otherwise `Err`.
    pub fn paste_from(&self, addr: Option<RegisterAddress>, mime: &MimeType) -> (r: Result<
        &DataBuffer,
        Error,
    >)
        ensures
            ({
                let a = AddressView::or_default(view_option(addr));
                match r {
                    Ok(data) => self@.register(a).get(mime@) == Some(data@),
                    Err(e) => self@.register(a).get(mime@) is None && e@ == missing_mime_text(
                        a,
                        mime@,
                    ),
                }
            }),
    {
        match self.register(addr).get(mime) {
            Some(data) => Ok(data),
            None => {
                let mut e = "Register ".to_owned();
                let raw_addr = RegisterAddress::or_default(addr).debug_string();
                e.append(raw_addr.as_str());
                e.append(" does not contain MIME type ");
                e.append(mime.as_str());
                Err(e)
            },
        }
    }

    /// Get data from the currently active register
    ///
    /// # Arguments
    ///
    /// * `mime` -  MIME type to get
    ///
    /// # Returns
    ///
    /// If the MIME type exists in the register, `Ok(buffer)` where `buffer` contains the data.
    /// Otherwise `Err`.
    pub fn paste(&self, mime: &MimeType) -> (r: Result<&DataBuffer, Error>)
        ensures
            match r {
                Ok(data) => self@.register(self@.selected()).get(mime@) == Some(data@),
                Err(e) => {
                    &&& self@.register(self@.selected()).get(mime@) is None
                    &&& e@ == missing_mime_text(self@.selected(), mime@)
                },
            },
    {
        self.paste_from(self.active, mime)
    }

    /// Yank data of multiple MIME types into a register
    ///
    /// # Arguments
    ///
    /// * `addr` -  address to the register to yank into. `None` means the default, `"0`
    /// * `pastes` - an iterator over `(MIME, buffer)` tuples
    ///
    /// # Returns
    ///
    /// `Ok(n)` where `n` is the total number of bytes yanked if successful,
    /// otherwise `Err`.
    pub fn yank_into<T>(&mut self, addr: Option<RegisterAddress>, pastes: T) -> (r: Result<
        usize,
        Error,
    >) where T: Iterator<Item = (MimeType, DataBuffer)>
        requires
            pastes.obeys_prophetic_iter_laws(),
            pastes.decrease() is Some,
            total(pastes.remaining()) <= usize::MAX,
        ensures
            r matches Ok(n) && n == total(pastes.remaining()),
            final(self)@ == old(self)@.yanked(
                AddressView::or_default(view_option(addr)),
                stored(pastes.remaining()),
            ),
    {
        let addr = RegisterAddress::or_default(addr);
        if let RegisterAddress::Numeric(_) = addr {
            self.advance_pointer();
        }
        let ghost before = self@;
        let p = self.pointer;
        proof {
            use_type_invariant(&p);
        }
        let reg = match addr {
            RegisterAddress::Numeric(n) => &mut self.numeric[shift_backward(n, p).get() as usize],
            RegisterAddress::Named(n) => &mut self.named[n.get() as usize],
        };
        reg.clear();
        let bytes = fill(reg, pastes);
        assert(self@ =~= before.with(addr@, stored(pastes.remaining())));
        Ok(bytes)
    }

    /// Yank data of a single MIME type into a register
    ///
    /// # Arguments
    ///
    /// * `addr` -  address to the register to yank into. `None` means the default, `"0`
    /// * `paste` - the MIME type of the data and a buffer where it is stored
    ///
    /// # Returns
    ///
    /// `Ok(n)` where `n` is the total number of bytes yanked if successful,
    /// otherwise `Err`.
    pub fn yank_one_into(
        &mut self,
        addr: Option<RegisterAddress>,
        paste: (MimeType, DataBuffer),
    ) -> (r: Result<usize, Error>)
        ensures
            r matches Ok(n) && n == paste.1@.len(),
            final(self)@ == old(self)@.yanked(
                AddressView::or_default(view_option(addr)),
                Contents::empty().put(paste.0@, paste.1@),
            ),
    {
        let mut pastes: Vec<(MimeType, DataBuffer)> = Vec::new();
        pastes.push(paste);
        proof {
            reveal_with_fuel(stored, 2);
            reveal_with_fuel(total, 2);
            assert(pastes@.drop_last() =~= Seq::empty());
            assert(paste.1.len() <= usize::MAX);
        }
        self.yank_into(addr, pastes.into_iter())
    }

    /// Yank data of multiple MIME types into the currently active register
    ///
    /// # Arguments
    ///
    /// * `pastes` - an iterator over `(MIME, buffer)` tuples
    ///
    /// # Returns
    ///
    /// `Ok(n)` where `n` is the total number of bytes yanked if successful,
    /// otherwise `Err`.
    pub fn yank<T>(&mut self, pastes: T) -> (r: Result<usize, Error>) where
        T: Iterator<Item = (MimeType, DataBuffer)>,

        requires
            pastes.obeys_prophetic_iter_laws(),
            pastes.decrease() is Some,
            total(pastes.remaining()) <= usize::MAX,
        ensures
            r matches Ok(n) && n == total(pastes.remaining()),
            final(self)@ == old(self)@.yanked(old(self)@.selected(), stored(pastes.remaining())),
    {
        self.yank_into(self.active, pastes)
    }

    /// Yank data of a single MIME type into the currently active register
    ///
    /// # Arguments
    ///
    /// * `paste` - the MIME type of the data and a buffer where it is stored
    ///
    /// # Returns
    ///
    /// `Ok(n)` where `n` is the total number of bytes yanked if successful,
    /// otherwise `Err`.
    pub fn yank_one(&mut self, paste: (MimeType, DataBuffer)) -> (r: Result<usize, Error>)
        ensures
            r matches Ok(n) && n == paste.1@.len(),
            final(self)@ == old(self)@.yanked(
                old(self)@.selected(),
                Contents::empty().put(paste.0@, paste.1@),
            ),
    {
        self.yank_one_into(self.active, paste)
    }

    /// Replace what a register holds
    fn store(&mut self, addr: RegisterAddress, reg: Register)
        ensures
            final(self)@ == old(self)@.with(addr@, reg@),
    {
        let p = self.pointer;
        proof {
            use_type_invariant(&p);
        }
        let slot = match addr {
            RegisterAddress::Numeric(n) => {
                proof {
                    use_type_invariant(&n);
                }
                &mut self.numeric[shift_backward(n, p).get() as usize]
            },
            RegisterAddress::Named(n) => &mut self.named[n.get() as usize],
        };
        *slot = reg;
        assert(self@ =~= old(self)@.with(addr@, reg@));
    }

    /// Keep something that was copied. It goes in `"0`, pushing any previous clippings to the next
    /// higher register. If the register pointer is set, it is also stored in the register that
    /// the pointer is set to.
    ///
    /// # Arguments
    ///
    /// * `pastes` - an iterator over `(MIME, buffer)` tuples
    ///
    /// # Returns
    ///
    /// `Ok(n)` where `n` is the total number of bytes copied if successful,
    /// otherwise `Err`.
    pub fn clip<T>(&mut self, pastes: T) -> (r: Result<usize, Error>) where
        T: Iterator<Item = (MimeType, DataBuffer)>,

        requires
            pastes.obeys_prophetic_iter_laws(),
            pastes.decrease() is Some,
            total(pastes.remaining()) <= usize::MAX,
        ensures
            r matches Ok(n) && n == total(pastes.remaining()),
            final(self)@ == old(self)@.clipped(stored(pastes.remaining())),
    {
        let r = self.yank_into(None, pastes);
        if let Some(addr) = self.active {
            let reg = self.register(None).clone();
            self.store(addr, reg);
        }
        r
    }

    /// Summarize the contents of all registers
    ///
    /// # Returns
    ///
    /// `Ok(m)` where `m` lists, in ascending order, the addresses of the registers that hold
    /// something with summaries of their contents if successful, otherwise `Err`.
    pub fn list(&self) -> (r: Result<Vec<(RegisterAddress, RegisterSummary)>, Error>)
        ensures
            r matches Ok(m) && view_listing(m@) == self@.listing(),
    {
        let mut out: Vec<(RegisterAddress, RegisterSummary)> = Vec::new();
        let addrs = RegisterAddress::iter();
        for i in 0..addrs.len()
            invariant
                addrs@.len() == crate::address::n_registers(),
                forall|j: int|
                    0 <= j < addrs@.len() ==> #[trigger] addrs@[j]@ == AddressView::nth(j),
                view_listing(out@) == self@.listing_of(i as int),
        {
            let addr = addrs[i];
            let reg = self.register(Some(addr));
            let ghost before = out@;
            if !reg.is_empty() {
                out.push((addr, reg.summarize()));
                assert(view_listing(out@) =~= view_listing(before).push(
                    (addr@, crate::register::summary(reg@)),
                ));
            }
        }
        Ok(out)
    }
}

impl Default for Pincer {
    fn default() -> (r: Pincer)
        ensures
            r@ == PincerView::fresh(),
    {
        Pincer::new()
    }
}

/// The seats whose clipboards are managed, in the order in which they were encountered
#[derive(Debug)]
pub struct SeatPincerMap {
    map: Assoc<SeatIdentifier, Pincer>,
}

impl View for SeatPincerMap {
    type V = Dict<Seq<char>, PincerView>;

    closed spec fn view(&self) -> Dict<Seq<char>, PincerView> {
        self.map@
    }
}

impl SeatPincerMap {
    /// Every seat is listed once.
    #[verifier::type_invariant]
    pub open spec fn wf(self) -> bool {
        self@.wf()
    }

    /// No seat is managed
    pub fn new() -> (r: SeatPincerMap)
        ensures
            r@ == Dict::<Seq<char>, PincerView>::empty(),
    {
        SeatPincerMap { map: Assoc::new() }
    }

    /// The number of seats
    pub fn len(&self) -> (r: usize)
        ensures
            r == self@.keys.len(),
    {
        self.map.len()
    }

    /// The Pincer of a seat, if the seat is managed
    pub fn get(&self, seat: &SeatIdentifier) -> (r: Option<&Pincer>)
        ensures
            match r {
                Some(pincer) => self@.get(seat@) == Some(pincer@),
                None => self@.get(seat@) is None,
            },
    {
        proof {
            use_type_invariant(self);
        }
        self.map.get(seat)
    }

    /// Give a seat a Pincer
    ///
    /// # Returns
    ///
    /// The Pincer that the seat had before, if any.
    pub fn insert(&mut self, seat: SeatIdentifier, pincer: Pincer) -> (r: Option<Pincer>)
        ensures
            final(self)@ == old(self)@.put(seat@, pincer@),
            match r {
                Some(before) => old(self)@.get(seat@) == Some(before@),
                None => old(self)@.get(seat@) is None,
            },
    {
        let mut map = self.take();
        let r = map.insert(seat, pincer);
        self.map = map;
        r
    }

    /// Take a seat's Pincer away
    ///
    /// # Returns
    ///
    /// The Pincer that the seat had, if any.
    pub fn remove(&mut self, seat: &SeatIdentifier) -> (r: Option<Pincer>)
        ensures
            final(self)@ == old(self)@.without(seat@),
            match r {
                Some(before) => old(self)@.get(seat@) == Some(before@),
                None => old(self)@.get(seat@) is None,
            },
    {
        let mut map = self.take();
        let r = map.remove(seat);
        self.map = map;
        r
    }

    /// Take all seats out
    pub(crate) fn take(&mut self) -> (r: Assoc<SeatIdentifier, Pincer>)
        ensures
            r@ == old(self)@,
            r.wf(),
    {
        proof {
            use_type_invariant(&*self);
        }
        let mut map = Assoc::new();
        std::mem::swap(&mut map, &mut self.map);
        map
    }

    /// The seats with these Pincers
    pub(crate) fn from_map(map: Assoc<SeatIdentifier, Pincer>) -> (r: SeatPincerMap)
        requires
            map.wf(),
        ensures
            r@ == map@,
    {
        SeatPincerMap { map }
    }
}

impl Default for SeatPincerMap {
    fn default() -> (r: SeatPincerMap)
        ensures
            r@ == Dict::<Seq<char>, PincerView>::empty(),
    {
        SeatPincerMap::new()
    }
}

/// The place `x + y` on a circle of numeric registers.
pub open spec fn shifted_up(x: int, y: int) -> int {
    (x + y) % (N_NUMERIC as int)
}

/// The place `x - y` on a circle of numeric registers.
pub open spec fn shifted_back(x: int, y: int) -> int {
    (x - y) % (N_NUMERIC as int)
}

/// Goes `y` places up on the circle of numeric registers
pub fn shift_forward(x: NumericT, y: NumericT) -> (r: NumericT)
    ensures
        r@ == shifted_up(x@, y@),
{
    NumericT::new((x.get() + y.get()) % (NumericT::MAX_VALUE + 1)).unwrap()
}

/// Goes `y` places down on the circle of numeric registers
pub fn shift_backward(x: NumericT, y: NumericT) -> (r: NumericT)
    ensures
        r@ == shifted_back(x@, y@),
{
    let n = NumericT::MAX_VALUE + 1;
    NumericT::new((x.get() + n - y.get()) % n).unwrap()
}

} // verus!
