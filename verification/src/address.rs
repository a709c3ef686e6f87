use std::str::FromStr;

use vstd::prelude::*;
use vstd::string::*;

use crate::error::Error;
use crate::text::decimal_string;

verus! {

/// The number of numeric registers, `"0` through `"9`
pub const N_NUMERIC: u8 = 10;

/// The number of named registers, `"a` through `"z`
pub const N_NAMED: u8 = 26;

pub const ADDRESS_HELP: &'static str = "A character from [0-9a-z]";

/// Calls `BoundedU8::new` of the crate `bounded_integer`, and `get` on what it gives. A number is
/// believed to be accepted if and only if it lies between the bounds, both included, and to keep
/// its value.
#[verifier::external_body]
fn bounded<const MIN: u8, const MAX: u8>(n: u8) -> (r: Option<u8>)
    ensures
        r == (if MIN <= n <= MAX {
            Some(n)
        } else {
            None
        }),
{
    bounded_integer::BoundedU8::<MIN, MAX>::new(n).map(|b| b.get())
}

/// The number of a numeric register
#[derive(Clone, Copy, Debug, PartialEq, Eq, PartialOrd, Ord, Structural)]
pub struct NumericT {
    value: u8,
}

impl View for NumericT {
    type V = int;

    closed spec fn view(&self) -> int {
        self.value as int
    }
}

impl NumericT {
    /// The greatest number of a numeric register.
    pub const MAX_VALUE: u8 = 9;

    /// Every number stays in range.
    #[verifier::type_invariant]
    pub open spec fn in_range(self) -> bool {
        0 <= self@ <= Self::MAX_VALUE
    }

    /// The register number `n`, if there is one.
    pub fn new(n: u8) -> (r: Option<NumericT>)
        ensures
            match r {
                Some(x) => n <= Self::MAX_VALUE && x@ == n,
                None => n > Self::MAX_VALUE,
            },
    {
        match bounded::<0, 9>(n) {
            Some(value) => Some(NumericT { value }),
            None => None,
        }
    }

    /// The register number as a plain number.
    pub fn get(self) -> (r: u8)
        ensures
            r == self@,
            r <= Self::MAX_VALUE,
    {
        proof {
            use_type_invariant(&self);
        }
        self.value
    }
}

/// The position of a named register in the alphabet
#[derive(Clone, Copy, Debug, PartialEq, Eq, PartialOrd, Ord, Structural)]
pub struct NamedT {
    value: u8,
}

impl View for NamedT {
    type V = int;

    closed spec fn view(&self) -> int {
        self.value as int
    }
}

impl NamedT {
    /// The greatest position of a named register.
    pub const MAX_VALUE: u8 = 25;

    /// Every position stays in range.
    #[verifier::type_invariant]
    pub open spec fn in_range(self) -> bool {
        0 <= self@ <= Self::MAX_VALUE
    }

    /// The position `n`, if there is one.
    pub fn new(n: u8) -> (r: Option<NamedT>)
        ensures
            match r {
                Some(x) => n <= Self::MAX_VALUE && x@ == n,
                None => n > Self::MAX_VALUE,
            },
    {
        match bounded::<0, 25>(n) {
            Some(value) => Some(NamedT { value }),
            None => None,
        }
    }

    /// The position as a plain number.
    pub fn get(self) -> (r: u8)
        ensures
            r == self@,
            r <= Self::MAX_VALUE,
    {
        proof {
            use_type_invariant(&self);
        }
        self.value
    }
}

/// What a [`RegisterAddress`] stands for.
pub enum AddressView {
    Numeric(int),
    Named(int),
}

impl AddressView {
    /// There is a register with this address.
    pub open spec fn valid(self) -> bool {
        match self {
            AddressView::Numeric(n) => 0 <= n < N_NUMERIC,
            AddressView::Named(n) => 0 <= n < N_NAMED,
        }
    }

    /// The character by which the register is called.
    pub open spec fn symbol(self) -> char {
        match self {
            AddressView::Numeric(n) => ('0' as int + n) as char,
            AddressView::Named(n) => ('a' as int + n) as char,
        }
    }

    /// The place of the register when the numeric registers are counted first, and
    /// the named registers after them.
    pub open spec fn rank(self) -> int {
        match self {
            AddressView::Numeric(n) => n,
            AddressView::Named(n) => N_NUMERIC + n,
        }
    }

    /// The address at a place.
    pub open spec fn nth(k: int) -> AddressView {
        if k < N_NUMERIC {
            AddressView::Numeric(k)
        } else {
            AddressView::Named(k - N_NUMERIC)
        }
    }

    /// The address that is meant where none is given.
    pub open spec fn or_default(addr: Option<AddressView>) -> AddressView {
        match addr {
            Some(a) => a,
            None => AddressView::Numeric(0),
        }
    }

    /// How the address is written in error messages.
    pub open spec fn debug_text(self) -> Seq<char> {
        match self {
            AddressView::Numeric(n) => "Numeric(Bounded("@ + crate::text::decimal(n as nat)
                + "))"@,
            AddressView::Named(n) => "Named(Bounded("@ + crate::text::decimal(n as nat) + "))"@,
        }
    }
}

/// The number of registers.
pub open spec fn n_registers() -> int {
    N_NUMERIC + N_NAMED
}

/// The text is a single character from `[0-9a-z]`.
pub open spec fn is_address_text(s: Seq<char>) -> bool {
    s.len() == 1 && is_symbol(s[0])
}

/// The character is one of `[0-9a-z]`.
pub open spec fn is_symbol(c: char) -> bool {
    '0' <= c <= '9' || 'a' <= c <= 'z'
}

/// The register that a character from `[0-9a-z]` calls.
pub open spec fn called(c: char) -> AddressView {
    if '0' <= c <= '9' {
        AddressView::Numeric(c as int - '0' as int)
    } else {
        AddressView::Named(c as int - 'a' as int)
    }
}

/// The address of a register
#[derive(Clone, Copy, Debug, PartialEq, Eq, PartialOrd, Ord, Structural)]
pub enum RegisterAddress {
    Numeric(NumericT),
    Named(NamedT),
}

impl View for RegisterAddress {
    type V = AddressView;

    open spec fn view(&self) -> AddressView {
        match self {
            RegisterAddress::Numeric(n) => AddressView::Numeric(n@),
            RegisterAddress::Named(n) => AddressView::Named(n@),
        }
    }
}

/// What an address stands for, where one is given.
pub open spec fn view_option(addr: Option<RegisterAddress>) -> Option<AddressView> {
    match addr {
        Some(a) => Some(a@),
        None => None,
    }
}

impl RegisterAddress {
    /// All addresses: the numeric ones, then the named ones
    pub fn iter() -> (r: Vec<RegisterAddress>)
        ensures
            r@.len() == n_registers(),
            forall|i: int| 0 <= i < r@.len() ==> #[trigger] r@[i]@ == AddressView::nth(i),
    {
        let mut r = Self::iter_numeric();
        let mut named = Self::iter_named();
        r.append(&mut named);
        r
    }

    /// The addresses `"0` through `"9`
    pub fn iter_numeric() -> (r: Vec<RegisterAddress>)
        ensures
            r@.len() == N_NUMERIC,
            forall|i: int| 0 <= i < r@.len() ==> #[trigger] r@[i]@ == AddressView::Numeric(i),
    {
        let mut r: Vec<RegisterAddress> = Vec::new();
        for n in 0..N_NUMERIC
            invariant
                r@.len() == n,
                forall|i: int| 0 <= i < r@.len() ==> #[trigger] r@[i]@ == AddressView::Numeric(i),
        {
            r.push(RegisterAddress::Numeric(NumericT::new(n).unwrap()));
        }
        r
    }

    /// The addresses `"a` through `"z`
    pub fn iter_named() -> (r: Vec<RegisterAddress>)
        ensures
            r@.len() == N_NAMED,
            forall|i: int| 0 <= i < r@.len() ==> #[trigger] r@[i]@ == AddressView::Named(i),
    {
        let mut r: Vec<RegisterAddress> = Vec::new();
        for n in 0..N_NAMED
            invariant
                r@.len() == n,
                forall|i: int| 0 <= i < r@.len() ==> #[trigger] r@[i]@ == AddressView::Named(i),
        {
            r.push(RegisterAddress::Named(NamedT::new(n).unwrap()));
        }
        r
    }

    /// The address the way Vim writes it: a quotation mark, then the character by which
    /// the register is called
    pub fn to_string(&self) -> (r: String)
        ensures
            r@ == seq!['"', self@.symbol()],
            self@.valid(),
    {
        let mut r = String::new();
        r.push('"');
        match *self {
            RegisterAddress::Numeric(n) => {
                r.push(ascii_shift('0', n.get()).unwrap());
            },
            RegisterAddress::Named(n) => {
                r.push(ascii_shift('a', n.get()).unwrap());
            },
        }
        assert(r@ =~= seq!['"', self@.symbol()]);
        r
    }

    /// The address the way it is written in error messages
    pub fn debug_string(&self) -> (r: String)
        ensures
            r@ == self@.debug_text(),
    {
        let (start, n): (&str, u8) = match *self {
            RegisterAddress::Numeric(n) => ("Numeric(Bounded(", n.get()),
            RegisterAddress::Named(n) => ("Named(Bounded(", n.get()),
        };
        let mut r = start.to_owned();
        let number = decimal_string(n as u32);
        r.append(number.as_str());
        r.append("))");
        r
    }

    /// The address that is meant: `"0` where none is given
    pub fn or_default(addr: Option<RegisterAddress>) -> (r: RegisterAddress)
        ensures
            r@ == AddressView::or_default(view_option(addr)),
            r@.valid(),
    {
        let r = match addr {
            Some(a) => a,
            None => RegisterAddress::default(),
        };
        match r {
            RegisterAddress::Numeric(n) => {
                proof {
                    use_type_invariant(&n);
                }
            },
            RegisterAddress::Named(n) => {
                proof {
                    use_type_invariant(&n);
                }
            },
        }
        r
    }
}

impl Default for RegisterAddress {
    fn default() -> (r: RegisterAddress)
        ensures
            r@ == AddressView::Numeric(0),
    {
        RegisterAddress::Numeric(NumericT::new(0).unwrap())
    }
}

/// How far `a` comes after `b`, if that is less than the number of bytes there are
pub fn ascii_distance(a: char, b: char) -> (r: Option<u8>)
    requires
        a >= b,
    ensures
        match r {
            Some(d) => a as int - b as int == d,
            None => a as int - b as int > u8::MAX,
        },
{
    u8::try_from((a as u32) - (b as u32)).ok()
}

/// The character `b` places after `a`, if its number fits in a byte
pub fn ascii_shift(a: char, b: u8) -> (r: Option<char>)
    ensures
        match r {
            Some(c) => a as int + b == c as int && c as int <= u8::MAX,
            None => a as int + b > u8::MAX,
        },
{
    match u8::try_from((a as u32) + (b as u32)).ok() {
        Some(n) => Some(n as char),
        None => None,
    }
}

/// Reads an address at the start of `input`. What is left of the input comes with it.
pub fn do_parse_address(input: &str) -> (r: Option<(&str, RegisterAddress)>)
    ensures
        match r {
            Some((rest, addr)) => {
                &&& input@.len() > 0
                &&& is_symbol(input@[0])
                &&& rest@ == input@.skip(1)
                &&& addr@ == called(input@[0])
            },
            None => input@.len() == 0 || !is_symbol(input@[0]),
        },
{
    let len = input.unicode_len();
    if len == 0 {
        return None;
    }
    let c = input.get_char(0);
    let addr = if '0' <= c && c <= '9' {
        RegisterAddress::Numeric(NumericT::new(ascii_distance(c, '0').unwrap()).unwrap())
    } else if 'a' <= c && c <= 'z' {
        RegisterAddress::Named(NamedT::new(ascii_distance(c, 'a').unwrap()).unwrap())
    } else {
        return None;
    };
    Some((input.substring_char(1, len), addr))
}

impl FromStr for RegisterAddress {
    type Err = Error;

    fn from_str(input: &str) -> (r: Result<RegisterAddress, Error>)
        ensures
            match r {
                Ok(addr) => is_address_text(input@) && addr@ == called(input@[0]),
                Err(e) => !is_address_text(input@) && e@
                    == "Register address must be a single character from [0-9a-z]."@,
            },
    {
        match do_parse_address(input) {
            Some((rest, addr)) if rest.is_empty() => Ok(addr),
            _ => Err("Register address must be a single character from [0-9a-z].".to_owned()),
        }
    }
}

/// Reading what was written, without the quotation mark, gives the address back.
pub proof fn law_parse_undoes_display(a: AddressView)
    requires
        a.valid(),
    ensures
        is_address_text(seq!['"', a.symbol()].skip(1)),
        called(seq!['"', a.symbol()].skip(1)[0]) == a,
{
}

/// Every address text calls a register, and that register is called by no other text.
pub proof fn law_display_undoes_parse(s: Seq<char>)
    requires
        is_address_text(s),
    ensures
        called(s[0]).valid(),
        seq![called(s[0]).symbol()] == s,
{
}

/// Every register has one place among all addresses, and every place one register.
pub proof fn law_addresses_are_counted_once(a: AddressView, k: int)
    ensures
        a.valid() ==> 0 <= a.rank() < n_registers() && AddressView::nth(a.rank()) == a,
        0 <= k < n_registers() ==> AddressView::nth(k).valid() && AddressView::nth(k).rank() == k,
{
}

} // verus!
