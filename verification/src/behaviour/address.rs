use vstd::prelude::*;

use crate::address::{
    ascii_distance, ascii_shift, called, do_parse_address, is_address_text, n_registers,
    view_option, AddressView, NamedT, NumericT, RegisterAddress,
};
use crate::text::{decimal, decimal_string};

verus! {

/// The characters `0` through `9` call the numeric registers, and `a` through `z` the named ones.
/// No other text is an address.
pub proof fn law_addresses_are_called(s: Seq<char>)
    ensures
        is_address_text(s) <==> s.len() == 1 && ('0' <= s[0] <= '9' || 'a' <= s[0] <= 'z'),
        '0' <= s[0] <= '9' ==> called(s[0]) == AddressView::Numeric(s[0] as int - '0' as int),
        'a' <= s[0] <= 'z' ==> called(s[0]) == AddressView::Named(s[0] as int - 'a' as int),
{
}

/// The first character of a text is read as an address, and the rest is left.
pub proof fn law_addresses_are_read_at_the_start(s: &str, r: Option<(&str, RegisterAddress)>)
    requires
        call_ensures(do_parse_address, (s,), r),
    ensures
        s@.len() > 0 && '0' <= s@[0] <= '9' ==> (r matches Some((rest, a)) && a@
            == AddressView::Numeric(s@[0] as int - '0' as int) && rest@ == s@.skip(1)),
        s@.len() > 0 && 'a' <= s@[0] <= 'z' ==> (r matches Some((rest, a)) && a@
            == AddressView::Named(s@[0] as int - 'a' as int) && rest@ == s@.skip(1)),
        s@.len() == 0 || !('0' <= s@[0] <= '9' || 'a' <= s@[0] <= 'z') ==> r is None,
{
}

/// An address is written as a quotation mark and the character that calls the register.
pub proof fn law_addresses_are_written(a: &RegisterAddress, r: String)
    requires
        call_ensures(RegisterAddress::to_string, (a,), r),
    ensures
        r@.len() == 2,
        r@[0] == '"',
        match a@ {
            AddressView::Numeric(n) => 0 <= n < 10 && r@[1] as int == '0' as int + n,
            AddressView::Named(n) => 0 <= n < 26 && r@[1] as int == 'a' as int + n,
        },
{
}

/// Reading what was written, without the quotation mark, gives the address back and leaves nothing.
pub proof fn law_written_addresses_are_read_back(
    a: &RegisterAddress,
    written: String,
    s: &str,
    r: Option<(&str, RegisterAddress)>,
)
    requires
        call_ensures(RegisterAddress::to_string, (a,), written),
        s@ == written@.skip(1),
        call_ensures(do_parse_address, (s,), r),
    ensures
        r matches Some((rest, b)) && b@ == a@ && rest@.len() == 0,
        is_address_text(s@) && called(s@[0]) == a@,
{
    law_addresses_are_written(a, written);
    law_addresses_are_read_at_the_start(s, r);
    law_addresses_are_called(s@);
}

/// The addresses of all registers: those of the ten numeric ones, then those of the twenty-six
/// named ones.
pub proof fn law_all_addresses_are_given(
    all: Vec<RegisterAddress>,
    numeric: Vec<RegisterAddress>,
    named: Vec<RegisterAddress>,
    i: int,
)
    requires
        call_ensures(RegisterAddress::iter, (), all),
        call_ensures(RegisterAddress::iter_numeric, (), numeric),
        call_ensures(RegisterAddress::iter_named, (), named),
    ensures
        all@.len() == 36 && numeric@.len() == 10 && named@.len() == 26,
        0 <= i < 10 ==> all@[i]@ == AddressView::Numeric(i) && numeric@[i]@ == AddressView::Numeric(
            i,
        ),
        0 <= i < 26 ==> all@[10 + i]@ == AddressView::Named(i) && named@[i]@ == AddressView::Named(
            i,
        ),
{
}

/// Numeric registers are counted before named ones.
pub proof fn law_places_of_addresses(n: int)
    ensures
        n_registers() == 36,
        AddressView::Numeric(n).rank() == n,
        AddressView::Named(n).rank() == 10 + n,
        0 <= n < 10 ==> AddressView::nth(n) == AddressView::Numeric(n),
        10 <= n < 36 ==> AddressView::nth(n) == AddressView::Named(n - 10),
{
}

/// Where no address is given `"0` is meant.
pub proof fn law_missing_address_is_the_first(
    addr: Option<RegisterAddress>,
    r: RegisterAddress,
    default: RegisterAddress,
)
    requires
        call_ensures(RegisterAddress::or_default, (addr,), r),
        call_ensures(<RegisterAddress as Default>::default, (), default),
    ensures
        addr matches Some(a) ==> r@ == a@,
        addr is None ==> r@ == AddressView::Numeric(0),
        default@ == AddressView::Numeric(0),
        addr matches Some(a) ==> view_option(addr) == Some(a@),
        addr is None ==> view_option(addr) is None,
{
}

/// A number of a register is accepted if and only if there is such a register, and stays the same.
pub proof fn law_numbers_of_registers(
    n: u8,
    numeric: Option<NumericT>,
    named: Option<NamedT>,
    x: u8,
    y: u8,
)
    requires
        call_ensures(NumericT::new, (n,), numeric),
        call_ensures(NamedT::new, (n,), named),
        numeric matches Some(a) ==> call_ensures(NumericT::get, (a,), x),
        named matches Some(b) ==> call_ensures(NamedT::get, (b,), y),
    ensures
        numeric is Some <==> n < 10,
        named is Some <==> n < 26,
        n < 10 ==> x == n && numeric->0@ == n,
        n < 26 ==> y == n && named->0@ == n,
{
}

/// The character that comes as far after another one as they are apart is the first one.
pub proof fn law_shift_undoes_distance(a: char, b: char, d: Option<u8>, r: Option<char>)
    requires
        a >= b,
        a as int <= 255,
        call_ensures(ascii_distance, (a, b), d),
        d is Some,
        call_ensures(ascii_shift, (b, d->0), r),
    ensures
        r == Some(a),
{
}

/// A distance is told unless it is too great for a byte.
pub proof fn law_distance_is_told(a: char, b: char, d: Option<u8>)
    requires
        a >= b,
        call_ensures(ascii_distance, (a, b), d),
    ensures
        a as int - b as int <= 255 ==> d is Some && d->0 == a as int - b as int,
        a as int - b as int > 255 ==> d is None,
{
}

/// How an address is written in error messages.
pub proof fn law_addresses_in_error_messages(a: &RegisterAddress, r: String)
    requires
        call_ensures(RegisterAddress::debug_string, (a,), r),
    ensures
        r@ == a@.debug_text(),
        a@ matches AddressView::Numeric(n) ==> 0 <= n < 10 ==> r@ == "Numeric(Bounded("@ + seq![
            ('0' as int + n) as char,
        ] + "))"@,
        a@ matches AddressView::Named(n) ==> 0 <= n < 26 ==> r@ == "Named(Bounded("@ + decimal(
            n as nat,
        ) + "))"@,
{
}

/// The number that a sequence of decimal digits stands for.
pub open spec fn number_of(digits: Seq<char>) -> int
    decreases digits.len(),
{
    if digits.len() == 0 {
        0
    } else {
        number_of(digits.drop_last()) * 10 + (digits.last() as int - '0' as int)
    }
}

/// A number is written in decimal digits that stand for it, without leading zeros.
pub proof fn law_numbers_are_written(n: u32, r: String)
    requires
        call_ensures(decimal_string, (n,), r),
    ensures
        number_of(r@) == n,
        forall|i: int| 0 <= i < r@.len() ==> '0' <= #[trigger] r@[i] <= '9',
        r@.len() > 0,
        r@.len() > 1 ==> r@[0] != '0',
{
    law_decimal_notation(n as nat);
}

/// The decimal notation of a number has digits that stand for it, and no leading zeros.
pub proof fn law_decimal_notation(n: nat)
    ensures
        number_of(decimal(n)) == n,
        forall|i: int| 0 <= i < decimal(n).len() ==> '0' <= #[trigger] decimal(n)[i] <= '9',
        decimal(n).len() > 0,
        decimal(n).len() > 1 ==> decimal(n)[0] != '0',
        n > 0 ==> decimal(n)[0] != '0',
        n < 10 ==> decimal(n) == seq![('0' as int + n) as char],
        n >= 10 ==> decimal(n) == decimal(n / 10).push(('0' as int + n % 10) as char),
    decreases n,
{
    reveal_with_fuel(number_of, 2);
    if n >= 10 {
        law_decimal_notation(n / 10);
        assert(decimal(n).drop_last() =~= decimal(n / 10));
    } else {
        assert(decimal(n).drop_last() =~= Seq::empty());
    }
}

} // verus!
