//! Money as a whole number of cents, with exact arithmetic and two ways of
//! writing an amount.

use crate::text::{append_decimal, append_two_digits, decimal, two_digits};
use std::cmp::Ordering;
use std::ops::{Add, AddAssign, Div, Neg, Sub, SubAssign};
use vstd::prelude::*;
use vstd::std_specs::cmp::{PartialEqSpecImpl, PartialOrdSpecImpl};
use vstd::std_specs::convert::FromSpecImpl;
use vstd::std_specs::ops::{AddSpecImpl, DivSpecImpl, NegSpecImpl, SubSpecImpl};

verus! {

/// An amount of money, held as a signed count of cents. Its view is that
/// count.
#[derive(Clone, Copy, Debug, Eq, Ord)]
pub struct Currency {
    amount: i64,
}

/// Why an operation on money was refused.
#[derive(Clone, Copy, Debug, PartialEq, Eq, Structural)]
pub enum CurrencyError {
    /// The divisor was zero.
    DivisionByZero,
}

impl View for Currency {
    type V = int;

    closed spec fn view(&self) -> int {
        self.amount as int
    }
}

/// Whether `cents` can be held by a `Currency`.
pub open spec fn representable(cents: int) -> bool {
    i64::MIN <= cents <= i64::MAX
}

/// The size of `cents` without its sign.
pub open spec fn magnitude(cents: int) -> nat {
    if cents < 0 {
        (-cents) as nat
    } else {
        cents as nat
    }
}

/// `a` divided by `b`, rounded toward zero. Meant for `b != 0`.
pub open spec fn quotient_toward_zero(a: int, b: int) -> int {
    if (a < 0) == (b < 0) {
        (magnitude(a) / magnitude(b)) as int
    } else {
        -((magnitude(a) / magnitude(b)) as int)
    }
}

/// The digits of an amount: whole units, a point, and two digits of cents.
pub open spec fn amount_text(cents: int) -> Seq<char> {
    decimal(magnitude(cents) / 100) + seq!['.'] + two_digits(magnitude(cents) % 100)
}

/// An amount written with a dollar sign, and a minus sign before it when
/// the amount is negative.
pub open spec fn numeric_text(cents: int) -> Seq<char> {
    if cents < 0 {
        seq!['-', '$'] + amount_text(cents)
    } else {
        seq!['$'] + amount_text(cents)
    }
}

/// An amount written as accountants do: without a currency sign, and in
/// parentheses when it is negative.
pub open spec fn accounting_text(cents: int) -> Seq<char> {
    if cents < 0 {
        seq!['('] + amount_text(cents) + seq![')']
    } else {
        amount_text(cents)
    }
}

impl Currency {
    /// The amount of `cents` cents. Meant for a count that a `Currency` can
    /// hold.
    pub closed spec fn of_cents(cents: int) -> Currency {
        Currency { amount: cents as i64 }
    }

    /// An amount is known by its count of cents: `of_cents` and the view
    /// undo each other.
    pub proof fn lemma_of_cents(c: Currency, cents: int)
        ensures
            Currency::of_cents(c@) == c,
            representable(c@),
            representable(cents) ==> Currency::of_cents(cents)@ == cents,
    {
    }

    /// The amount of `amount` cents.
    pub fn new(amount: i64) -> (c: Self)
        ensures
            c@ == amount,
            c == Currency::of_cents(amount as int),
    {
        Currency { amount }
    }

    /// Replaces the amount and returns by how much it changed: the new
    /// amount less the old one, which must be a number that fits.
    pub fn set(&mut self, amount: i64) -> (delta: i64)
        requires
            representable(amount - old(self)@),
        ensures
            final(self)@ == amount,
            delta == amount - old(self)@,
    {
        let ret = amount - self.amount;
        self.amount = amount;
        ret
    }

    /// The amount in cents.
    pub fn get(&self) -> (amount: i64)
        ensures
            amount == self@,
    {
        self.amount
    }

    /// The size of the amount without its sign, in cents.
    fn unsigned(&self) -> (m: u64)
        ensures
            m == magnitude(self@),
    {
        if self.amount >= 0 {
            self.amount as u64
        } else {
            (-(self.amount + 1)) as u64 + 1
        }
    }

    /// Appends the digits of the amount to `s`.
    fn append_amount(&self, s: &mut String)
        ensures
            final(s)@ == old(s)@ + amount_text(self@),
    {
        let m = self.unsigned();
        append_decimal(s, m / 100);
        s.append(".");
        append_two_digits(s, m % 100);
        proof {
            reveal_strlit(".");
        }
    }

    /// The amount with a dollar sign, as in `$15.60` and `-$15.60`.
    pub fn to_string_numeric(&self) -> (s: String)
        ensures
            s@ == numeric_text(self@),
    {
        let mut s = if self.amount < 0 {
            String::from_str("-$")
        } else {
            String::from_str("$")
        };
        self.append_amount(&mut s);
        proof {
            reveal_strlit("-$");
            reveal_strlit("$");
        }
        s
    }

    /// The amount as accountants write it, as in `15.60` and `(15.60)`.
    pub fn to_string_accounting(&self) -> (s: String)
        ensures
            s@ == accounting_text(self@),
    {
        let mut s = if self.amount < 0 {
            String::from_str("(")
        } else {
            String::new()
        };
        self.append_amount(&mut s);
        if self.amount < 0 {
            s.append(")");
        }
        proof {
            reveal_strlit("(");
            reveal_strlit(")");
        }
        s
    }
}

impl Default for Currency {
    fn default() -> (c: Self)
        ensures
            c@ == 0,
    {
        Currency { amount: 0 }
    }
}

impl PartialEq for Currency {
    fn eq(&self, other: &Self) -> (r: bool) {
        self.amount == other.amount
    }
}

impl PartialEqSpecImpl for Currency {
    open spec fn obeys_eq_spec() -> bool {
        true
    }

    open spec fn eq_spec(&self, other: &Self) -> bool {
        self@ == other@
    }
}

impl PartialOrd for Currency {
    fn partial_cmp(&self, other: &Self) -> (r: Option<Ordering>) {
        if self.amount < other.amount {
            Some(Ordering::Less)
        } else if self.amount == other.amount {
            Some(Ordering::Equal)
        } else {
            Some(Ordering::Greater)
        }
    }
}

impl PartialOrdSpecImpl for Currency {
    open spec fn obeys_partial_cmp_spec() -> bool {
        true
    }

    open spec fn partial_cmp_spec(&self, other: &Self) -> Option<Ordering> {
        if self@ < other@ {
            Some(Ordering::Less)
        } else if self@ == other@ {
            Some(Ordering::Equal)
        } else {
            Some(Ordering::Greater)
        }
    }
}

impl From<i64> for Currency {
    fn from(amount: i64) -> (r: Self)
        ensures
            r@ == amount,
    {
        Currency::new(amount)
    }
}

impl FromSpecImpl<i64> for Currency {
    open spec fn obeys_from_spec() -> bool {
        true
    }

    open spec fn from_spec(amount: i64) -> Self {
        Currency::of_cents(amount as int)
    }
}

impl From<&i64> for Currency {
    fn from(amount: &i64) -> (r: Self)
        ensures
            r@ == *amount,
    {
        Currency::new(*amount)
    }
}

impl FromSpecImpl<&i64> for Currency {
    open spec fn obeys_from_spec() -> bool {
        true
    }

    open spec fn from_spec(amount: &i64) -> Self {
        Currency::of_cents(*amount as int)
    }
}

impl From<&mut i64> for Currency {
    fn from(amount: &mut i64) -> (r: Self)
        ensures
            r@ == *old(amount),
            *final(amount) == *old(amount),
    {
        Currency::new(*amount)
    }
}

impl FromSpecImpl<&mut i64> for Currency {
    open spec fn obeys_from_spec() -> bool {
        true
    }

    open spec fn from_spec(amount: &mut i64) -> Self {
        Currency::of_cents(*amount as int)
    }
}

impl From<Currency> for i64 {
    fn from(curr: Currency) -> (r: Self)
        ensures
            r == curr@,
    {
        curr.amount
    }
}

impl FromSpecImpl<Currency> for i64 {
    open spec fn obeys_from_spec() -> bool {
        true
    }

    open spec fn from_spec(curr: Currency) -> Self {
        curr@ as i64
    }
}

impl From<&Currency> for i64 {
    fn from(curr: &Currency) -> (r: Self)
        ensures
            r == curr@,
    {
        curr.amount
    }
}

impl FromSpecImpl<&Currency> for i64 {
    open spec fn obeys_from_spec() -> bool {
        true
    }

    open spec fn from_spec(curr: &Currency) -> Self {
        curr@ as i64
    }
}

impl From<&mut Currency> for i64 {
    fn from(curr: &mut Currency) -> (r: Self)
        ensures
            r == old(curr)@,
            *final(curr) == *old(curr),
    {
        curr.amount
    }
}

impl FromSpecImpl<&mut Currency> for i64 {
    open spec fn obeys_from_spec() -> bool {
        true
    }

    open spec fn from_spec(curr: &mut Currency) -> Self {
        curr@ as i64
    }
}

impl Neg for Currency {
    type Output = Currency;

    /// The amount with its sign turned. The least amount has no negation
    /// that a `Currency` can hold.
    fn neg(self) -> (c: Currency)
        ensures
            c@ == -self@,
    {
        Currency::new(-self.get())
    }
}

impl NegSpecImpl for Currency {
    open spec fn obeys_neg_spec() -> bool {
        true
    }

    open spec fn neg_req(self) -> bool {
        representable(-self@)
    }

    open spec fn neg_spec(self) -> Currency {
        Currency::of_cents(-self@)
    }
}

impl Add<Currency> for Currency {
    type Output = Currency;

    /// The exact sum, which must be an amount that a `Currency` can hold.
    fn add(self, rhs: Currency) -> (c: Currency)
        ensures
            c@ == self@ + rhs@,
    {
        Currency::new(self.amount + rhs.amount)
    }
}

impl AddSpecImpl<Currency> for Currency {
    open spec fn obeys_add_spec() -> bool {
        true
    }

    open spec fn add_req(self, rhs: Currency) -> bool {
        representable(self@ + rhs@)
    }

    open spec fn add_spec(self, rhs: Currency) -> Currency {
        Currency::of_cents(self@ + rhs@)
    }
}

impl<'a> Add<&'a Currency> for &'a Currency {
    type Output = Currency;

    /// The exact sum, which must be an amount that a `Currency` can hold.
    fn add(self, rhs: &'a Currency) -> (c: Currency)
        ensures
            c@ == self@ + rhs@,
    {
        Currency::new(self.amount + rhs.amount)
    }
}

impl<'a> AddSpecImpl<&'a Currency> for &'a Currency {
    open spec fn obeys_add_spec() -> bool {
        true
    }

    open spec fn add_req(self, rhs: &'a Currency) -> bool {
        representable(self@ + rhs@)
    }

    open spec fn add_spec(self, rhs: &'a Currency) -> Currency {
        Currency::of_cents(self@ + rhs@)
    }
}

impl Add<i64> for Currency {
    type Output = Currency;

    /// The exact sum, which must be an amount that a `Currency` can hold.
    fn add(self, rhs: i64) -> (c: Currency)
        ensures
            c@ == self@ + rhs,
    {
        Currency::new(self.amount + rhs)
    }
}

impl AddSpecImpl<i64> for Currency {
    open spec fn obeys_add_spec() -> bool {
        true
    }

    open spec fn add_req(self, rhs: i64) -> bool {
        representable(self@ + rhs)
    }

    open spec fn add_spec(self, rhs: i64) -> Currency {
        Currency::of_cents(self@ + rhs)
    }
}

impl<'a> Add<&'a i64> for &'a Currency {
    type Output = Currency;

    /// The exact sum, which must be an amount that a `Currency` can hold.
    fn add(self, rhs: &'a i64) -> (c: Currency)
        ensures
            c@ == self@ + *rhs,
    {
        Currency::new(self.amount + *rhs)
    }
}

impl<'a> AddSpecImpl<&'a i64> for &'a Currency {
    open spec fn obeys_add_spec() -> bool {
        true
    }

    open spec fn add_req(self, rhs: &'a i64) -> bool {
        representable(self@ + *rhs)
    }

    open spec fn add_spec(self, rhs: &'a i64) -> Currency {
        Currency::of_cents(self@ + *rhs)
    }
}

impl Sub<Currency> for Currency {
    type Output = Currency;

    /// The exact difference, which must be an amount that a `Currency` can hold.
    fn sub(self, rhs: Currency) -> (c: Currency)
        ensures
            c@ == self@ - rhs@,
    {
        Currency::new(self.amount - rhs.amount)
    }
}

impl SubSpecImpl<Currency> for Currency {
    open spec fn obeys_sub_spec() -> bool {
        true
    }

    open spec fn sub_req(self, rhs: Currency) -> bool {
        representable(self@ - rhs@)
    }

    open spec fn sub_spec(self, rhs: Currency) -> Currency {
        Currency::of_cents(self@ - rhs@)
    }
}

impl<'a> Sub<&'a Currency> for &'a Currency {
    type Output = Currency;

    /// The exact difference, which must be an amount that a `Currency` can hold.
    fn sub(self, rhs: &'a Currency) -> (c: Currency)
        ensures
            c@ == self@ - rhs@,
    {
        Currency::new(self.amount - rhs.amount)
    }
}

impl<'a> SubSpecImpl<&'a Currency> for &'a Currency {
    open spec fn obeys_sub_spec() -> bool {
        true
    }

    open spec fn sub_req(self, rhs: &'a Currency) -> bool {
        representable(self@ - rhs@)
    }

    open spec fn sub_spec(self, rhs: &'a Currency) -> Currency {
        Currency::of_cents(self@ - rhs@)
    }
}

impl Sub<i64> for Currency {
    type Output = Currency;

    /// The exact difference, which must be an amount that a `Currency` can hold.
    fn sub(self, rhs: i64) -> (c: Currency)
        ensures
            c@ == self@ - rhs,
    {
        Currency::new(self.amount - rhs)
    }
}

impl SubSpecImpl<i64> for Currency {
    open spec fn obeys_sub_spec() -> bool {
        true
    }

    open spec fn sub_req(self, rhs: i64) -> bool {
        representable(self@ - rhs)
    }

    open spec fn sub_spec(self, rhs: i64) -> Currency {
        Currency::of_cents(self@ - rhs)
    }
}

impl<'a> Sub<&'a i64> for &'a Currency {
    type Output = Currency;

    /// The exact difference, which must be an amount that a `Currency` can hold.
    fn sub(self, rhs: &'a i64) -> (c: Currency)
        ensures
            c@ == self@ - *rhs,
    {
        Currency::new(self.amount - *rhs)
    }
}

impl<'a> SubSpecImpl<&'a i64> for &'a Currency {
    open spec fn obeys_sub_spec() -> bool {
        true
    }

    open spec fn sub_req(self, rhs: &'a i64) -> bool {
        representable(self@ - *rhs)
    }

    open spec fn sub_spec(self, rhs: &'a i64) -> Currency {
        Currency::of_cents(self@ - *rhs)
    }
}

/// Whether dividing `dividend` by `divisor` stays within what a `Currency`
/// can hold. Only the least amount divided by minus one does not.
pub open spec fn divisible(dividend: int, divisor: int) -> bool {
    !(dividend == i64::MIN && divisor == -1)
}

/// What a division returns: the quotient rounded toward zero, or an error
/// when the divisor is zero.
pub open spec fn quotient_or_error(dividend: int, divisor: int) -> Result<Currency, CurrencyError> {
    if divisor == 0 {
        Err(CurrencyError::DivisionByZero)
    } else {
        Ok(Currency::of_cents(quotient_toward_zero(dividend, divisor)))
    }
}

/// Rounding toward zero, told by the floor division of integers: the
/// quotient of the magnitudes, with the sign that the operands give it.
proof fn lemma_quotient_toward_zero(a: int, b: int)
    requires
        b != 0,
    ensures
        quotient_toward_zero(a, b) == if a >= 0 {
            a / b
        } else {
            -((-a) / b)
        },
        representable(a) && divisible(a, b) ==> representable(quotient_toward_zero(a, b)),
{
    let x = magnitude(a) as int;
    let y = magnitude(b) as int;
    if b < 0 {
        assert(x / b == -(x / (-b))) by (nonlinear_arith)
            requires
                x >= 0,
                b < 0,
        ;
    }
    assert(0 <= x / y <= x) by (nonlinear_arith)
        requires
            x >= 0,
            y >= 1,
    ;
    if y == 1 {
        assert(x / 1 == x) by (nonlinear_arith);
    } else {
        assert(x / y < x || x == 0) by (nonlinear_arith)
            requires
                x >= 0,
                y >= 2,
        ;
    }
}

impl Currency {
    /// Divides by a number of cents, rounding toward zero.
    fn divided_by(self, divisor: i64) -> (r: Result<Currency, CurrencyError>)
        requires
            divisible(self@, divisor as int),
        ensures
            r == quotient_or_error(self@, divisor as int),
            divisor != 0 ==> r is Ok && r->Ok_0@ == quotient_toward_zero(self@, divisor as int),
    {
        if divisor == 0 {
            Err(CurrencyError::DivisionByZero)
        } else {
            proof {
                lemma_quotient_toward_zero(self.amount as int, divisor as int);
            }
            Ok(Currency::new(self.amount / divisor))
        }
    }

    /// Divides in place by another amount, rounding toward zero. A zero
    /// divisor is reported and leaves the amount as it was.
    pub fn div_assign(&mut self, rhs: Currency) -> (r: Result<(), CurrencyError>)
        requires
            divisible(old(self)@, rhs@),
        ensures
            rhs@ == 0 ==> r == Err::<(), CurrencyError>(CurrencyError::DivisionByZero)
                && final(self)@ == old(self)@,
            rhs@ != 0 ==> r is Ok && final(self)@ == quotient_toward_zero(old(self)@, rhs@),
    {
        match self.divided_by(rhs.amount) {
            Ok(q) => {
                *self = q;
                Ok(())
            },
            Err(e) => Err(e),
        }
    }

    /// Divides in place by a plain number, rounding toward zero. A zero
    /// divisor is reported and leaves the amount as it was.
    pub fn div_assign_i64(&mut self, rhs: i64) -> (r: Result<(), CurrencyError>)
        requires
            divisible(old(self)@, rhs as int),
        ensures
            rhs == 0 ==> r == Err::<(), CurrencyError>(CurrencyError::DivisionByZero)
                && final(self)@ == old(self)@,
            rhs != 0 ==> r is Ok && final(self)@ == quotient_toward_zero(old(self)@, rhs as int),
    {
        match self.divided_by(rhs) {
            Ok(q) => {
                *self = q;
                Ok(())
            },
            Err(e) => Err(e),
        }
    }
}

impl Div<Currency> for Currency {
    type Output = Result<Currency, CurrencyError>;

    /// The quotient rounded toward zero: what is left over is dropped. A
    /// zero divisor is reported.
    fn div(self, rhs: Currency) -> (r: Result<Currency, CurrencyError>)
        ensures
            rhs@ == 0 <==> r == Err::<Currency, CurrencyError>(CurrencyError::DivisionByZero),
            rhs@ != 0 ==> r is Ok && r->Ok_0@ == quotient_toward_zero(self@, rhs@),
    {
        self.divided_by(rhs.amount)
    }
}

impl DivSpecImpl<Currency> for Currency {
    open spec fn obeys_div_spec() -> bool {
        true
    }

    open spec fn div_req(self, rhs: Currency) -> bool {
        divisible(self@, rhs@)
    }

    open spec fn div_spec(self, rhs: Currency) -> Result<Currency, CurrencyError> {
        quotient_or_error(self@, rhs@)
    }
}

impl<'a> Div<&'a Currency> for &'a Currency {
    type Output = Result<Currency, CurrencyError>;

    /// The quotient rounded toward zero: what is left over is dropped. A
    /// zero divisor is reported.
    fn div(self, rhs: &'a Currency) -> (r: Result<Currency, CurrencyError>)
        ensures
            rhs@ == 0 <==> r == Err::<Currency, CurrencyError>(CurrencyError::DivisionByZero),
            rhs@ != 0 ==> r is Ok && r->Ok_0@ == quotient_toward_zero(self@, rhs@),
    {
        self.divided_by(rhs.amount)
    }
}

impl<'a> DivSpecImpl<&'a Currency> for &'a Currency {
    open spec fn obeys_div_spec() -> bool {
        true
    }

    open spec fn div_req(self, rhs: &'a Currency) -> bool {
        divisible(self@, rhs@)
    }

    open spec fn div_spec(self, rhs: &'a Currency) -> Result<Currency, CurrencyError> {
        quotient_or_error(self@, rhs@)
    }
}

impl Div<i64> for Currency {
    type Output = Result<Currency, CurrencyError>;

    /// The quotient rounded toward zero: what is left over is dropped. A
    /// zero divisor is reported.
    fn div(self, rhs: i64) -> (r: Result<Currency, CurrencyError>)
        ensures
            rhs == 0 <==> r == Err::<Currency, CurrencyError>(CurrencyError::DivisionByZero),
            rhs != 0 ==> r is Ok && r->Ok_0@ == quotient_toward_zero(self@, rhs as int),
    {
        self.divided_by(rhs)
    }
}

impl DivSpecImpl<i64> for Currency {
    open spec fn obeys_div_spec() -> bool {
        true
    }

    open spec fn div_req(self, rhs: i64) -> bool {
        divisible(self@, rhs as int)
    }

    open spec fn div_spec(self, rhs: i64) -> Result<Currency, CurrencyError> {
        quotient_or_error(self@, rhs as int)
    }
}

impl<'a> Div<&'a i64> for &'a Currency {
    type Output = Result<Currency, CurrencyError>;

    /// The quotient rounded toward zero: what is left over is dropped. A
    /// zero divisor is reported.
    fn div(self, rhs: &'a i64) -> (r: Result<Currency, CurrencyError>)
        ensures
            *rhs == 0 <==> r == Err::<Currency, CurrencyError>(CurrencyError::DivisionByZero),
            *rhs != 0 ==> r is Ok && r->Ok_0@ == quotient_toward_zero(self@, *rhs as int),
    {
        self.divided_by(*rhs)
    }
}

impl<'a> DivSpecImpl<&'a i64> for &'a Currency {
    open spec fn obeys_div_spec() -> bool {
        true
    }

    open spec fn div_req(self, rhs: &'a i64) -> bool {
        divisible(self@, *rhs as int)
    }

    open spec fn div_spec(self, rhs: &'a i64) -> Result<Currency, CurrencyError> {
        quotient_or_error(self@, *rhs as int)
    }
}

impl AddAssign<Currency> for Currency {
    /// Adds `rhs` in place.
    fn add_assign(&mut self, rhs: Currency)
        requires
            representable(old(self)@ + rhs@),
        ensures
            final(self)@ == old(self)@ + rhs@,
    {
        *self = *self + rhs;
    }
}

impl AddAssign<i64> for Currency {
    /// Adds `rhs` in place.
    fn add_assign(&mut self, rhs: i64)
        requires
            representable(old(self)@ + rhs),
        ensures
            final(self)@ == old(self)@ + rhs,
    {
        *self = *self + rhs;
    }
}

impl SubAssign<Currency> for Currency {
    /// Takes `rhs` off in place.
    fn sub_assign(&mut self, rhs: Currency)
        requires
            representable(old(self)@ - rhs@),
        ensures
            final(self)@ == old(self)@ - rhs@,
    {
        *self = *self - rhs;
    }
}

impl SubAssign<i64> for Currency {
    /// Takes `rhs` off in place.
    fn sub_assign(&mut self, rhs: i64)
        requires
            representable(old(self)@ - rhs),
        ensures
            final(self)@ == old(self)@ - rhs,
    {
        *self = *self - rhs;
    }
}

} // verus!
