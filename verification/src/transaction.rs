//! A transaction: one dated movement of money, with the free texts and the
//! category that describe it, and the order in which transactions are kept.

use crate::currency::{accounting_text, Currency};
use crate::date::{date_of, date_text, DateInstant};
use crate::location::{
    lemma_location_before_connected, lemma_location_before_transitive, location_before,
    location_text, Location, LocationModel,
};
use crate::text::{
    ascii_lowered, is_word_ignoring_case, lemma_text_before_connected,
    lemma_text_before_transitive, str_before, text_before,
};
use std::cmp::Ordering;
use std::convert::TryFrom;
use vstd::prelude::*;
use vstd::std_specs::cmp::{PartialEqSpecImpl, PartialOrdSpecImpl};
use vstd::std_specs::convert::TryFromSpecImpl;

verus! {

/// What a transaction is about. `Other` stands for everything that has no
/// category of its own.
#[derive(Clone, Copy, Debug, PartialEq, Eq, Structural, Ord)]
#[non_exhaustive]
pub enum Category {
    Auto,
    CreditCard,
    Donation,
    Electronics,
    Entertainment,
    Gas,
    Gift,
    Groceries,
    Investment,
    Medical,
    Pay,
    Personal,
    Rent,
    Restaurants,
    Savings,
    School,
    Shopping,
    Subscriptions,
    Taxes,
    Travel,
    Transfer,
    Utilities,
    Other,
}

impl Category {
    /// The place of the category in the order of categories.
    pub open spec fn rank(self) -> nat {
        match self {
            Category::Auto => 0,
            Category::CreditCard => 1,
            Category::Donation => 2,
            Category::Electronics => 3,
            Category::Entertainment => 4,
            Category::Gas => 5,
            Category::Gift => 6,
            Category::Groceries => 7,
            Category::Investment => 8,
            Category::Medical => 9,
            Category::Pay => 10,
            Category::Personal => 11,
            Category::Rent => 12,
            Category::Restaurants => 13,
            Category::Savings => 14,
            Category::School => 15,
            Category::Shopping => 16,
            Category::Subscriptions => 17,
            Category::Taxes => 18,
            Category::Travel => 19,
            Category::Transfer => 20,
            Category::Utilities => 21,
            Category::Other => 22,
        }
    }

    /// The name of the category: its tag in small letters.
    pub open spec fn name(self) -> Seq<char> {
        match self {
            Category::Auto => "auto"@,
            Category::CreditCard => "creditcard"@,
            Category::Donation => "donation"@,
            Category::Electronics => "electronics"@,
            Category::Entertainment => "entertainment"@,
            Category::Gas => "gas"@,
            Category::Gift => "gift"@,
            Category::Groceries => "groceries"@,
            Category::Investment => "investment"@,
            Category::Medical => "medical"@,
            Category::Pay => "pay"@,
            Category::Personal => "personal"@,
            Category::Rent => "rent"@,
            Category::Restaurants => "restaurants"@,
            Category::Savings => "savings"@,
            Category::School => "school"@,
            Category::Shopping => "shopping"@,
            Category::Subscriptions => "subscriptions"@,
            Category::Taxes => "taxes"@,
            Category::Travel => "travel"@,
            Category::Transfer => "transfer"@,
            Category::Utilities => "utilities"@,
            Category::Other => "other"@,
        }
    }

    fn index(&self) -> (i: u8)
        ensures
            i == self.rank(),
    {
        match self {
            Category::Auto => 0,
            Category::CreditCard => 1,
            Category::Donation => 2,
            Category::Electronics => 3,
            Category::Entertainment => 4,
            Category::Gas => 5,
            Category::Gift => 6,
            Category::Groceries => 7,
            Category::Investment => 8,
            Category::Medical => 9,
            Category::Pay => 10,
            Category::Personal => 11,
            Category::Rent => 12,
            Category::Restaurants => 13,
            Category::Savings => 14,
            Category::School => 15,
            Category::Shopping => 16,
            Category::Subscriptions => 17,
            Category::Taxes => 18,
            Category::Travel => 19,
            Category::Transfer => 20,
            Category::Utilities => 21,
            Category::Other => 22,
        }
    }

    /// The name of the category, as in `restaurants`.
    pub fn to_string(&self) -> (s: String)
        ensures
            s@ == self.name(),
    {
        let s = match self {
            Self::Auto => "auto",
            Self::CreditCard => "creditcard",
            Self::Donation => "donation",
            Self::Electronics => "electronics",
            Self::Entertainment => "entertainment",
            Self::Gas => "gas",
            Self::Gift => "gift",
            Self::Groceries => "groceries",
            Self::Investment => "investment",
            Self::Medical => "medical",
            Self::Pay => "pay",
            Self::Personal => "personal",
            Self::Rent => "rent",
            Self::Restaurants => "restaurants",
            Self::Savings => "savings",
            Self::School => "school",
            Self::Shopping => "shopping",
            Self::Subscriptions => "subscriptions",
            Self::Taxes => "taxes",
            Self::Travel => "travel",
            Self::Transfer => "transfer",
            Self::Utilities => "utilities",
            Self::Other => "other",
        };
        String::from_str(s)
    }
}

/// The category that `name` names. The names that can be parsed are those
/// of all categories but `Other`: `other` is not among them.
pub open spec fn category_named(name: Seq<char>) -> Option<Category> {
    if exists|c: Category| c != Category::Other && c.name() == name {
        Some(choose|c: Category| c != Category::Other && c.name() == name)
    } else {
        None
    }
}

/// What parsing `text` gives: the category that `text` names when the case
/// of its ASCII letters is set aside, if there is one.
pub open spec fn parsed_category(text: Seq<char>) -> Option<Category> {
    category_named(ascii_lowered(text))
}

/// The message that goes with a text that names no category.
pub open spec fn no_such_category(text: Seq<char>) -> Seq<char> {
    "No such category: "@ + text
}

/// The names of the categories are written in small ASCII letters, and no
/// two categories share a name.
pub proof fn lemma_category_names(a: Category, b: Category)
    ensures
        ascii_lowered(a.name()) == a.name(),
        vstd::utf8::is_ascii_chars(a.name()),
        a.name() == b.name() ==> a == b,
{
    reveal_strlit("auto");
    reveal_strlit("creditcard");
    reveal_strlit("donation");
    reveal_strlit("electronics");
    reveal_strlit("entertainment");
    reveal_strlit("gas");
    reveal_strlit("gift");
    reveal_strlit("groceries");
    reveal_strlit("investment");
    reveal_strlit("medical");
    reveal_strlit("pay");
    reveal_strlit("personal");
    reveal_strlit("rent");
    reveal_strlit("restaurants");
    reveal_strlit("savings");
    reveal_strlit("school");
    reveal_strlit("shopping");
    reveal_strlit("subscriptions");
    reveal_strlit("taxes");
    reveal_strlit("travel");
    reveal_strlit("transfer");
    reveal_strlit("utilities");
    reveal_strlit("other");
    if a.name() == b.name() {
        // Length and first letter together tell every name from the others.
        assert(a.name()[0] == b.name()[0]);
    }
}

/// Parsing the name of a category gives that category back, for every
/// category that has a name in the vocabulary: all but `Other`.
pub proof fn lemma_parse_name(c: Category)
    requires
        c != Category::Other,
    ensures
        parsed_category(c.name()) == Some(c),
{
    let found = choose|d: Category| d != Category::Other && d.name() == c.name();
    lemma_category_names(found, c);
}

/// `other`, in whatever case, is not parsed: it names no category of the
/// vocabulary.
pub proof fn lemma_parse_other(text: Seq<char>)
    requires
        ascii_lowered(text) == Category::Other.name(),
    ensures
        parsed_category(text) is None,
{
    assert forall|c: Category| c != Category::Other implies c.name() != ascii_lowered(text) by {
        lemma_category_names(c, Category::Other);
    }
}

impl Default for Category {
    fn default() -> (c: Self)
        ensures
            c == Category::Other,
    {
        Self::Other
    }
}

impl PartialOrd for Category {
    fn partial_cmp(&self, other: &Self) -> (r: Option<Ordering>) {
        let i = self.index();
        let j = other.index();
        if i < j {
            Some(Ordering::Less)
        } else if i == j {
            Some(Ordering::Equal)
        } else {
            Some(Ordering::Greater)
        }
    }
}

impl PartialOrdSpecImpl for Category {
    open spec fn obeys_partial_cmp_spec() -> bool {
        true
    }

    open spec fn partial_cmp_spec(&self, other: &Self) -> Option<Ordering> {
        if self.rank() < other.rank() {
            Some(Ordering::Less)
        } else if self.rank() == other.rank() {
            Some(Ordering::Equal)
        } else {
            Some(Ordering::Greater)
        }
    }
}

/// Tries `s` against one name of the vocabulary.
fn names(s: &str, c: Category, name: &str) -> (r: bool)
    requires
        name@ == c.name(),
    ensures
        r == (ascii_lowered(s@) == c.name()),
{
    proof {
        lemma_category_names(c, c);
    }
    is_word_ignoring_case(s, name)
}

impl TryFrom<&str> for Category {
    type Error = String;

    /// Reads a category from its name, in whatever case its ASCII letters
    /// are. A text that names no category of the vocabulary is refused,
    /// with a message that repeats it.
    fn try_from(s: &str) -> (r: Result<Self, String>)
        ensures
            match parsed_category(s@) {
                Some(c) => r == Ok::<Category, String>(c),
                None => r is Err && r->Err_0@ == no_such_category(s@),
            },
    {
        let ret = if names(s, Category::Auto, "auto") {
            Category::Auto
        } else if names(s, Category::CreditCard, "creditcard") {
            Category::CreditCard
        } else if names(s, Category::Donation, "donation") {
            Category::Donation
        } else if names(s, Category::Electronics, "electronics") {
            Category::Electronics
        } else if names(s, Category::Entertainment, "entertainment") {
            Category::Entertainment
        } else if names(s, Category::Gas, "gas") {
            Category::Gas
        } else if names(s, Category::Gift, "gift") {
            Category::Gift
        } else if names(s, Category::Groceries, "groceries") {
            Category::Groceries
        } else if names(s, Category::Investment, "investment") {
            Category::Investment
        } else if names(s, Category::Medical, "medical") {
            Category::Medical
        } else if names(s, Category::Pay, "pay") {
            Category::Pay
        } else if names(s, Category::Personal, "personal") {
            Category::Personal
        } else if names(s, Category::Rent, "rent") {
            Category::Rent
        } else if names(s, Category::Restaurants, "restaurants") {
            Category::Restaurants
        } else if names(s, Category::Savings, "savings") {
            Category::Savings
        } else if names(s, Category::School, "school") {
            Category::School
        } else if names(s, Category::Shopping, "shopping") {
            Category::Shopping
        } else if names(s, Category::Subscriptions, "subscriptions") {
            Category::Subscriptions
        } else if names(s, Category::Taxes, "taxes") {
            Category::Taxes
        } else if names(s, Category::Travel, "travel") {
            Category::Travel
        } else if names(s, Category::Transfer, "transfer") {
            Category::Transfer
        } else if names(s, Category::Utilities, "utilities") {
            Category::Utilities
        } else {
            Category::Other
        };
        proof {
            let lowered = ascii_lowered(s@);
            if ret != Category::Other {
                let found = choose|c: Category| c != Category::Other && c.name() == lowered;
                lemma_category_names(found, ret);
            } else {
                assert forall|c: Category| c != Category::Other implies c.name() != lowered by {}
            }
        }
        match ret {
            Category::Other => Err(String::from_str("No such category: ").concat(s)),
            _ => Ok(ret),
        }
    }
}

// The result holds a `String`, which ghost code cannot build: what
// `try_from` returns is said by its own `ensures`.
impl TryFromSpecImpl<&str> for Category {
    open spec fn obeys_try_from_spec() -> bool {
        false
    }

    open spec fn try_from_spec(s: &str) -> Result<Self, String> {
        arbitrary()
    }
}

/// One movement of money.
#[derive(Debug, Eq, Ord)]
pub struct Transaction {
    date: DateInstant,
    vendor: String,
    description: String,
    location: Location,
    amount: Currency,
    category: Category,
}

/// What a `Transaction` holds: the day count of its date, its texts, its
/// place, its amount in cents and its category.
pub struct TransactionModel {
    pub date: nat,
    pub vendor: Seq<char>,
    pub description: Seq<char>,
    pub location: LocationModel,
    pub amount: int,
    pub category: Category,
}

impl View for Transaction {
    type V = TransactionModel;

    closed spec fn view(&self) -> TransactionModel {
        TransactionModel {
            date: self.date@,
            vendor: self.vendor@,
            description: self.description@,
            location: self.location@,
            amount: self.amount@,
            category: self.category,
        }
    }
}

/// The natural order of transactions: by date, then by vendor, then by
/// description, then by place, then by amount, then by category. The first
/// of these in which two transactions differ decides.
pub open spec fn transaction_before(a: TransactionModel, b: TransactionModel) -> bool {
    if a.date != b.date {
        a.date < b.date
    } else if a.vendor != b.vendor {
        text_before(a.vendor, b.vendor)
    } else if a.description != b.description {
        text_before(a.description, b.description)
    } else if a.location != b.location {
        location_before(a.location, b.location)
    } else if a.amount != b.amount {
        a.amount < b.amount
    } else {
        a.category.rank() < b.category.rank()
    }
}

/// Whether `a` may stand before `b` in a sorted sequence: it comes before
/// `b` or is equal to it.
pub open spec fn transaction_at_most(a: TransactionModel, b: TransactionModel) -> bool {
    a == b || transaction_before(a, b)
}

/// A transaction as it is written: date, vendor, description, place,
/// amount in the accounting form and category, with commas between them.
pub open spec fn transaction_text(t: TransactionModel) -> Seq<char> {
    date_text(date_of(t.date).0, date_of(t.date).1, date_of(t.date).2) + seq![','] + t.vendor
        + seq![','] + t.description + seq![','] + location_text(t.location) + seq![',']
        + accounting_text(t.amount) + seq![','] + t.category.name()
}

/// Of two different transactions exactly one comes before the other, and
/// no transaction comes before itself.
pub proof fn lemma_transaction_before_connected(a: TransactionModel, b: TransactionModel)
    ensures
        a != b ==> (transaction_before(a, b) <==> !transaction_before(b, a)),
        a == b ==> !transaction_before(a, b) && !transaction_before(b, a),
{
    lemma_text_before_connected(a.vendor, b.vendor);
    lemma_text_before_connected(a.description, b.description);
    lemma_location_before_connected(a.location, b.location);
}

/// The natural order is transitive.
pub proof fn lemma_transaction_before_transitive(
    a: TransactionModel,
    b: TransactionModel,
    c: TransactionModel,
)
    requires
        transaction_before(a, b),
        transaction_before(b, c),
    ensures
        transaction_before(a, c),
{
    lemma_text_before_connected(a.vendor, c.vendor);
    lemma_text_before_connected(a.description, c.description);
    lemma_location_before_connected(a.location, c.location);
    if text_before(a.vendor, b.vendor) && text_before(b.vendor, c.vendor) {
        lemma_text_before_transitive(a.vendor, b.vendor, c.vendor);
    }
    if text_before(a.description, b.description) && text_before(b.description, c.description) {
        lemma_text_before_transitive(a.description, b.description, c.description);
    }
    if location_before(a.location, b.location) && location_before(b.location, c.location) {
        lemma_location_before_transitive(a.location, b.location, c.location);
    }
}

/// The natural order as a relation, `transaction_at_most`, in the form
/// that sorting takes.
pub open spec fn natural_order() -> spec_fn(TransactionModel, TransactionModel) -> bool {
    |a: TransactionModel, b: TransactionModel| transaction_at_most(a, b)
}

/// The natural order is a total order: any two transactions can be
/// compared, and only equal ones stand on a par.
pub proof fn lemma_natural_order_total()
    ensures
        vstd::relations::total_ordering(natural_order()),
{
    let leq = natural_order();
    assert forall|a: TransactionModel, b: TransactionModel| #[trigger]
        leq(a, b) && #[trigger] leq(b, a) implies a == b by {
        lemma_transaction_before_connected(a, b);
    }
    assert forall|a: TransactionModel, b: TransactionModel, c: TransactionModel| #[trigger]
        leq(a, b) && #[trigger] leq(b, c) implies leq(a, c) by {
        if a != b && b != c {
            lemma_transaction_before_transitive(a, b, c);
        }
    }
    assert forall|a: TransactionModel, b: TransactionModel| #[trigger]
        leq(a, b) || #[trigger] leq(b, a) by {
        lemma_transaction_before_connected(a, b);
    }
}

impl Transaction {
    /// Sets the date.
    pub fn date(&mut self, date: DateInstant) -> (ret: &mut Self)
        ensures
            ret@ == (TransactionModel { date: date@, ..old(self)@ }),
            *final(self) == *final(ret),
    {
        self.date = date;
        self
    }

    pub fn get_date(&self) -> (date: &DateInstant)
        ensures
            date@ == self@.date,
    {
        &self.date
    }

    /// Sets the vendor.
    pub fn vendor<'a, 'b>(&'a mut self, vendor: &'b str) -> (ret: &'a mut Self)
        ensures
            ret@ == (TransactionModel { vendor: vendor@, ..old(self)@ }),
            *final(self) == *final(ret),
    {
        self.vendor = vendor.to_owned();
        self
    }

    pub fn get_vendor(&self) -> (vendor: &str)
        ensures
            vendor@ == self@.vendor,
    {
        self.vendor.as_str()
    }

    /// Sets the description.
    pub fn description<'a, 'b>(&'a mut self, description: &'b str) -> (ret: &'a mut Self)
        ensures
            ret@ == (TransactionModel { description: description@, ..old(self)@ }),
            *final(self) == *final(ret),
    {
        self.description = description.to_owned();
        self
    }

    pub fn get_description(&self) -> (description: &str)
        ensures
            description@ == self@.description,
    {
        self.description.as_str()
    }

    /// Sets the place.
    pub fn location(&mut self, location: Location) -> (ret: &mut Self)
        ensures
            ret@ == (TransactionModel { location: location@, ..old(self)@ }),
            *final(self) == *final(ret),
    {
        self.location = location;
        self
    }

    pub fn get_location(&self) -> (location: &Location)
        ensures
            location@ == self@.location,
    {
        &self.location
    }

    /// Sets the amount.
    pub fn amount(&mut self, amount: Currency) -> (ret: &mut Self)
        ensures
            ret@ == (TransactionModel { amount: amount@, ..old(self)@ }),
            *final(self) == *final(ret),
    {
        self.amount = amount;
        self
    }

    pub fn get_amount(&self) -> (amount: &Currency)
        ensures
            amount@ == self@.amount,
    {
        &self.amount
    }

    /// Sets the category.
    pub fn category(&mut self, category: Category) -> (ret: &mut Self)
        ensures
            ret@ == (TransactionModel { category: category, ..old(self)@ }),
            *final(self) == *final(ret),
    {
        self.category = category;
        self
    }

    pub fn get_category(&self) -> (category: &Category)
        ensures
            *category == self@.category,
    {
        &self.category
    }

    /// The transaction as text, as in
    /// `2020-7-19,Chipotle,For mom,[Naperville,IL,USA],(15.60),restaurants`.
    pub fn to_string(&self) -> (s: String)
        ensures
            s@ == transaction_text(self@),
    {
        let mut s = self.date.to_string();
        s.append(",");
        s.append(self.vendor.as_str());
        s.append(",");
        s.append(self.description.as_str());
        s.append(",");
        s.append(self.location.to_string().as_str());
        s.append(",");
        s.append(self.amount.to_string_accounting().as_str());
        s.append(",");
        s.append(self.category.to_string().as_str());
        proof {
            reveal_strlit(",");
        }
        s
    }
}

impl Default for Transaction {
    /// A transaction on day 0, with empty texts, no amount and the
    /// category `Other`.
    fn default() -> (t: Self)
        ensures
            t@ == (TransactionModel {
                date: 0,
                vendor: seq![],
                description: seq![],
                location: LocationModel { city: seq![], state: seq![], country: seq![] },
                amount: 0,
                category: Category::Other,
            }),
    {
        Transaction {
            date: DateInstant::default(),
            vendor: String::new(),
            description: String::new(),
            location: Location::default(),
            amount: Currency::default(),
            category: Category::default(),
        }
    }
}

impl Clone for Transaction {
    fn clone(&self) -> (t: Self)
        ensures
            t@ == self@,
    {
        Transaction {
            date: self.date,
            vendor: self.vendor.clone(),
            description: self.description.clone(),
            location: self.location.clone(),
            amount: self.amount,
            category: self.category,
        }
    }
}

impl PartialEq for Transaction {
    fn eq(&self, other: &Self) -> (r: bool) {
        self.date == other.date && self.vendor == other.vendor && self.description
            == other.description && self.location == other.location && self.amount == other.amount
            && self.category == other.category
    }
}

impl PartialEqSpecImpl for Transaction {
    open spec fn obeys_eq_spec() -> bool {
        true
    }

    open spec fn eq_spec(&self, other: &Self) -> bool {
        self@ == other@
    }
}

impl PartialOrd for Transaction {
    fn partial_cmp(&self, other: &Self) -> (r: Option<Ordering>) {
        let before = if self.date != other.date {
            self.date < other.date
        } else if self.vendor != other.vendor {
            str_before(self.vendor.as_str(), other.vendor.as_str())
        } else if self.description != other.description {
            str_before(self.description.as_str(), other.description.as_str())
        } else if self.location != other.location {
            self.location < other.location
        } else if self.amount != other.amount {
            self.amount < other.amount
        } else if self.category != other.category {
            self.category < other.category
        } else {
            return Some(Ordering::Equal);
        };
        if before {
            Some(Ordering::Less)
        } else {
            Some(Ordering::Greater)
        }
    }
}

impl PartialOrdSpecImpl for Transaction {
    open spec fn obeys_partial_cmp_spec() -> bool {
        true
    }

    open spec fn partial_cmp_spec(&self, other: &Self) -> Option<Ordering> {
        if transaction_before(self@, other@) {
            Some(Ordering::Less)
        } else if self@ == other@ {
            Some(Ordering::Equal)
        } else {
            Some(Ordering::Greater)
        }
    }
}

} // verus!
