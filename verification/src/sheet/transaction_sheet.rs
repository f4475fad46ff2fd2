//! The ledger: transactions kept in their natural order, each with the
//! balance that stands after it.

use crate::currency::{numeric_text, representable, Currency};
use crate::sheet::{Sheet, SheetError};
use crate::transaction::{
    lemma_natural_order_total, lemma_transaction_before_connected, natural_order,
    transaction_before, transaction_text, Transaction, TransactionModel,
};
use std::cmp::Ordering;
use vstd::prelude::*;
use vstd::relations::sorted_by;
use vstd::std_specs::cmp::{PartialEqSpecImpl, PartialOrdSpecImpl};

verus! {

/// The money that stands after a transaction. Its view is that amount in
/// cents.
#[derive(Debug, Eq, Ord)]
pub struct Balance {
    amount: Currency,
}

impl View for Balance {
    type V = int;

    closed spec fn view(&self) -> int {
        self.amount@
    }
}

impl Balance {
    /// The balance of `amount`.
    pub fn new(amount: Currency) -> (b: Self)
        ensures
            b@ == amount@,
    {
        Self { amount }
    }

    /// The balance that stands after `t`, when `prev` stood before it.
    pub fn calc_next(prev: &Self, t: &Transaction) -> (b: Self)
        requires
            representable(prev@ + t@.amount),
        ensures
            b@ == prev@ + t@.amount,
    {
        Self::new(prev.amount + *t.get_amount())
    }

    /// The balance as text, as in `$1984.40`.
    pub fn to_string(&self) -> (s: String)
        ensures
            s@ == numeric_text(self@),
    {
        self.amount.to_string_numeric()
    }
}

impl Default for Balance {
    fn default() -> (b: Self)
        ensures
            b@ == 0,
    {
        Balance { amount: Currency::default() }
    }
}

impl Clone for Balance {
    fn clone(&self) -> (b: Self)
        ensures
            b@ == self@,
    {
        Balance { amount: self.amount }
    }
}

impl PartialEq for Balance {
    fn eq(&self, other: &Self) -> (r: bool) {
        self.amount == other.amount
    }
}

impl PartialEqSpecImpl for Balance {
    open spec fn obeys_eq_spec() -> bool {
        true
    }

    open spec fn eq_spec(&self, other: &Self) -> bool {
        self@ == other@
    }
}

impl PartialOrd for Balance {
    fn partial_cmp(&self, other: &Self) -> (r: Option<Ordering>) {
        self.amount.partial_cmp(&other.amount)
    }
}

impl PartialOrdSpecImpl for Balance {
    open spec fn obeys_partial_cmp_spec() -> bool {
        true
    }

    open spec fn partial_cmp_spec(&self, other: &Self) -> Option<Ordering> {
        if self@ < other@ {
            Some(Ordering::Less)
        } else if self@ == other@ {
            Some(Ordering::Equal)
        } else {
            Some(Ordering::Greater)
        }
    }
}

/// What the rows of a ledger hold: each transaction with the balance in
/// cents that stands beside it.
pub open spec fn rows_model(rows: Seq<(Transaction, Balance)>) -> Seq<(TransactionModel, int)> {
    Seq::new(rows.len(), |i: int| (rows[i].0@, rows[i].1@))
}

/// The transactions of the rows, in the order of the rows.
pub open spec fn transactions(rows: Seq<(TransactionModel, int)>) -> Seq<TransactionModel> {
    Seq::new(rows.len(), |i: int| rows[i].0)
}

/// The sum of the amounts of the first `n` transactions.
pub open spec fn total_of_first(ts: Seq<TransactionModel>, n: int) -> int
    decreases n,
{
    if n <= 0 {
        0
    } else {
        total_of_first(ts, n - 1) + ts[n - 1].amount
    }
}

/// Whether every running total of `ts`, counted on from `start`, can be
/// held by a balance.
pub open spec fn totals_fit(start: int, ts: Seq<TransactionModel>) -> bool {
    forall|n: int| 0 < n <= ts.len() ==> representable(start + #[trigger] total_of_first(ts, n))
}

/// Whether the balance of every row is `start` and the amounts of all rows
/// up to and including its own.
pub open spec fn balanced_from(start: int, rows: Seq<(TransactionModel, int)>) -> bool {
    forall|i: int|
        0 <= i < rows.len() ==> (#[trigger] rows[i]).1 == start + total_of_first(
            transactions(rows),
            i + 1,
        )
}

/// Whether transactions stand in their natural order.
pub open spec fn in_natural_order(ts: Seq<TransactionModel>) -> bool {
    sorted_by(ts, natural_order())
}

/// What holds of the rows of every ledger: the transactions stand in their
/// natural order, and each balance is the sum of the amounts of all rows up
/// to and including its own.
pub open spec fn consistent(rows: Seq<(TransactionModel, int)>) -> bool {
    in_natural_order(transactions(rows)) && balanced_from(0, rows)
}

/// The transactions of a ledger once `t` is added: those of before and
/// `t`, in natural order.
pub open spec fn with_added(ts: Seq<TransactionModel>, t: TransactionModel) -> Seq<
    TransactionModel,
> {
    ts.push(t).sort_by(natural_order())
}

/// The transactions of a ledger once `t` has taken the place of the one at
/// the index `i`: those of before without that one, and `t`, in natural
/// order.
pub open spec fn with_replaced(ts: Seq<TransactionModel>, i: int, t: TransactionModel) -> Seq<
    TransactionModel,
> {
    ts.remove(i).push(t).sort_by(natural_order())
}

/// The balance that a row leaves behind, or zero where there is no row.
pub open spec fn balance_after(row: Option<(Transaction, Balance)>) -> int {
    match row {
        Some(r) => r.1@,
        None => 0,
    }
}

/// Puts the rows in the natural order of their transactions. The balances
/// travel with their rows and decide nothing.
fn sort_rows(rows: &mut Vec<(Transaction, Balance)>)
    ensures
        in_natural_order(transactions(rows_model(final(rows)@))),
        transactions(rows_model(final(rows)@)).to_multiset() == transactions(
            rows_model(old(rows)@),
        ).to_multiset(),
{
    if rows.len() == 0 {
        return ;
    }
    let mut i: usize = 1;
    while i < rows.len()
        invariant
            1 <= i <= rows.len(),
            in_natural_order(transactions(rows_model(rows@)).take(i as int)),
            transactions(rows_model(rows@)).to_multiset() == transactions(
                rows_model(old(rows)@),
            ).to_multiset(),
        decreases rows.len() - i,
    {
        let ghost before = transactions(rows_model(rows@));
        if rows[i].0 < rows[i - 1].0 {
            let mut k: usize = i - 1;
            while k > 0 && rows[i].0 < rows[k - 1].0
                invariant
                    k < i < rows.len(),
                    before == transactions(rows_model(rows@)),
                    forall|j: int| k <= j < i ==> transaction_before(before[i as int], before[j]),
                decreases k,
            {
                k -= 1;
            }
            let row = rows.remove(i);
            rows.insert(k, row);
            proof {
                let after = transactions(rows_model(rows@));
                assert(after =~= before.remove(i as int).insert(k as int, before[i as int]));
                lemma_move_forward(before, i as int, k as int);
            }
        } else {
            proof {
                lemma_stays(before, i as int);
            }
        }
        i += 1;
    }
    assert(transactions(rows_model(rows@)).take(rows@.len() as int) =~= transactions(
        rows_model(rows@),
    ));
}

/// A transaction that does not come before the last of a sorted run
/// lengthens the run.
proof fn lemma_stays(ts: Seq<TransactionModel>, i: int)
    requires
        1 <= i < ts.len(),
        in_natural_order(ts.take(i)),
        !transaction_before(ts[i], ts[i - 1]),
    ensures
        in_natural_order(ts.take(i + 1)),
{
    let leq = natural_order();
    lemma_natural_order_total();
    lemma_transaction_before_connected(ts[i], ts[i - 1]);
    assert forall|a: int, b: int| 0 <= a < b < i + 1 implies #[trigger] leq(
        ts.take(i + 1)[a],
        ts.take(i + 1)[b],
    ) by {
        if b == i && a < i - 1 {
            assert(leq(ts.take(i)[a], ts.take(i)[i - 1]));
            assert(leq(ts[a], ts[i - 1]) && leq(ts[i - 1], ts[i]));
        }
    }
}

/// Moving the transaction at `i` forward to `k`, past those of a sorted
/// run that it comes before and no further, lengthens the run and keeps
/// what the sequence holds.
proof fn lemma_move_forward(ts: Seq<TransactionModel>, i: int, k: int)
    requires
        0 <= k < i < ts.len(),
        in_natural_order(ts.take(i)),
        forall|j: int| k <= j < i ==> transaction_before(ts[i], ts[j]),
        k > 0 ==> !transaction_before(ts[i], ts[k - 1]),
    ensures
        in_natural_order(ts.remove(i).insert(k, ts[i]).take(i + 1)),
        ts.remove(i).insert(k, ts[i]).to_multiset() == ts.to_multiset(),
{
    let leq = natural_order();
    let moved = ts.remove(i).insert(k, ts[i]);
    lemma_natural_order_total();
    if k > 0 {
        lemma_transaction_before_connected(ts[i], ts[k - 1]);
    }
    assert forall|a: int, b: int| 0 <= a < b < i + 1 implies #[trigger] leq(
        moved.take(i + 1)[a],
        moved.take(i + 1)[b],
    ) by {
        // Before `k` the run is as it was, at `k` stands the one that
        // moved, and after it the rest of the run, one place on. Only what
        // stands well before `k` is compared with the one that moved by way
        // of its neighbour.
        if b == k && a < k - 1 {
            assert(leq(ts.take(i)[a], ts.take(i)[k - 1]));
            assert(leq(ts[a], ts[k - 1]) && leq(ts[k - 1], ts[i]));
        }
    }
    vstd::seq_lib::to_multiset_insert(ts.remove(i), k, ts[i]);
    ts.to_multiset_ensures();
}

/// The names of the columns of a ledger.
pub open spec fn header_names() -> Seq<Seq<char>> {
    seq![
        "date"@,
        "vendor"@,
        "description"@,
        "location"@,
        "amount"@,
        "category"@,
        "balance"@,
    ]
}

/// A row as it is written: the transaction, a comma, and the balance in
/// the numeric form.
pub open spec fn row_text(row: (TransactionModel, int)) -> Seq<char> {
    transaction_text(row.0) + seq![','] + numeric_text(row.1)
}

/// A ledger: a title, and transactions in their natural order, each with
/// the balance that stands after it. Every ledger is `consistent`.
pub struct TransactionSheet {
    title: String,
    rows: Vec<(Transaction, Balance)>,
}

/// What a ledger holds.
pub struct SheetModel {
    pub title: Seq<char>,
    pub rows: Seq<(TransactionModel, int)>,
}

impl View for TransactionSheet {
    type V = SheetModel;

    closed spec fn view(&self) -> SheetModel {
        SheetModel { title: self.title@, rows: rows_model(self.rows@) }
    }
}

impl TransactionSheet {
    #[verifier::type_invariant]
    spec fn rows_consistent(self) -> bool {
        consistent(rows_model(self.rows@))
    }

    /// An empty ledger with the title `title`.
    pub fn new(title: &str) -> (sheet: Self)
        ensures
            sheet@ == (SheetModel { title: title@, rows: seq![] }),
    {
        let sheet = TransactionSheet { title: title.to_owned(), rows: Vec::new() };
        assert(sheet@.rows =~= seq![]);
        sheet
    }

    /// Writes into every row the balance that stands after it, counting on
    /// from the balance of `prev_row`, or from zero where there is none. The
    /// transactions stay as they are.
    pub fn update_balances(
        prev_row: Option<(Transaction, Balance)>,
        rows: &mut [(Transaction, Balance)],
    )
        requires
            totals_fit(balance_after(prev_row), transactions(rows_model(old(rows)@))),
        ensures
            final(rows)@.len() == old(rows)@.len(),
            forall|i: int| 0 <= i < old(rows)@.len() ==> final(rows)@[i].0 == old(rows)@[i].0,
            transactions(rows_model(final(rows)@)) == transactions(rows_model(old(rows)@)),
            balanced_from(balance_after(prev_row), rows_model(final(rows)@)),
    {
        let ghost start = balance_after(prev_row);
        let ghost ts = transactions(rows_model(rows@));
        let mut prev = match prev_row {
            Some(r) => r.1,
            None => Balance::default(),
        };
        let n = rows.len();
        let mut i: usize = 0;
        while i < n
            invariant
                i <= n,
                n == rows@.len(),
                n == old(rows)@.len(),
                ts == transactions(rows_model(old(rows)@)),
                totals_fit(start, ts),
                forall|j: int| 0 <= j < n ==> rows@[j].0 == old(rows)@[j].0,
                forall|j: int| 0 <= j < i ==> rows@[j].1@ == start + total_of_first(ts, j + 1),
                prev@ == start + total_of_first(ts, i as int),
            decreases n - i,
        {
            assert(representable(start + total_of_first(ts, i + 1)));
            let next = Balance::calc_next(&prev, &rows[i].0);
            prev = next.clone();
            rows[i].1 = next;
            i += 1;
        }
        assert(transactions(rows_model(rows@)) =~= ts);
    }

    /// A copy of the rows.
    fn copy_rows(&self) -> (rows: Vec<(Transaction, Balance)>)
        ensures
            rows_model(rows@) == self@.rows,
    {
        let mut rows: Vec<(Transaction, Balance)> = Vec::with_capacity(self.rows.len());
        let mut i: usize = 0;
        while i < self.rows.len()
            invariant
                i <= self.rows@.len(),
                rows@.len() == i,
                forall|j: int|
                    0 <= j < i ==> rows@[j].0@ == self.rows@[j].0@ && rows@[j].1@
                        == self.rows@[j].1@,
            decreases self.rows@.len() - i,
        {
            let r = &self.rows[i];
            rows.push((r.0.clone(), r.1.clone()));
            i += 1;
        }
        rows
    }

    /// Whether every running total of the amounts of `rows` can be held by
    /// a balance.
    fn totals_in_range(rows: &Vec<(Transaction, Balance)>) -> (b: bool)
        ensures
            b == totals_fit(0, transactions(rows_model(rows@))),
    {
        let ghost ts = transactions(rows_model(rows@));
        let mut total: i64 = 0;
        let mut i: usize = 0;
        while i < rows.len()
            invariant
                i <= rows@.len(),
                ts == transactions(rows_model(rows@)),
                total == total_of_first(ts, i as int),
                forall|n: int| 0 < n <= i ==> representable(#[trigger] total_of_first(ts, n)),
            decreases rows@.len() - i,
        {
            match total.checked_add(rows[i].0.get_amount().get()) {
                Some(next) => {
                    total = next;
                },
                None => {
                    assert(!representable(total_of_first(ts, i + 1)));
                    return false;
                },
            }
            i += 1;
        }
        true
    }

    /// Whether the ledger has room for `t`: whether, with `t` in place,
    /// every balance can still be held. This is what `insert` asks.
    pub fn has_room_for(&self, t: &Transaction) -> (b: bool)
        ensures
            b == totals_fit(0, with_added(transactions(self@.rows), t@)),
    {
        let mut rows = self.copy_rows();
        rows.push((t.clone(), Balance::default()));
        let ghost pushed = transactions(rows_model(rows@));
        sort_rows(&mut rows);
        proof {
            assert(pushed =~= transactions(self@.rows).push(t@));
            lemma_sorted_is_sort_by(transactions(rows_model(rows@)), pushed);
        }
        TransactionSheet::totals_in_range(&rows)
    }

    /// Whether the ledger has room for `t` in place of the row at the index
    /// `old_row`: whether, with that row taken out and `t` in place, every
    /// balance can still be held. Where the ledger has no such row there is
    /// nothing to ask, and the answer is yes. This is what `update` asks.
    pub fn has_room_to_replace(&self, old_row: u32, t: &Transaction) -> (b: bool)
        ensures
            b == (old_row < self@.rows.len() ==> totals_fit(
                0,
                with_replaced(transactions(self@.rows), old_row as int, t@),
            )),
    {
        let index = old_row as usize;
        if index >= self.rows.len() {
            return true;
        }
        let ghost before = transactions(self@.rows);
        let mut rows = self.copy_rows();
        rows.remove(index);
        rows.push((t.clone(), Balance::default()));
        let ghost pushed = transactions(rows_model(rows@));
        sort_rows(&mut rows);
        proof {
            assert(pushed =~= before.remove(index as int).push(t@));
            lemma_sorted_is_sort_by(transactions(rows_model(rows@)), pushed);
        }
        TransactionSheet::totals_in_range(&rows)
    }
}

/// Sorting has one result: a sequence in natural order that holds what
/// `ts` holds, each transaction as often, is `ts` sorted.
pub proof fn lemma_sorted_is_sort_by(sorted: Seq<TransactionModel>, ts: Seq<TransactionModel>)
    requires
        in_natural_order(sorted),
        sorted.to_multiset() == ts.to_multiset(),
    ensures
        sorted == ts.sort_by(natural_order()),
{
    lemma_natural_order_total();
    ts.lemma_sort_by_ensures(natural_order());
    vstd::seq_lib::lemma_sorted_unique(sorted, ts.sort_by(natural_order()), natural_order());
}

/// What a ledger holds tells its rows: two consistent sequences of rows
/// with the same transactions, each as often, are the same rows in the
/// same order with the same balances.
pub proof fn lemma_rows_determined(a: Seq<(TransactionModel, int)>, b: Seq<(TransactionModel, int)>)
    requires
        consistent(a),
        consistent(b),
        transactions(a).to_multiset() == transactions(b).to_multiset(),
    ensures
        a == b,
{
    lemma_natural_order_total();
    vstd::seq_lib::lemma_sorted_unique(transactions(a), transactions(b), natural_order());
}

impl Sheet for TransactionSheet {
    type Row = (Transaction, Balance);

    type RowFind = u32;

    type RowHandle = Self::Row;

    /// A ledger has room for a row when, with its transaction in place,
    /// every balance can still be held. The balance that comes with the row
    /// is not looked at.
    open spec fn can_insert(&self, row: Self::Row) -> bool {
        totals_fit(0, with_added(transactions(self@.rows), row.0@))
    }

    /// A ledger has room for a row in place of another when, with the one
    /// taken out and the other in place, every balance can still be held.
    /// Where `old_row` names no row, nothing is asked.
    open spec fn can_update(&self, old_row: Self::RowFind, new_row: Self::Row) -> bool {
        old_row < self@.rows.len() ==> totals_fit(
            0,
            with_replaced(transactions(self@.rows), old_row as int, new_row.0@),
        )
    }

    fn title(&self) -> (title: &str)
        ensures
            title@ == self@.title,
    {
        self.title.as_str()
    }

    fn headers(&self) -> (headers: Vec<&str>)
        ensures
            headers@.len() == header_names().len(),
            forall|i: int| 0 <= i < headers@.len() ==> headers@[i]@ == header_names()[i],
    {
        vec!["date", "vendor", "description", "location", "amount", "category", "balance"]
    }

    /// The rows as text, one line for each, in their order.
    fn lines(&self) -> (lines: Vec<String>)
        ensures
            consistent(self@.rows),
            lines@.len() == self@.rows.len(),
            forall|i: int| 0 <= i < lines@.len() ==> lines@[i]@ == row_text(self@.rows[i]),
    {
        proof {
            use_type_invariant(self);
        }
        let mut v: Vec<String> = Vec::with_capacity(self.rows.len());
        let mut i: usize = 0;
        while i < self.rows.len()
            invariant
                i <= self.rows@.len(),
                v@.len() == i,
                forall|j: int| 0 <= j < i ==> v@[j]@ == row_text(self@.rows[j]),
            decreases self.rows@.len() - i,
        {
            let r = &self.rows[i];
            let mut line = r.0.to_string();
            line.append(",");
            line.append(r.1.to_string().as_str());
            proof {
                reveal_strlit(",");
            }
            v.push(line);
            i += 1;
        }
        v
    }

    /// Adds the transaction of `row` at its place in the natural order and
    /// writes all balances anew. The balance that comes with `row` is a
    /// placeholder.
    fn insert(&mut self, row: Self::Row)
        ensures
            final(self)@.title == old(self)@.title,
            transactions(final(self)@.rows) == with_added(transactions(old(self)@.rows), row.0@),
            consistent(final(self)@.rows),
    {
        let ghost before = transactions(self@.rows);
        let mut rows: Vec<(Transaction, Balance)> = Vec::new();
        std::mem::swap(&mut self.rows, &mut rows);
        rows.push(row);
        let ghost pushed = transactions(rows_model(rows@));
        sort_rows(&mut rows);
        proof {
            assert(pushed =~= before.push(row.0@));
            lemma_sorted_is_sort_by(transactions(rows_model(rows@)), pushed);
        }
        TransactionSheet::update_balances(None, rows.as_mut_slice());
        self.rows = rows;
    }

    /// Takes out the row at the index `old_row` and adds the transaction
    /// of `new_row` at its place in the natural order, then writes all
    /// balances anew. An index past the last row is reported, and the
    /// ledger stays as it was. The index counts the rows as they stand
    /// before the call, and a change to the ledger can move any row.
    fn update(&mut self, old_row: &Self::RowFind, new_row: Self::Row) -> (r: Result<
        (),
        SheetError,
    >)
        ensures
            r is Ok <==> *old_row < old(self)@.rows.len(),
            r is Ok ==> final(self)@.title == old(self)@.title && transactions(final(self)@.rows)
                == with_replaced(transactions(old(self)@.rows), *old_row as int, new_row.0@),
            r is Err ==> r == Err::<(), SheetError>(SheetError::NoSuchRow) && final(self)@ == old(
                self,
            )@,
            consistent(final(self)@.rows),
    {
        proof {
            use_type_invariant(&*self);
        }
        let index = *old_row as usize;
        if index >= self.rows.len() {
            return Err(SheetError::NoSuchRow);
        }
        let ghost before = transactions(self@.rows);
        let mut rows: Vec<(Transaction, Balance)> = Vec::new();
        std::mem::swap(&mut self.rows, &mut rows);
        rows.push(new_row);
        rows.swap_remove(index);
        let ghost swapped = transactions(rows_model(rows@));
        sort_rows(&mut rows);
        proof {
            let wanted = before.remove(index as int).push(new_row.0@);
            assert(swapped =~= before.update(index as int, new_row.0@));
            lemma_replaced(before, index as int, new_row.0@);
            lemma_sorted_is_sort_by(transactions(rows_model(rows@)), wanted);
        }
        TransactionSheet::update_balances(None, rows.as_mut_slice());
        self.rows = rows;
        Ok(())
    }

    /// A copy of the row at the index `find`, if the ledger has such a row.
    fn get_row(&self, find: &Self::RowFind) -> (row: Option<Self::RowHandle>)
        ensures
            consistent(self@.rows),
            match row {
                Some(r) => *find < self@.rows.len() && (r.0@, r.1@) == self@.rows[*find as int],
                None => *find >= self@.rows.len(),
            },
    {
        proof {
            use_type_invariant(self);
        }
        let index = *find as usize;
        if index < self.rows.len() {
            let r = &self.rows[index];
            Some((r.0.clone(), r.1.clone()))
        } else {
            None
        }
    }
}

/// Writing `t` over the transaction at `i` leaves what taking that one out
/// and adding `t` at the end leaves.
proof fn lemma_replaced(ts: Seq<TransactionModel>, i: int, t: TransactionModel)
    requires
        0 <= i < ts.len(),
    ensures
        ts.update(i, t).to_multiset() == ts.remove(i).push(t).to_multiset(),
{
    assert(ts.update(i, t) =~= ts.remove(i).insert(i, t));
    vstd::seq_lib::to_multiset_insert(ts.remove(i), i, t);
    vstd::seq_lib::to_multiset_build(ts.remove(i), t);
}

} // verus!
