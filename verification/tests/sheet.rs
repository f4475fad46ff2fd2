use budget_rs::currency::Currency;
use budget_rs::date::DateInstant;
use budget_rs::location::Location;
use budget_rs::sheet::transaction_sheet::{Balance, TransactionSheet};
use budget_rs::sheet::{Sheet, SheetError};
use budget_rs::transaction::{Category, Transaction};

fn entry(year: u16, month: u8, day: u8, vendor: &str, cents: i64) -> Transaction {
    let mut t = Transaction::default();
    t.date(DateInstant::from_date(year, month, day))
        .vendor(vendor)
        .amount(Currency::new(cents));
    t
}

fn row(t: Transaction) -> (Transaction, Balance) {
    (t, Balance::default())
}

fn balance(cents: i64) -> Balance {
    Balance::new(Currency::new(cents))
}

fn rows_of(sheet: &TransactionSheet) -> Vec<(Transaction, Balance)> {
    let mut rows = Vec::new();
    let mut i = 0;
    while let Some(r) = sheet.get_row(&i) {
        rows.push(r);
        i += 1;
    }
    rows
}

fn assert_consistent(sheet: &TransactionSheet) {
    let rows = rows_of(sheet);
    let mut total = 0i64;
    for (i, (t, b)) in rows.iter().enumerate() {
        if i > 0 {
            assert!(rows[i - 1].0 <= *t);
        }
        total += t.get_amount().get();
        assert_eq!(*b, balance(total));
    }
    assert_eq!(sheet.lines().len(), rows.len());
}

#[test]
fn new_sheet_is_empty() {
    let sheet = TransactionSheet::new("Checking");
    assert_eq!(sheet.title(), "Checking");
    assert!(sheet.lines().is_empty());
    assert_eq!(sheet.get_row(&0), None);
}

#[test]
fn sheet_headers() {
    let sheet = TransactionSheet::new("");
    assert_eq!(
        sheet.headers(),
        vec!["date", "vendor", "description", "location", "amount", "category", "balance"]
    );
}

#[test]
fn balance_text_and_order() {
    assert_eq!(balance(198440).to_string(), "$1984.40");
    assert_eq!(balance(-5).to_string(), "-$0.05");
    assert_eq!(Balance::default(), balance(0));
    assert!(balance(1) < balance(2));
    assert_eq!(balance(7).clone(), balance(7));
}

#[test]
fn next_balance_adds_the_amount() {
    let t = entry(2020, 7, 19, "Chipotle", -1560);
    assert_eq!(Balance::calc_next(&balance(200000), &t), balance(198440));
    assert_eq!(Balance::calc_next(&Balance::default(), &t), balance(-1560));
}

#[test]
fn update_balances_counts_from_zero() {
    let mut rows = vec![
        (entry(2020, 7, 1, "a", 100), balance(9)),
        (entry(2020, 7, 2, "b", -30), balance(9)),
        (entry(2020, 7, 3, "c", 5), balance(9)),
    ];
    TransactionSheet::update_balances(None, &mut rows);
    assert_eq!(rows[0], (entry(2020, 7, 1, "a", 100), balance(100)));
    assert_eq!(rows[1], (entry(2020, 7, 2, "b", -30), balance(70)));
    assert_eq!(rows[2], (entry(2020, 7, 3, "c", 5), balance(75)));
}

#[test]
fn update_balances_counts_on_from_a_row() {
    let prev = (entry(2020, 6, 1, "before", 1), balance(1000));
    let mut rows = vec![
        (entry(2020, 7, 2, "b", -30), balance(0)),
        (entry(2020, 7, 1, "a", 100), balance(0)),
    ];
    TransactionSheet::update_balances(Some(prev), &mut rows[..]);
    assert_eq!(rows[0], (entry(2020, 7, 2, "b", -30), balance(970)));
    assert_eq!(rows[1], (entry(2020, 7, 1, "a", 100), balance(1070)));
    let mut none: Vec<(Transaction, Balance)> = Vec::new();
    TransactionSheet::update_balances(None, &mut none);
    assert!(none.is_empty());
}

#[test]
fn insert_sorts_and_keeps_the_running_balance() {
    let mut sheet = TransactionSheet::new("Checking");

    sheet.insert(row(entry(2020, 7, 19, "Chipotle", -1560)));
    assert_eq!(
        rows_of(&sheet),
        vec![(entry(2020, 7, 19, "Chipotle", -1560), balance(-1560))]
    );
    assert_consistent(&sheet);

    sheet.insert(row(entry(2020, 7, 1, "Employer", 200000)));
    assert_eq!(
        rows_of(&sheet),
        vec![
            (entry(2020, 7, 1, "Employer", 200000), balance(200000)),
            (entry(2020, 7, 19, "Chipotle", -1560), balance(198440)),
        ]
    );
    assert_consistent(&sheet);

    sheet.insert(row(entry(2020, 7, 20, "Cafe", -500)));
    assert_eq!(
        rows_of(&sheet),
        vec![
            (entry(2020, 7, 1, "Employer", 200000), balance(200000)),
            (entry(2020, 7, 19, "Chipotle", -1560), balance(198440)),
            (entry(2020, 7, 20, "Cafe", -500), balance(197940)),
        ]
    );
    assert_consistent(&sheet);
}

#[test]
fn ledger_lines_end_to_end() {
    let naperville = Location::default().city("Naperville").state("IL").country("USA").clone();
    let mut lunch = entry(2020, 7, 19, "Chipotle", -1560);
    lunch.description("For mom").location(naperville).category(Category::Restaurants);
    let mut pay = entry(2020, 7, 1, "Employer", 200000);
    pay.category(Category::Pay);
    let mut coffee = entry(2020, 7, 20, "Cafe", -500);
    coffee.description("Latte");

    let mut sheet = TransactionSheet::new("July");
    sheet.insert(row(lunch));
    sheet.insert(row(pay));
    sheet.insert(row(coffee));

    // A day is written as `to_date` reads its count: one day on from the
    // date that `from_date` was given.
    assert_eq!(
        sheet.lines(),
        vec![
            "2020-7-2,Employer,,[,,],2000.00,pay,$2000.00",
            "2020-7-20,Chipotle,For mom,[Naperville,IL,USA],(15.60),restaurants,$1984.40",
            "2020-7-21,Cafe,Latte,[,,],(5.00),other,$1979.40",
        ]
    );
    assert_eq!(sheet.title(), "July");
}

#[test]
fn ledger_lines_show_the_days_that_were_counted() {
    let one_day = budget_rs::date::DateDuration::new(1);
    let mut sheet = TransactionSheet::new("July");
    for (day, vendor, cents) in [(19, "Chipotle", -1560), (1, "Employer", 200000), (20, "Cafe", -500)] {
        let mut t = entry(2020, 7, day, vendor, cents);
        t.date(DateInstant::from_date(2020, 7, day) - one_day);
        sheet.insert(row(t));
    }
    assert_eq!(
        sheet.lines(),
        vec![
            "2020-7-1,Employer,,[,,],2000.00,other,$2000.00",
            "2020-7-19,Chipotle,,[,,],(15.60),other,$1984.40",
            "2020-7-20,Cafe,,[,,],(5.00),other,$1979.40",
        ]
    );
}

#[test]
fn insert_ignores_the_balance_that_comes_with_the_row() {
    let mut sheet = TransactionSheet::new("");
    sheet.insert((entry(2020, 1, 2, "a", 10), balance(123456)));
    sheet.insert((entry(2020, 1, 1, "b", 5), balance(-99)));
    assert_eq!(
        rows_of(&sheet),
        vec![(entry(2020, 1, 1, "b", 5), balance(5)), (entry(2020, 1, 2, "a", 10), balance(15))]
    );
}

#[test]
fn same_day_rows_are_ordered_by_vendor_then_amount() {
    let mut sheet = TransactionSheet::new("");
    sheet.insert(row(entry(2020, 1, 1, "b", 1)));
    sheet.insert(row(entry(2020, 1, 1, "a", 20)));
    sheet.insert(row(entry(2020, 1, 1, "a", 3)));
    sheet.insert(row(entry(2020, 1, 1, "B", 400)));
    sheet.insert(row(entry(2020, 1, 1, "a", 3)));
    assert_eq!(
        rows_of(&sheet),
        vec![
            (entry(2020, 1, 1, "B", 400), balance(400)),
            (entry(2020, 1, 1, "a", 3), balance(403)),
            (entry(2020, 1, 1, "a", 3), balance(406)),
            (entry(2020, 1, 1, "a", 20), balance(426)),
            (entry(2020, 1, 1, "b", 1), balance(427)),
        ]
    );
    assert_consistent(&sheet);
}

#[test]
fn many_inserts_in_any_order_give_the_sorted_ledger() {
    let mut sheet = TransactionSheet::new("");
    let mut expected = Vec::new();
    let mut seed = 12345u32;
    for _ in 0..60 {
        seed = seed.wrapping_mul(1103515245).wrapping_add(12345);
        let day = (seed >> 16) % 28 + 1;
        let month = (seed >> 8) % 12 + 1;
        let cents = ((seed >> 4) % 2001) as i64 - 1000;
        let vendor = ["a", "b", "c"][(seed % 3) as usize];
        let t = entry(2020 + (seed % 2) as u16, month as u8, day as u8, vendor, cents);
        expected.push(t.clone());
        sheet.insert(row(t));
        assert_consistent(&sheet);
        expected.sort();
        let got: Vec<Transaction> = rows_of(&sheet).into_iter().map(|r| r.0).collect();
        assert_eq!(got, expected);
    }
}

#[test]
fn get_row_copies_a_row_or_finds_none() {
    let mut sheet = TransactionSheet::new("");
    sheet.insert(row(entry(2020, 1, 2, "a", 10)));
    sheet.insert(row(entry(2020, 1, 1, "b", 5)));
    assert_eq!(sheet.get_row(&0), Some((entry(2020, 1, 1, "b", 5), balance(5))));
    assert_eq!(sheet.get_row(&1), Some((entry(2020, 1, 2, "a", 10), balance(15))));
    assert_eq!(sheet.get_row(&2), None);
    assert_eq!(sheet.get_row(&u32::MAX), None);
}

#[test]
fn update_replaces_a_row_and_sorts_again() {
    let mut sheet = TransactionSheet::new("");
    sheet.insert(row(entry(2020, 1, 1, "a", 100)));
    sheet.insert(row(entry(2020, 1, 2, "b", 20)));
    sheet.insert(row(entry(2020, 1, 3, "c", 3)));

    assert_eq!(sheet.update(&0, row(entry(2020, 1, 4, "d", 4000))), Ok(()));
    assert_eq!(
        rows_of(&sheet),
        vec![
            (entry(2020, 1, 2, "b", 20), balance(20)),
            (entry(2020, 1, 3, "c", 3), balance(23)),
            (entry(2020, 1, 4, "d", 4000), balance(4023)),
        ]
    );

    assert_eq!(sheet.update(&2, row(entry(2019, 12, 31, "e", -1))), Ok(()));
    assert_eq!(
        rows_of(&sheet),
        vec![
            (entry(2019, 12, 31, "e", -1), balance(-1)),
            (entry(2020, 1, 2, "b", 20), balance(19)),
            (entry(2020, 1, 3, "c", 3), balance(22)),
        ]
    );

    assert_eq!(sheet.update(&1, row(entry(2020, 1, 2, "b", 25))), Ok(()));
    assert_eq!(
        rows_of(&sheet),
        vec![
            (entry(2019, 12, 31, "e", -1), balance(-1)),
            (entry(2020, 1, 2, "b", 25), balance(24)),
            (entry(2020, 1, 3, "c", 3), balance(27)),
        ]
    );
    assert_consistent(&sheet);
}

#[test]
fn update_of_a_missing_row_is_reported_and_changes_nothing() {
    let mut sheet = TransactionSheet::new("t");
    assert_eq!(
        sheet.update(&0, row(entry(2020, 1, 1, "a", 1))),
        Err(SheetError::NoSuchRow)
    );
    assert!(sheet.lines().is_empty());

    sheet.insert(row(entry(2020, 1, 1, "a", 100)));
    sheet.insert(row(entry(2020, 1, 2, "b", 20)));
    let before = rows_of(&sheet);
    assert_eq!(
        sheet.update(&2, row(entry(2020, 1, 1, "z", 1))),
        Err(SheetError::NoSuchRow)
    );
    assert_eq!(
        sheet.update(&u32::MAX, row(entry(2020, 1, 1, "z", 1))),
        Err(SheetError::NoSuchRow)
    );
    assert_eq!(rows_of(&sheet), before);
    assert_eq!(sheet.title(), "t");
}

#[test]
fn balances_reach_the_limits_of_the_amount() {
    let mut sheet = TransactionSheet::new("");
    sheet.insert(row(entry(2020, 1, 1, "a", i64::MAX)));
    sheet.insert(row(entry(2020, 1, 2, "b", i64::MIN)));
    sheet.insert(row(entry(2020, 1, 3, "c", i64::MIN + 1)));
    assert_eq!(
        rows_of(&sheet),
        vec![
            (entry(2020, 1, 1, "a", i64::MAX), balance(i64::MAX)),
            (entry(2020, 1, 2, "b", i64::MIN), balance(-1)),
            (entry(2020, 1, 3, "c", i64::MIN + 1), balance(i64::MIN)),
        ]
    );
}

#[test]
fn row_indices_are_positions_and_move_with_changes() {
    let mut sheet = TransactionSheet::new("");
    sheet.insert(row(entry(2020, 1, 2, "b", 20)));
    assert_eq!(sheet.get_row(&0), Some((entry(2020, 1, 2, "b", 20), balance(20))));
    sheet.insert(row(entry(2020, 1, 1, "a", 100)));
    assert_eq!(sheet.get_row(&0), Some((entry(2020, 1, 1, "a", 100), balance(100))));
    assert_eq!(sheet.get_row(&1), Some((entry(2020, 1, 2, "b", 20), balance(120))));
    assert_eq!(sheet.update(&0, row(entry(2020, 1, 3, "c", 3))), Ok(()));
    assert_eq!(sheet.get_row(&0), Some((entry(2020, 1, 2, "b", 20), balance(20))));
    assert_eq!(sheet.get_row(&1), Some((entry(2020, 1, 3, "c", 3), balance(23))));
}

#[test]
fn room_for_a_row_depends_on_every_balance() {
    let mut sheet = TransactionSheet::new("");
    assert!(sheet.has_room_for(&entry(2020, 1, 1, "a", i64::MAX)));
    assert!(sheet.has_room_for(&entry(2020, 1, 1, "a", i64::MIN)));
    sheet.insert(row(entry(2020, 1, 2, "a", i64::MAX)));
    assert!(!sheet.has_room_for(&entry(2020, 1, 1, "early", 1)));
    assert!(!sheet.has_room_for(&entry(2020, 1, 3, "late", 1)));
    assert!(sheet.has_room_for(&entry(2020, 1, 1, "early", -1)));
    assert!(sheet.has_room_for(&entry(2020, 1, 3, "late", 0)));
    assert!(sheet.has_room_for(&entry(2020, 1, 3, "late", i64::MIN)));

    sheet.insert(row(entry(2020, 1, 3, "b", -10)));
    // The sum fits, but the balance after the first two rows would not.
    assert!(!sheet.has_room_for(&entry(2020, 1, 1, "early", 5)));
    assert!(sheet.has_room_for(&entry(2020, 1, 4, "late", 5)));
    assert!(!sheet.has_room_for(&entry(2020, 1, 4, "late", 11)));
    assert_eq!(rows_of(&sheet).len(), 2);
}

#[test]
fn room_to_replace_a_row() {
    let mut sheet = TransactionSheet::new("");
    sheet.insert(row(entry(2020, 1, 1, "a", i64::MAX)));
    sheet.insert(row(entry(2020, 1, 2, "b", -10)));
    assert!(sheet.has_room_to_replace(0, &entry(2020, 1, 1, "a", i64::MIN + 10)));
    assert!(!sheet.has_room_to_replace(0, &entry(2020, 1, 1, "a", i64::MIN)));
    assert!(sheet.has_room_to_replace(1, &entry(2020, 1, 2, "b", 0)));
    assert!(!sheet.has_room_to_replace(1, &entry(2020, 1, 2, "b", 1)));
    assert!(!sheet.has_room_to_replace(1, &entry(2019, 1, 2, "b", 1)));
    assert!(sheet.has_room_to_replace(0, &entry(2020, 1, 3, "c", i64::MIN + 10)));
    assert!(!sheet.has_room_to_replace(0, &entry(2020, 1, 3, "c", i64::MIN + 9)));
    assert!(sheet.has_room_to_replace(2, &entry(2020, 1, 3, "c", i64::MAX)));
    assert!(sheet.has_room_to_replace(u32::MAX, &entry(2020, 1, 3, "c", i64::MAX)));
    assert_eq!(
        rows_of(&sheet),
        vec![
            (entry(2020, 1, 1, "a", i64::MAX), balance(i64::MAX)),
            (entry(2020, 1, 2, "b", -10), balance(i64::MAX - 10)),
        ]
    );
}

struct Notes {
    lines: Vec<String>,
}

impl Sheet for Notes {
    type Row = String;
    type RowFind = usize;
    type RowHandle = String;

    fn title(&self) -> &str {
        "notes"
    }

    fn headers(&self) -> Vec<&str> {
        vec!["note"]
    }

    fn lines(&self) -> Vec<String> {
        self.lines.clone()
    }

    fn insert(&mut self, row: String) {
        self.lines.push(row);
    }

    fn update(&mut self, old_row: &usize, new_row: String) -> Result<(), SheetError> {
        match self.lines.get_mut(*old_row) {
            Some(line) => {
                *line = new_row;
                Ok(())
            }
            None => Err(SheetError::NoSuchRow),
        }
    }

    fn get_row(&self, find: &usize) -> Option<String> {
        self.lines.get(*find).cloned()
    }
}

fn describe<S: Sheet>(sheet: &S) -> String {
    format!("{} [{}] {}", sheet.title(), sheet.headers().join("|"), sheet.lines().len())
}

#[test]
fn sheets_of_other_rows_fit_the_same_interface() {
    let mut notes = Notes { lines: Vec::new() };
    notes.insert(String::from("first"));
    notes.insert(String::from("second"));
    assert_eq!(notes.update(&1, String::from("2nd")), Ok(()));
    assert_eq!(notes.update(&2, String::from("3rd")), Err(SheetError::NoSuchRow));
    assert_eq!(notes.get_row(&1), Some(String::from("2nd")));
    assert_eq!(describe(&notes), "notes [note] 2");

    let mut ledger = TransactionSheet::new("ledger");
    ledger.insert(row(entry(2020, 1, 1, "a", 1)));
    assert_eq!(
        describe(&ledger),
        "ledger [date|vendor|description|location|amount|category|balance] 1"
    );
}
