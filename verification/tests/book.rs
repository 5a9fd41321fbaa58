use bean_rs::book::{
    balance_transactions, check_transaction, complete_and_check, complete_postings, get_balances,
    proc_tx, AccBal, AccStatuses, AccountStatus,
};
use bean_rs::data::{
    Amount, Balance, Close, DebugLine, Directive, Open, Pad, Posting, Transaction,
};
use bean_rs::date::Date;
use bean_rs::decimal::Decimal;
use bean_rs::error::{BeanError, ErrorType};
use bean_rs::table::Table;

fn day(year: i32, month: u32, day: u32) -> Date {
    Date::from_ymd_opt(year, month, day).unwrap()
}

fn priced(account: &str, num: i64, scale: u32, ccy: &str) -> Posting {
    Posting {
        account: account.to_string(),
        amount: Some(Amount::new(Decimal::new(num, scale), ccy.to_string())),
        debug: None,
    }
}

fn elided(account: &str) -> Posting {
    Posting { account: account.to_string(), amount: None, debug: None }
}

fn transaction(date: Date, postings: Vec<Posting>) -> Transaction {
    Transaction {
        date,
        ty: "*".to_string(),
        payee: None,
        narration: "".to_string(),
        tag: None,
        link: None,
        postings,
        meta: vec![],
        debug: DebugLine { line: 0 },
    }
}

fn open(date: Date, account: &str, ccys: &[&str]) -> Directive {
    Directive::Open(Open {
        date,
        account: account.to_string(),
        ccys: ccys.iter().map(|c| c.to_string()).collect(),
        meta: vec![],
        debug: DebugLine { line: 1 },
    })
}

fn number(bals: &AccBal, account: &str, ccy: &str) -> Option<(i128, u32)> {
    let inner = bals.get(&account.to_string())?;
    let n = inner.get(&ccy.to_string())?;
    Some((n.mantissa(), n.scale()))
}

fn kinds(errs: &[BeanError]) -> Vec<ErrorType> {
    errs.iter().map(|e| e.ty).collect()
}

#[test]
fn test_bad_transaction() {
    let p1 = Posting { account: "Assets:Bank".to_string(), amount: None, debug: None };
    let p2 = p1.clone();
    let date = day(2023, 1, 1);
    let mut tx = Transaction {
        date,
        ty: "*".to_string(),
        payee: None,
        narration: "".to_string(),
        tag: None,
        link: None,
        postings: vec![p1, p2],
        meta: vec![],
        debug: DebugLine { line: 0 },
    };
    let errs = complete_postings(&mut tx);
    assert!(errs.first().unwrap().ty == ErrorType::MultipleEmptyPostings);
}

#[test]
fn test_bad_ccy() {
    let p1 = Posting {
        account: "Assets:Bank".to_string(),
        amount: Some(Amount::new(Decimal::new(100, 1), "USD".to_string())),
        debug: None,
    };
    let p2 = Posting {
        account: "Income:Job".to_string(),
        amount: Some(Amount::new(Decimal::new(-100, 1), "USD".to_string())),
        debug: None,
    };
    let date = day(2023, 1, 1);
    let tx = Transaction {
        date,
        ty: "*".to_string(),
        payee: None,
        narration: "".to_string(),
        tag: None,
        link: None,
        postings: vec![p1, p2],
        meta: vec![],
        debug: DebugLine { line: 0 },
    };
    let mut bals: AccBal = Table::new();
    let mut accs: AccStatuses = Table::new();
    accs.insert(
        "Assets:Bank".to_string(),
        AccountStatus { open: true, ccys: vec!["FOO".to_string()] },
    );
    accs.insert(
        "Income:Job".to_string(),
        AccountStatus { open: true, ccys: vec!["FOO".to_string()] },
    );
    let mut errs: Vec<BeanError> = vec![];
    proc_tx(&tx, &mut bals, &mut accs, &mut errs);
    assert!(errs.first().unwrap().ty == ErrorType::InvalidCcy);
}

#[test]
fn test_closed_acc() {
    let p1 = Posting {
        account: "Assets:Bank".to_string(),
        amount: Some(Amount::new(Decimal::new(100, 1), "USD".to_string())),
        debug: None,
    };
    let p2 = Posting {
        account: "Income:Job".to_string(),
        amount: Some(Amount::new(Decimal::new(-100, 1), "USD".to_string())),
        debug: None,
    };
    let date = day(2023, 1, 1);
    let tx = Transaction {
        date,
        ty: "*".to_string(),
        payee: None,
        narration: "".to_string(),
        tag: None,
        link: None,
        postings: vec![p1, p2],
        meta: vec![],
        debug: DebugLine { line: 0 },
    };
    let mut bals: AccBal = Table::new();
    let mut accs: AccStatuses = Table::new();
    accs.insert(
        "Assets:Bank".to_string(),
        AccountStatus { open: false, ccys: vec!["USD".to_string()] },
    );
    accs.insert(
        "Income:Job".to_string(),
        AccountStatus { open: false, ccys: vec!["USD".to_string()] },
    );
    let mut errs: Vec<BeanError> = vec![];
    proc_tx(&tx, &mut bals, &mut accs, &mut errs);
    assert!(errs.first().unwrap().ty == ErrorType::ClosedAccount);
}

#[test]
fn two_elided_postings_give_one_diagnostic_and_stay() {
    let mut tx = transaction(
        day(2023, 1, 1),
        vec![elided("Assets:Bank"), priced("Income:Job", -100, 1, "USD"), elided("Assets:Cash")],
    );
    let errs = complete_and_check(&mut tx);
    let multiple = errs.iter().filter(|e| e.ty == ErrorType::MultipleEmptyPostings).count();
    assert_eq!(multiple, 1);
    assert_eq!(tx.postings.len(), 3);
    assert!(tx.postings[0].amount.is_none());
    assert_eq!(tx.postings[1].account, "Income:Job");
    assert!(tx.postings[2].amount.is_none());
    assert_eq!(kinds(&errs), vec![ErrorType::MultipleEmptyPostings, ErrorType::UnbalancedTransaction]);
    assert_eq!(
        errs[0].msg,
        "Found multiple empty postings for Transaction:\n2023-01-01 *  \n  Assets:Bank \n  Income:Job -10.0 USD\n  Assets:Cash "
    );
}

#[test]
fn one_elided_posting_takes_the_opposite_sum() {
    let mut tx = transaction(
        day(2023, 1, 1),
        vec![priced("Expenses:Food", 1250, 2, "USD"), elided("Assets:Bank")],
    );
    let errs = complete_postings(&mut tx);
    assert!(errs.is_empty());
    assert_eq!(tx.postings.len(), 2);
    assert_eq!(tx.postings[0].account, "Expenses:Food");
    assert_eq!(tx.postings[1].account, "Assets:Bank");
    let plug = tx.postings[1].amount.as_ref().unwrap();
    assert_eq!((plug.number.mantissa(), plug.number.scale()), (-1250, 2));
    assert_eq!(plug.ccy, "USD");
    assert!(tx.postings[1].debug.is_none());
    assert!(check_transaction(&tx).is_empty());
}

#[test]
fn one_elided_posting_takes_one_posting_for_each_currency() {
    let mut tx = transaction(
        day(2023, 1, 1),
        vec![
            priced("Expenses:Food", 10, 0, "USD"),
            elided("Assets:Bank"),
            priced("Expenses:Food", 5, 0, "GBP"),
            priced("Expenses:Rent", 20, 0, "USD"),
            priced("Expenses:Gift", 7, 0, "EUR"),
            priced("Income:Gift", -7, 0, "EUR"),
        ],
    );
    let errs = complete_and_check(&mut tx);
    assert!(errs.is_empty());
    assert_eq!(tx.postings.len(), 7);
    let first = tx.postings[5].amount.as_ref().unwrap();
    assert_eq!(tx.postings[5].account, "Assets:Bank");
    assert_eq!((first.number.mantissa(), first.number.scale(), first.ccy.as_str()), (-30, 0, "USD"));
    let second = tx.postings[6].amount.as_ref().unwrap();
    assert_eq!(tx.postings[6].account, "Assets:Bank");
    assert_eq!((second.number.mantissa(), second.number.scale(), second.ccy.as_str()), (-5, 0, "GBP"));
}

#[test]
fn sums_within_the_tolerance_take_no_posting() {
    let mut tx = transaction(
        day(2023, 1, 1),
        vec![
            priced("Expenses:Food", 10000, 3, "USD"),
            priced("Assets:Cash", -9999, 3, "USD"),
            elided("Assets:Bank"),
        ],
    );
    let errs = complete_and_check(&mut tx);
    assert!(errs.is_empty());
    assert_eq!(tx.postings.len(), 2);
}

#[test]
fn complete_transaction_is_left_as_it_is_twice() {
    let mut tx = transaction(
        day(2023, 1, 1),
        vec![priced("Assets:Bank", 100, 1, "USD"), priced("Income:Job", -100, 1, "USD")],
    );
    let before = tx.clone();
    let first = complete_and_check(&mut tx);
    assert!(first.is_empty());
    assert!(tx == before);
    let once = tx.clone();
    let second = complete_and_check(&mut tx);
    assert!(second.is_empty());
    assert!(tx == once);
    assert_eq!(tx.postings.len(), 2);
    assert_eq!(tx.postings[0].account, "Assets:Bank");
    assert_eq!(tx.postings[1].account, "Income:Job");
}

#[test]
fn unbalanced_currency_is_named() {
    let tx = transaction(
        day(2023, 1, 1),
        vec![
            priced("Assets:Bank", 100, 1, "USD"),
            priced("Income:Job", -90, 1, "USD"),
            priced("Assets:Bank", 3, 0, "GBP"),
            priced("Income:Job", -3, 0, "GBP"),
            priced("Assets:Bank", 2, 3, "EUR"),
        ],
    );
    let errs = check_transaction(&tx);
    assert_eq!(kinds(&errs), vec![ErrorType::UnbalancedTransaction, ErrorType::UnbalancedTransaction]);
    assert!(errs[0].msg.starts_with("Transaction unbalanced for currency: USD\n2023-01-01 *"));
    assert!(errs[1].msg.starts_with("Transaction unbalanced for currency: EUR\n"));
}

#[test]
fn a_sum_of_exactly_the_tolerance_is_balanced() {
    let tx = transaction(day(2023, 1, 1), vec![priced("Assets:Bank", 1, 3, "USD")]);
    assert!(check_transaction(&tx).is_empty());
    let tx = transaction(day(2023, 1, 1), vec![priced("Assets:Bank", -1, 3, "USD")]);
    assert!(check_transaction(&tx).is_empty());
    let tx = transaction(day(2023, 1, 1), vec![priced("Assets:Bank", -11, 4, "USD")]);
    assert_eq!(check_transaction(&tx).len(), 1);
}

#[test]
fn booking_keeps_the_order_of_directives_and_diagnostics() {
    let mut dirs = vec![
        Directive::Transaction(transaction(
            day(2023, 1, 2),
            vec![priced("Assets:Bank", 1, 0, "USD")],
        )),
        open(day(2023, 1, 1), "Assets:Bank", &[]),
        Directive::Transaction(transaction(
            day(2023, 1, 1),
            vec![elided("Assets:Bank"), elided("Assets:Bank")],
        )),
        Directive::Transaction(transaction(
            day(2023, 1, 1),
            vec![priced("Assets:Bank", 4, 0, "USD"), elided("Income:Job")],
        )),
    ];
    let errs = balance_transactions(&mut dirs);
    assert_eq!(kinds(&errs), vec![ErrorType::UnbalancedTransaction, ErrorType::MultipleEmptyPostings]);
    assert_eq!(dirs.len(), 4);
    assert!(matches!(dirs[1], Directive::Open(_)));
    match &dirs[3] {
        Directive::Transaction(t) => {
            assert_eq!(t.postings.len(), 2);
            assert_eq!(t.postings[1].account, "Income:Job");
            assert_eq!(t.postings[1].amount.as_ref().unwrap().number.mantissa(), -4);
        }
        _ => panic!("the transaction moved"),
    }
}

#[test]
fn posting_to_an_unopened_account_is_reported() {
    let tx = transaction(day(2023, 1, 1), vec![priced("Assets:Bank", 100, 1, "USD")]);
    let mut dirs = vec![Directive::Transaction(tx)];
    let (bals, errs) = get_balances(&mut dirs);
    assert_eq!(kinds(&errs), vec![ErrorType::NoAccount]);
    assert!(errs[0].msg.starts_with("Transaction referred to non-existent Account: Assets:Bank\n"));
    assert_eq!(bals.len(), 0);
}

#[test]
fn posting_after_a_close_is_reported() {
    let mut dirs = vec![
        open(day(2023, 1, 1), "Assets:Bank", &[]),
        Directive::Transaction(transaction(
            day(2023, 1, 2),
            vec![priced("Assets:Bank", 5, 0, "USD")],
        )),
        Directive::Close(Close {
            date: day(2023, 1, 3),
            account: "Assets:Bank".to_string(),
            debug: DebugLine { line: 3 },
        }),
        Directive::Transaction(transaction(
            day(2023, 1, 4),
            vec![priced("Assets:Bank", 7, 0, "USD")],
        )),
    ];
    let (bals, errs) = get_balances(&mut dirs);
    assert_eq!(kinds(&errs), vec![ErrorType::ClosedAccount]);
    assert!(errs[0].msg.starts_with("Transaction referred to closed Account: Assets:Bank\n"));
    assert_eq!(number(&bals, "Assets:Bank", "USD"), Some((5, 0)));
}

#[test]
fn pad_covers_the_asserted_balance() {
    let mut dirs = vec![
        open(day(2023, 1, 1), "Assets:Bank", &[]),
        open(day(2023, 1, 1), "Equity:Opening", &[]),
        Directive::Pad(Pad {
            date: day(2023, 1, 1),
            account_to: "Assets:Bank".to_string(),
            account_from: "Equity:Opening".to_string(),
            debug: DebugLine { line: 3 },
        }),
        Directive::Balance(Balance {
            date: day(2023, 1, 2),
            account: "Assets:Bank".to_string(),
            amount: Amount::new(Decimal::new(100, 0), "USD".to_string()),
            debug: DebugLine { line: 4 },
        }),
    ];
    let (bals, errs) = get_balances(&mut dirs);
    assert!(errs.is_empty());
    assert_eq!(number(&bals, "Assets:Bank", "USD"), Some((100, 0)));
    assert_eq!(number(&bals, "Equity:Opening", "USD"), Some((-100, 0)));
    assert_eq!(bals.len(), 2);
    assert_eq!(dirs.len(), 5);
    assert!(matches!(dirs[2], Directive::Pad(_)));
    match &dirs[3] {
        Directive::Transaction(t) => {
            assert_eq!(t.date, day(2023, 1, 1));
            assert_eq!(t.ty, "pad");
            assert_eq!(t.postings.len(), 2);
            assert_eq!(t.postings[0].account, "Assets:Bank");
            assert_eq!(t.postings[1].account, "Equity:Opening");
        }
        _ => panic!("the transaction of the pad is missing"),
    }
    assert!(matches!(dirs[4], Directive::Balance(_)));
}

#[test]
fn pad_covers_a_second_currency() {
    let mut dirs = vec![
        open(day(2023, 1, 1), "Assets:Bank", &[]),
        open(day(2023, 1, 1), "Equity:Opening", &[]),
        Directive::Pad(Pad {
            date: day(2023, 1, 1),
            account_to: "Assets:Bank".to_string(),
            account_from: "Equity:Opening".to_string(),
            debug: DebugLine { line: 3 },
        }),
        Directive::Balance(Balance {
            date: day(2023, 1, 2),
            account: "Assets:Bank".to_string(),
            amount: Amount::new(Decimal::new(100, 0), "USD".to_string()),
            debug: DebugLine { line: 4 },
        }),
        Directive::Balance(Balance {
            date: day(2023, 1, 3),
            account: "Assets:Bank".to_string(),
            amount: Amount::new(Decimal::new(-25, 1), "GBP".to_string()),
            debug: DebugLine { line: 5 },
        }),
        Directive::Pad(Pad {
            date: day(2023, 1, 4),
            account_to: "Assets:Bank".to_string(),
            account_from: "Equity:Opening".to_string(),
            debug: DebugLine { line: 6 },
        }),
        Directive::Pad(Pad {
            date: day(2023, 1, 5),
            account_to: "Assets:Bank".to_string(),
            account_from: "Equity:Opening".to_string(),
            debug: DebugLine { line: 7 },
        }),
    ];
    let (bals, errs) = get_balances(&mut dirs);
    assert_eq!(kinds(&errs), vec![ErrorType::UnusedPad]);
    assert_eq!(errs[0].debug.line, 6);
    assert_eq!(
        errs[0].msg,
        "Multiple pads for Assets:Bank\n2023-01-04 Assets:Bank Equity:Opening"
    );
    assert_eq!(number(&bals, "Assets:Bank", "USD"), Some((100, 0)));
    assert_eq!(number(&bals, "Assets:Bank", "GBP"), Some((-25, 1)));
    assert_eq!(number(&bals, "Equity:Opening", "GBP"), Some((25, 1)));
    assert_eq!(dirs.len(), 9);
}

#[test]
fn currency_outside_the_list_is_reported() {
    let mut dirs = vec![
        open(day(2023, 1, 1), "Assets:Bank", &["USD"]),
        Directive::Transaction(transaction(
            day(2023, 1, 2),
            vec![priced("Assets:Bank", 10, 0, "GBP")],
        )),
        Directive::Transaction(transaction(
            day(2023, 1, 3),
            vec![priced("Assets:Bank", 10, 0, "USD")],
        )),
    ];
    let (bals, errs) = get_balances(&mut dirs);
    assert_eq!(kinds(&errs), vec![ErrorType::InvalidCcy]);
    assert!(errs[0].msg.starts_with("Invalid currency GBP for Assets:Bank\n"));
    assert_eq!(number(&bals, "Assets:Bank", "USD"), Some((10, 0)));
    assert_eq!(number(&bals, "Assets:Bank", "GBP"), None);
}

#[test]
fn failed_assertion_is_reported_and_changes_nothing() {
    let mut dirs = vec![
        open(day(2023, 1, 1), "Assets:Bank", &[]),
        Directive::Transaction(transaction(
            day(2023, 1, 2),
            vec![priced("Assets:Bank", 50, 0, "USD")],
        )),
        Directive::Balance(Balance {
            date: day(2023, 1, 3),
            account: "Assets:Bank".to_string(),
            amount: Amount::new(Decimal::new(40, 0), "USD".to_string()),
            debug: DebugLine { line: 9 },
        }),
    ];
    let (bals, errs) = get_balances(&mut dirs);
    assert_eq!(kinds(&errs), vec![ErrorType::BalanceAssertion]);
    assert_eq!(errs[0].debug.line, 9);
    assert_eq!(
        errs[0].msg,
        "Balance assertion failed: asserted 40 is not equal to 50\n2023-01-03 Assets:Bank 40 USD"
    );
    assert_eq!(number(&bals, "Assets:Bank", "USD"), Some((50, 0)));
    assert_eq!(bals.len(), 1);
    assert_eq!(dirs.len(), 3);
}

#[test]
fn assertion_below_the_balance_is_reported_too() {
    let mut dirs = vec![
        open(day(2023, 1, 1), "Assets:Bank", &[]),
        Directive::Balance(Balance {
            date: day(2023, 1, 3),
            account: "Assets:Bank".to_string(),
            amount: Amount::new(Decimal::new(-40, 0), "USD".to_string()),
            debug: DebugLine { line: 9 },
        }),
        Directive::Balance(Balance {
            date: day(2023, 1, 4),
            account: "Assets:Bank".to_string(),
            amount: Amount::new(Decimal::new(1, 3), "USD".to_string()),
            debug: DebugLine { line: 10 },
        }),
    ];
    let (bals, errs) = get_balances(&mut dirs);
    assert_eq!(kinds(&errs), vec![ErrorType::BalanceAssertion]);
    assert_eq!(errs[0].debug.line, 9);
    assert_eq!(bals.len(), 0);
}

#[test]
fn duplicate_open_and_close_are_reported() {
    let close = |d: u32, line: usize| {
        Directive::Close(Close {
            date: day(2023, 1, d),
            account: "Assets:Bank".to_string(),
            debug: DebugLine { line },
        })
    };
    let mut dirs = vec![
        close(1, 1),
        open(day(2023, 1, 2), "Assets:Bank", &[]),
        open(day(2023, 1, 3), "Assets:Bank", &[]),
        close(4, 4),
        close(5, 5),
        open(day(2023, 1, 6), "Assets:Bank", &[]),
    ];
    let (_, errs) = get_balances(&mut dirs);
    assert_eq!(kinds(&errs), vec![ErrorType::DuplicateOpen, ErrorType::DuplicateClose]);
    assert_eq!(errs[0].msg, "Duplicate open directive for Assets:Bank\n2023-01-03 Assets:Bank");
    assert_eq!(errs[1].msg, "Duplicate close directive for Assets:Bank\n2023-01-05 Assets:Bank");
    assert_eq!(errs[1].debug.line, 5);
}

#[test]
fn balances_add_up_over_transactions() {
    let mut dirs = vec![
        open(day(2023, 1, 1), "Assets:Bank", &[]),
        open(day(2023, 1, 1), "Income:Job", &[]),
        Directive::Transaction(transaction(
            day(2023, 1, 2),
            vec![priced("Assets:Bank", 100050, 2, "GBP"), priced("Income:Job", -100050, 2, "GBP")],
        )),
        Directive::Transaction(transaction(
            day(2023, 1, 3),
            vec![priced("Assets:Bank", -5, 1, "GBP"), priced("Income:Job", 5, 1, "GBP")],
        )),
    ];
    let (bals, errs) = get_balances(&mut dirs);
    assert!(errs.is_empty());
    assert_eq!(number(&bals, "Assets:Bank", "GBP"), Some((100000, 2)));
    assert_eq!(number(&bals, "Income:Job", "GBP"), Some((-100000, 2)));
}
