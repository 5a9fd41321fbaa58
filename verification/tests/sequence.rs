use bean_rs::data::{
    Amount, Balance, Close, Commodity, ConfigCustom, ConfigOption, DebugLine, Directive, Document,
    Note, Open, Pad, Price, Query, Transaction,
};
use bean_rs::date::Date;
use bean_rs::decimal::Decimal;
use bean_rs::loader::sort;

fn day(year: i32, month: u32, day: u32) -> Date {
    Date::from_ymd_opt(year, month, day).unwrap()
}

fn open(date: Date, line: usize) -> Directive {
    Directive::Open(Open {
        date,
        account: "Assets:Bank".to_string(),
        ccys: vec![],
        meta: vec![],
        debug: DebugLine { line },
    })
}

fn close(date: Date, line: usize) -> Directive {
    Directive::Close(Close { date, account: "Assets:Bank".to_string(), debug: DebugLine { line } })
}

fn balance(date: Date, line: usize) -> Directive {
    Directive::Balance(Balance {
        date,
        account: "Assets:Bank".to_string(),
        amount: Amount::new(Decimal::new(1, 0), "USD".to_string()),
        debug: DebugLine { line },
    })
}

fn transaction(date: Date, line: usize) -> Directive {
    Directive::Transaction(Transaction {
        date,
        ty: "*".to_string(),
        payee: None,
        narration: "".to_string(),
        tag: None,
        link: None,
        postings: vec![],
        meta: vec![],
        debug: DebugLine { line },
    })
}

fn pad(date: Date, line: usize) -> Directive {
    Directive::Pad(Pad {
        date,
        account_to: "Assets:Bank".to_string(),
        account_from: "Equity:Opening".to_string(),
        debug: DebugLine { line },
    })
}

fn note(date: Date, line: usize) -> Directive {
    Directive::Note(Note {
        date,
        account: "Assets:Bank".to_string(),
        note: "n".to_string(),
        debug: DebugLine { line },
    })
}

fn line(d: &Directive) -> usize {
    match d {
        Directive::ConfigCustom(d) => d.debug.line,
        Directive::ConfigOption(d) => d.debug.line,
        Directive::Commodity(d) => d.debug.line,
        Directive::Open(d) => d.debug.line,
        Directive::Close(d) => d.debug.line,
        Directive::Balance(d) => d.debug.line,
        Directive::Pad(d) => d.debug.line,
        Directive::Price(d) => d.debug.line,
        Directive::Document(d) => d.debug.line,
        Directive::Note(d) => d.debug.line,
        Directive::Query(d) => d.debug.line,
        Directive::Transaction(d) => d.debug.line,
    }
}

fn lines(dirs: &[Directive]) -> Vec<usize> {
    dirs.iter().map(line).collect()
}

#[test]
fn ranks_are_fixed_for_each_kind() {
    let d = day(2023, 1, 1);
    let debug = DebugLine { line: 0 };
    let amount = || Amount::new(Decimal::new(1, 0), "USD".to_string());
    assert_eq!(open(d, 0).order(), -2);
    assert_eq!(balance(d, 0).order(), -1);
    assert_eq!(transaction(d, 0).order(), 0);
    assert_eq!(pad(d, 0).order(), 0);
    assert_eq!(
        Directive::Price(Price { date: d, commodity: "X".to_string(), amount: amount(), debug })
            .order(),
        0
    );
    assert_eq!(
        Directive::Commodity(Commodity { date: d, ccy: "X".to_string(), meta: vec![], debug })
            .order(),
        0
    );
    assert_eq!(Directive::ConfigCustom(ConfigCustom { date: d, debug }).order(), 0);
    assert_eq!(
        Directive::ConfigOption(ConfigOption {
            date: d,
            key: "title".to_string(),
            val: "t".to_string(),
            debug
        })
        .order(),
        0
    );
    assert_eq!(
        Directive::Document(Document {
            date: d,
            account: "A".to_string(),
            path: "p".to_string(),
            debug
        })
        .order(),
        1
    );
    assert_eq!(note(d, 0).order(), 1);
    assert_eq!(
        Directive::Query(Query { date: d, name: "q".to_string(), query: "s".to_string(), debug })
            .order(),
        1
    );
    assert_eq!(close(d, 0).order(), 2);
    assert_eq!(*close(day(2023, 5, 6), 0).date(), day(2023, 5, 6));
    assert_eq!(*transaction(day(2021, 5, 6), 0).date(), day(2021, 5, 6));
}

#[test]
fn directives_of_one_day_go_by_rank() {
    let d = day(2023, 1, 1);
    let mut dirs = vec![close(d, 1), note(d, 2), transaction(d, 3), balance(d, 4), open(d, 5)];
    sort(&mut dirs);
    assert_eq!(lines(&dirs), vec![5, 4, 3, 2, 1]);
    let mut dirs = vec![transaction(d, 1), close(d, 2), open(d, 3)];
    sort(&mut dirs);
    assert_eq!(lines(&dirs), vec![3, 1, 2]);
}

#[test]
fn directives_go_by_day_first() {
    let mut dirs = vec![
        open(day(2023, 3, 1), 1),
        close(day(2023, 1, 1), 2),
        transaction(day(2022, 12, 31), 3),
        open(day(2023, 1, 2), 4),
        close(day(2021, 6, 30), 5),
    ];
    sort(&mut dirs);
    assert_eq!(lines(&dirs), vec![5, 3, 2, 4, 1]);
}

#[test]
fn directives_of_one_day_and_rank_keep_their_order() {
    let d = day(2023, 1, 1);
    let e = day(2023, 1, 2);
    let mut dirs = vec![
        transaction(e, 1),
        pad(d, 2),
        transaction(d, 3),
        transaction(e, 4),
        pad(d, 5),
        transaction(d, 6),
        open(d, 7),
        open(d, 8),
    ];
    sort(&mut dirs);
    assert_eq!(lines(&dirs), vec![7, 8, 2, 3, 5, 6, 1, 4]);
    sort(&mut dirs);
    assert_eq!(lines(&dirs), vec![7, 8, 2, 3, 5, 6, 1, 4]);
}

#[test]
fn nothing_and_one_directive_are_in_order() {
    let mut dirs: Vec<Directive> = vec![];
    sort(&mut dirs);
    assert!(dirs.is_empty());
    let mut dirs = vec![close(day(2023, 1, 1), 9)];
    sort(&mut dirs);
    assert_eq!(lines(&dirs), vec![9]);
}
