use bean_rs::data::{
    get_payee_narration, Amount, Commodity, DebugLine, Directive, Metadata, Options, Pad, Posting,
    Transaction, DATE_FMT,
};
use bean_rs::date::Date;
use bean_rs::decimal::Decimal;
use bean_rs::error::{BeanError, ErrorType};
use bean_rs::text::usize_text;

fn parts(d: Decimal) -> (i128, u32) {
    (d.mantissa(), d.scale())
}

#[test]
fn decimal_keeps_mantissa_and_scale() {
    let d = Decimal::new(3141, 3);
    assert_eq!(parts(d), (3141, 3));
    assert_eq!(parts(Decimal::new(-5, 28)), (-5, 28));
    assert_eq!(parts(Decimal::zero()), (0, 0));
}

#[test]
fn decimal_sum_is_taken_at_the_larger_scale() {
    assert_eq!(parts(Decimal::new(15, 1).add(Decimal::new(25, 1))), (40, 1));
    assert_eq!(parts(Decimal::new(15, 1).add(Decimal::new(25, 2))), (175, 2));
    assert_eq!(parts(Decimal::new(1, 0).add(Decimal::new(-1, 0))), (0, 0));
    assert_eq!(parts(Decimal::zero().add(Decimal::new(100, 2))), (100, 2));
}

#[test]
fn decimal_difference_is_taken_at_the_larger_scale() {
    assert_eq!(parts(Decimal::new(15, 1).sub(Decimal::new(25, 1))), (-10, 1));
    assert_eq!(parts(Decimal::new(100, 0).sub(Decimal::zero())), (100, 0));
    assert_eq!(parts(Decimal::new(40, 0).sub(Decimal::new(505, 1))), (-105, 1));
}

#[test]
fn decimal_sum_stops_at_the_largest_number() {
    let max = Decimal::parse("79228162514264337593543950335").unwrap();
    assert_eq!(parts(max), (79228162514264337593543950335, 0));
    assert_eq!(parts(max.add(max)), (79228162514264337593543950335, 0));
    assert_eq!(parts(max.neg().sub(max)), (-79228162514264337593543950335, 0));
}

#[test]
fn decimal_sign_is_turned_and_dropped() {
    assert_eq!(parts(Decimal::new(15, 1).neg()), (-15, 1));
    assert_eq!(parts(Decimal::new(-15, 1).neg()), (15, 1));
    assert_eq!(parts(Decimal::new(-15, 1).abs()), (15, 1));
    assert_eq!(parts(Decimal::new(15, 1).abs()), (15, 1));
    assert_eq!(parts(Decimal::new(0, 2).neg()), (0, 2));
}

#[test]
fn decimal_is_compared_by_value() {
    assert!(Decimal::new(2, 0).gt(Decimal::new(15, 1)));
    assert!(!Decimal::new(15, 1).gt(Decimal::new(2, 0)));
    assert!(!Decimal::new(10, 1).gt(Decimal::new(1, 0)));
    assert!(Decimal::new(-1, 3).gt(Decimal::new(-1, 2)));
    assert!(Decimal::new(1, 28).gt(Decimal::zero()));
    assert!(!Decimal::new(1, 3).gt(Decimal::new(1, 3)));
}

#[test]
fn decimal_is_written_with_its_scale() {
    assert_eq!(Decimal::new(3141, 3).to_text(), "3.141");
    assert_eq!(Decimal::new(-100, 1).to_text(), "-10.0");
    assert_eq!(Decimal::new(5, 3).to_text(), "0.005");
    assert_eq!(Decimal::new(40, 0).to_text(), "40");
}

#[test]
fn decimal_is_read_from_text() {
    assert_eq!(Decimal::parse("1.50").map(parts), Some((150, 2)));
    assert_eq!(Decimal::parse("-7").map(parts), Some((-7, 0)));
    assert!(Decimal::parse("1.0.0").is_none());
    assert!(Decimal::parse("abc").is_none());
}

#[test]
fn amount_is_read_without_its_commas() {
    let a = Amount::parse("1,000.50", "USD").unwrap();
    assert_eq!(parts(a.number), (100050, 2));
    assert_eq!(a.ccy, "USD");
    let b = Amount::parse("12", "GBP").unwrap();
    assert_eq!(parts(b.number), (12, 0));
    assert!(Amount::parse("1,.0.0", "BAR").is_none());
}

#[test]
fn amounts_agree_within_the_tolerance() {
    let a = Amount::new(Decimal::new(1000, 2), "USD".to_string());
    assert!(a == Amount::new(Decimal::new(10, 0), "USD".to_string()));
    assert!(a == Amount::new(Decimal::new(10001, 3), "USD".to_string()));
    assert!(a == Amount::new(Decimal::new(9999, 3), "USD".to_string()));
    assert!(a != Amount::new(Decimal::new(10002, 3), "USD".to_string()));
    assert!(a != Amount::new(Decimal::new(1000, 2), "GBP".to_string()));
}

#[test]
fn date_is_a_day_of_the_calendar() {
    assert_eq!(
        Date::from_ymd_opt(2000, 1, 1),
        Some(Date { year: 2000, month: 1, day: 1 })
    );
    assert!(Date::from_ymd_opt(2024, 2, 29).is_some());
    assert!(Date::from_ymd_opt(2023, 2, 29).is_none());
    assert!(Date::from_ymd_opt(1900, 2, 29).is_none());
    assert!(Date::from_ymd_opt(2000, 2, 29).is_some());
    assert!(Date::from_ymd_opt(2023, 4, 31).is_none());
    assert!(Date::from_ymd_opt(2023, 12, 31).is_some());
    assert!(Date::from_ymd_opt(2023, 13, 1).is_none());
    assert!(Date::from_ymd_opt(2023, 0, 1).is_none());
    assert!(Date::from_ymd_opt(2023, 1, 0).is_none());
    assert!(Date::from_ymd_opt(-4, 2, 29).is_some());
    assert_eq!(Date::base(), Date { year: 1, month: 1, day: 1 });
}

#[test]
fn date_is_read_and_written() {
    let d = Date::parse_from_str("2023-01-31", DATE_FMT).unwrap();
    assert_eq!(d, Date { year: 2023, month: 1, day: 31 });
    assert_eq!(d.to_text(), "2023-01-31");
    assert_eq!(Date::base().to_text(), "0001-01-01");
    assert!(Date::parse_from_str("2023-02-30", DATE_FMT).is_none());
    assert!(Date::parse_from_str("yesterday", DATE_FMT).is_none());
    assert_eq!(Date { year: 2023, month: 2, day: 30 }.to_text(), "");
}

#[test]
fn dates_are_ordered_by_year_month_and_day() {
    let a = Date { year: 2023, month: 1, day: 31 };
    let b = Date { year: 2023, month: 2, day: 1 };
    let c = Date { year: 2024, month: 1, day: 1 };
    assert!(a.before(&b));
    assert!(b.before(&c));
    assert!(a.before(&c));
    assert!(!b.before(&a));
    assert!(!a.before(&a));
}

#[test]
fn numbers_are_written_in_digits() {
    assert_eq!(usize_text(0), "0");
    assert_eq!(usize_text(7), "7");
    assert_eq!(usize_text(10), "10");
    assert_eq!(usize_text(1234567890), "1234567890");
}

#[test]
fn debug_lines_are_all_the_same() {
    assert!(DebugLine::new(1) == DebugLine::new(2));
    assert_eq!(DebugLine::new(17).line, 17);
    assert_eq!(DebugLine::new(17).to_text(), "line:17");
    assert_eq!(DebugLine::default().line, 0);
}

#[test]
fn options_start_empty() {
    let o = Options::default();
    assert_eq!(o.title, "");
    assert_eq!(o.operating_currency, "");
}

#[test]
fn one_text_is_the_narration() {
    assert_eq!(
        get_payee_narration("Shop".to_string(), Some("Food".to_string())),
        (Some("Shop".to_string()), "Food".to_string())
    );
    assert_eq!(get_payee_narration("Food".to_string(), None), (None, "Food".to_string()));
}

#[test]
fn pad_becomes_a_transaction_of_two_postings() {
    let pad = Pad {
        date: Date { year: 2023, month: 1, day: 1 },
        account_to: "Assets:Bank".to_string(),
        account_from: "Equity:Opening".to_string(),
        debug: DebugLine { line: 12 },
    };
    let tx = Transaction::from_pad(pad, Amount::new(Decimal::new(1115, 1), "GOO".to_string()));
    assert_eq!(tx.date, Date { year: 2023, month: 1, day: 1 });
    assert_eq!(tx.ty, "pad");
    assert_eq!(tx.payee, None);
    assert_eq!(tx.narration, "");
    assert_eq!(tx.tag, None);
    assert_eq!(tx.link, None);
    assert!(tx.meta.is_empty());
    assert_eq!(tx.debug.line, 0);
    assert_eq!(tx.postings.len(), 2);
    assert_eq!(tx.postings[0].account, "Assets:Bank");
    let to = tx.postings[0].amount.as_ref().unwrap();
    assert_eq!((parts(to.number), to.ccy.as_str()), ((1115, 1), "GOO"));
    assert_eq!(tx.postings[1].account, "Equity:Opening");
    let from = tx.postings[1].amount.as_ref().unwrap();
    assert_eq!((parts(from.number), from.ccy.as_str()), ((-1115, 1), "GOO"));
    assert_eq!(tx.postings[0].debug.map(|d| d.line), Some(0));
    assert_eq!(
        tx.to_text(),
        "2023-01-01 pad  \n  Assets:Bank 111.5 GOO\n  Equity:Opening -111.5 GOO"
    );
}

#[test]
fn posting_of_an_amount_has_no_line() {
    let p = Posting::new("Assets:Bank".to_string(), Decimal::new(5, 0), "USD".to_string());
    assert_eq!(p.account, "Assets:Bank");
    assert!(p.debug.is_none());
    assert_eq!(p.to_text(), "  Assets:Bank 5 USD");
    let q = Posting { account: "Assets:Bank".to_string(), amount: None, debug: None };
    assert_eq!(q.to_text(), "  Assets:Bank ");
}

#[test]
fn records_are_written_as_in_the_ledger() {
    let date = Date { year: 2000, month: 1, day: 1 };
    let meta = vec![
        Metadata { key: "name".to_string(), val: "Dollar".to_string(), debug: DebugLine { line: 2 } },
        Metadata { key: "code".to_string(), val: "840".to_string(), debug: DebugLine { line: 3 } },
    ];
    assert_eq!(meta[0].to_text(), "  name:Dollar");
    let comm = Commodity { date, ccy: "USD".to_string(), meta, debug: DebugLine { line: 1 } };
    assert_eq!(comm.to_text(), "2000-01-01 commodity USD\n  name:Dollar\n  code:840");
    let tx = Transaction {
        date,
        ty: "*".to_string(),
        payee: Some("Shop".to_string()),
        narration: "Food".to_string(),
        tag: None,
        link: None,
        postings: vec![
            Posting::new("Expenses:Food".to_string(), Decimal::new(1250, 2), "USD".to_string()),
            Posting { account: "Assets:Bank".to_string(), amount: None, debug: None },
        ],
        meta: vec![Metadata {
            key: "k".to_string(),
            val: "v".to_string(),
            debug: DebugLine { line: 2 },
        }],
        debug: DebugLine { line: 1 },
    };
    assert_eq!(
        Directive::Transaction(tx).to_text(),
        "2000-01-01 * Shop Food\n  k:v\n  Expenses:Food 12.50 USD\n  Assets:Bank "
    );
}

#[test]
fn diagnostic_carries_the_directive() {
    let comm = Commodity {
        date: Date::from_ymd_opt(2000, 1, 1).unwrap(),
        ccy: "USD".to_string(),
        meta: vec![],
        debug: DebugLine { line: 0 },
    };
    let err = BeanError::new(
        ErrorType::Badline,
        &DebugLine { line: 4 },
        "Found unparseable line",
        Some(&Directive::Commodity(comm)),
    );
    assert_eq!(err.ty, ErrorType::Badline);
    assert_eq!(err.debug.line, 4);
    assert_eq!(err.msg, "Found unparseable line\n2000-01-01 commodity USD");
    assert_eq!(err.to_text(), "line:line:4:  Found unparseable line\n2000-01-01 commodity USD");
    let bare = BeanError::new(ErrorType::Badline, &DebugLine { line: 4 }, "Found unparseable line", None);
    assert_eq!(bare.msg, "Found unparseable line");
}
