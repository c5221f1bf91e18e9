use ledgerize::date::{Date, date_from_parsed, parse_date};
use ledgerize::format_spec::{dollar_currency, share_currency};
use ledgerize::ledger::{
    RowError, Transaction, build_transaction, format_txn_as_ledger, money_is_negative,
    transaction_from_row,
};
use ledgerize::money::Money;
use ledgerize::parse::ParseError;

fn txn(amount: Money, share: Money) -> Transaction {
    Transaction {
        date: parse_date("04/28/2017").unwrap(),
        investment: String::from("FOOS"),
        txtype: String::from("CONTRIBUTIONS"),
        amount,
        share,
    }
}

#[test]
fn test_format() {
    let t = txn(Money::of_major(dollar_currency(), 15), Money::of_major(share_currency(), 2));
    let text = format_txn_as_ledger(t, String::from("Assets:Cash"), String::from("Assets:Investments"));
    println!("{}", text);
    assert_eq!(
        text,
        "2017-04-28 CONTRIBUTIONS\n  Assets:Investments\t\t2.000 FOOS\n  Assets:Cash\t\t-15.00 USD\n\n"
    );
}

#[test]
fn negative_share_keeps_cash_sign() {
    let t = txn(
        Money::of_major_minor(dollar_currency(), 1234, 56),
        Money::of_major_minor(share_currency(), -1, -500),
    );
    let text = format_txn_as_ledger(t, String::from("Assets:Cash"), String::from("Assets:Investments"));
    assert_eq!(
        text,
        "2017-04-28 CONTRIBUTIONS\n  Assets:Investments\t\t-1.500 FOOS\n  Assets:Cash\t\t1,234.56 USD\n\n"
    );
}

#[test]
fn positive_share_negates_cash() {
    let t = txn(
        Money::of_major_minor(dollar_currency(), -7, -25),
        Money::of_major_minor(share_currency(), 0, 125),
    );
    let text = format_txn_as_ledger(t, String::from("C"), String::from("S"));
    assert_eq!(text, "2017-04-28 CONTRIBUTIONS\n  S\t\t0.125 FOOS\n  C\t\t7.25 USD\n\n");
}

#[test]
fn zero_share_negates_cash() {
    let t = txn(Money::of_major(dollar_currency(), 3), Money::of_major(share_currency(), 0));
    let text = format_txn_as_ledger(t, String::from("C"), String::from("S"));
    assert!(text.ends_with("  C\t\t-3.00 USD\n\n"));
}

#[test]
fn extreme_cash_amount_is_negated_exactly() {
    let t = txn(Money { minor: i64::MIN, unit: dollar_currency() }, Money::of_major(share_currency(), 1));
    let text = format_txn_as_ledger(t, String::from("C"), String::from("S"));
    assert!(text.ends_with("  C\t\t92,233,720,368,547,758.08 USD\n\n"));
}

#[test]
fn money_sign() {
    assert!(money_is_negative(Money::of_major_minor(share_currency(), 0, -1)));
    assert!(!money_is_negative(Money::of_major(share_currency(), 0)));
}

#[test]
fn dates_read_and_write() {
    assert_eq!(parse_date("04/28/2017"), Some(Date { year: 2017, month: 4, day: 28 }));
    assert_eq!(parse_date("2017-04-28"), None);
    assert_eq!(parse_date("02/30/2017"), None);
    assert_eq!(date_from_parsed(Some((2017, 13, 1))), None);
    assert_eq!(date_from_parsed(None), None);
    let t = Transaction {
        date: Date { year: 5, month: 1, day: 2 },
        investment: String::from("X"),
        txtype: String::from("T"),
        amount: Money::of_major(dollar_currency(), 0),
        share: Money::of_major(share_currency(), 0),
    };
    let text = format_txn_as_ledger(t, String::from("C"), String::from("S"));
    assert!(text.starts_with("0005-01-02 T\n"));
}

#[test]
fn rows_become_transactions() {
    let t = build_transaction("04/28/2017", "FOOS", "DISABILITY PREMIUM", "-1,500.00", "-15.083").unwrap();
    assert_eq!(t.date, Date { year: 2017, month: 4, day: 28 });
    assert_eq!(t.investment, "FOOS");
    assert_eq!(t.txtype, "DISABILITY PREMIUM");
    assert_eq!(t.amount, Money::of_major(dollar_currency(), -1500));
    assert_eq!(t.share, Money::of_major_minor(share_currency(), -15, -83));
    let text = format_txn_as_ledger(t, String::from("Assets:Cash"), String::from("Assets:Investments"));
    assert!(text.ends_with("  Assets:Cash\t\t-1,500.00 USD\n\n"));
}

#[test]
fn row_errors() {
    assert_eq!(
        build_transaction("4-28-2017", "F", "T", "1.00", "1.000").unwrap_err(),
        RowError::DateParse(String::from("4-28-2017"))
    );
    assert_eq!(
        build_transaction("04/28/2017", "F", "T", "1.0", "1.000").unwrap_err(),
        RowError::MoneyParse(ParseError { text: String::from("1.0") })
    );
    assert_eq!(
        build_transaction("04/28/2017", "F", "T", "1.00", "1.00").unwrap_err(),
        RowError::MoneyParse(ParseError { text: String::from("1.00") })
    );
    let short = vec![String::from("04/28/2017"), String::from("F")];
    assert_eq!(transaction_from_row(&short).unwrap_err(), RowError::RowShape(2));
    let row: Vec<String> = ["04/28/2017", "FOOS", "CONTRIBUTION", "15.00", "2.000"]
        .iter()
        .map(|s| s.to_string())
        .collect();
    let t = transaction_from_row(&row).unwrap();
    assert_eq!(t.share.minor_amount(), 2000);
}
