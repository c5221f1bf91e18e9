use ledgerize::format_spec::{
    FormatPart, FormatSpec, dollar_currency, dollar_formatter, dollar_formatter_without_symbol,
    share_currency, share_formatter, share_formatter_without_symbol,
};
use ledgerize::money::{Money, Unit};
use ledgerize::parse::{ParseError, add_currency_symbol, parse_money, parse_shares};

fn dollars(text: &str) -> Result<Money, ParseError> {
    dollar_formatter().parse(add_currency_symbol(text).as_str(), &dollar_currency())
}

fn shares(text: &str) -> Result<Money, ParseError> {
    share_formatter().parse(add_currency_symbol(text).as_str(), &share_currency())
}

#[test]
fn test_share_positive() {
    assert_eq!(Ok(Money::of_major_minor(share_currency(), 15, 83)), shares("15.083"));
}

#[test]
fn test_share_negative() {
    assert_eq!(Ok(Money::of_major_minor(share_currency(), -15, -83)), shares("-15.083"));
}

#[test]
fn test_positive() {
    assert_eq!(Ok(Money::of_major_minor(dollar_currency(), 15, 8)), dollars("15.08"));
}

#[test]
fn test_negative() {
    assert_eq!(Ok(Money::of_major_minor(dollar_currency(), -15, -8)), dollars("-15.08"));
}

#[test]
fn test_commas() {
    assert_eq!(Ok(Money::of_major(dollar_currency(), 1500)), dollars("1,500.00"));
}

#[test]
fn test_negative_commas() {
    assert_eq!(Ok(Money::of_major(dollar_currency(), -1500)), dollars("-1,500.00"));
}

#[test]
fn test_workaround() {
    assert_eq!(Ok(Money::of_major(dollar_currency(), 1)), dollars("1.00"));
}

#[test]
fn minor_totals_are_exact() {
    assert_eq!(dollars("15.08").unwrap().minor_amount(), 1508);
    assert_eq!(dollars("-15.08").unwrap().minor_amount(), -1508);
    assert_eq!(shares("15.083").unwrap().minor_amount(), 15083);
    assert_eq!(dollars("1.00").unwrap().minor_amount(), 100);
}

#[test]
fn commas_do_not_change_the_amount() {
    assert_eq!(dollars("1,500.00"), dollars("1500.00"));
    assert_eq!(parse_money("1,500.00"), parse_money("1500.00"));
    assert_eq!(parse_money("1,234,567.89").unwrap().minor_amount(), 123456789);
}

#[test]
fn share_precision_is_enforced() {
    assert!(parse_shares("15.083").is_ok());
    assert!(parse_shares("15.08").is_err());
    assert!(parse_shares("15.0830").is_err());
    assert!(parse_money("15.083").is_err());
    assert!(parse_money("15").is_err());
}

#[test]
fn leading_minus_negates() {
    for s in ["0.01", "15.08", "1,500.00", "92,233,720,368,547,758.07"] {
        let plain = parse_money(s).unwrap();
        let signed = parse_money(format!("-{}", s).as_str()).unwrap();
        assert_eq!(signed, plain.negate());
    }
}

#[test]
fn malformed_text_is_rejected_with_its_text() {
    for s in ["", "-", "1.2.30", "abc", "1x.00", "--1.00", "1.00-", "1.0a"] {
        assert_eq!(parse_money(s), Err(ParseError { text: String::from(s) }));
    }
}

#[test]
fn misplaced_grouping_is_rejected() {
    for s in ["15.08,", "1,5.00", "1.5,00", ",", "1,50.00", "1,,500.00", "1,500,.00"] {
        assert_eq!(parse_money(s), Err(ParseError { text: String::from(s) }));
    }
    for s in ["15.083,", "1,5.083", "15.0,83"] {
        assert_eq!(parse_shares(s), Err(ParseError { text: String::from(s) }));
    }
    assert_eq!(parse_money("1,500,000.00").unwrap().minor_amount(), 150000000);
}

#[test]
fn empty_whole_part_reads_as_zero() {
    assert_eq!(parse_money(".50").unwrap().minor_amount(), 50);
    assert_eq!(parse_money("-.05").unwrap().minor_amount(), -5);
    assert_eq!(parse_shares(".083").unwrap().minor_amount(), 83);
    assert!(parse_money(".").is_err());
}

#[test]
fn magnitudes_beyond_i64_are_rejected() {
    assert_eq!(parse_money("92,233,720,368,547,758.07").unwrap().minor_amount(), i64::MAX);
    assert!(parse_money("92,233,720,368,547,758.08").is_err());
    assert_eq!(parse_money("-92,233,720,368,547,758.08").unwrap().minor_amount(), i64::MIN);
    assert!(parse_money("-92,233,720,368,547,758.09").is_err());
    assert!(parse_money("1000000000000000000000000.00").is_err());
}

#[test]
fn missing_or_wrong_symbol_is_rejected() {
    let spec = dollar_formatter();
    assert!(spec.parse("15.08", &dollar_currency()).is_err());
    assert!(spec.parse("15.08€", &dollar_currency()).is_err());
    assert!(spec.parse("15.08$", &share_currency()).is_err());
    let euro = Unit::new('E', 'U', 'R', 978, 2);
    let spec = dollar_formatter().with_short_symbol(euro, "€");
    assert_eq!(spec.parse("-3.50€", &euro).unwrap().minor_amount(), -350);
}

#[test]
fn template_without_symbol_reads_bare_numbers() {
    let spec = dollar_formatter_without_symbol();
    assert_eq!(spec.parse("1,500.25", &dollar_currency()).unwrap().minor_amount(), 150025);
    assert!(spec.parse("1,500.25$", &dollar_currency()).is_err());
}

#[test]
fn formatting_groups_and_pads() {
    let d = dollar_formatter_without_symbol();
    let s = share_formatter_without_symbol();
    assert_eq!(ledgerize::render::format(&d, &Money::of_major_minor(dollar_currency(), 1234567, 89)), "1,234,567.89");
    assert_eq!(ledgerize::render::format(&d, &Money::of_major_minor(dollar_currency(), -15, -8)), "-15.08");
    assert_eq!(ledgerize::render::format(&d, &Money::of_major(dollar_currency(), 0)), "0.00");
    assert_eq!(ledgerize::render::format(&d, &Money::of_major_minor(dollar_currency(), 0, -5)), "-0.05");
    assert_eq!(ledgerize::render::format(&s, &Money::of_major(share_currency(), 2)), "2.000");
    assert_eq!(ledgerize::render::format(&s, &Money::of_major_minor(share_currency(), 100, 7)), "100.007");
    assert_eq!(ledgerize::render::format(&dollar_formatter(), &Money::of_major(dollar_currency(), 1500)), "1,500.00$");
}

#[test]
fn formatting_the_extremes() {
    let d = dollar_formatter_without_symbol();
    let max = Money { minor: i64::MAX, unit: dollar_currency() };
    let min = Money { minor: i64::MIN, unit: dollar_currency() };
    assert_eq!(ledgerize::render::format(&d, &max), "92,233,720,368,547,758.07");
    assert_eq!(ledgerize::render::format(&d, &min), "-92,233,720,368,547,758.08");
}

#[test]
fn unknown_symbol_falls_back_to_code() {
    let spec = FormatSpec::new(',', '.', vec![FormatPart::Amount, FormatPart::CurrencySymbol]);
    assert_eq!(ledgerize::render::format(&spec, &Money::of_major(share_currency(), 3)), "3.000SHR");
}

#[test]
fn formatted_values_read_back() {
    let values = [0i64, 1, -1, 999, 1000, -123456, 100000000, i64::MAX, i64::MIN];
    for v in values {
        let m = Money { minor: v, unit: dollar_currency() };
        let text = ledgerize::render::format(&dollar_formatter_without_symbol(), &m);
        assert_eq!(dollars(text.as_str()), Ok(m));
        assert_eq!(
            dollar_formatter_without_symbol().parse(text.as_str(), &dollar_currency()),
            Ok(m)
        );
        let s = Money { minor: v, unit: share_currency() };
        let text = ledgerize::render::format(&share_formatter_without_symbol(), &s);
        assert_eq!(shares(text.as_str()), Ok(s));
    }
}

#[test]
fn other_separators() {
    let spec = FormatSpec::new('.', ',', vec![FormatPart::OptionalMinus, FormatPart::Amount]);
    let m = Money::of_major_minor(dollar_currency(), -1234, -5);
    assert_eq!(ledgerize::render::format(&spec, &m), "-1.234,05");
    assert_eq!(spec.parse("-1.234,05", &dollar_currency()), Ok(m));
}

#[test]
fn add_currency_symbol_appends_dollar() {
    assert_eq!(add_currency_symbol("15.08"), "15.08$");
    assert_eq!(add_currency_symbol(""), "$");
}

#[test]
fn unit_code_text() {
    assert_eq!(dollar_currency().code_text(), "USD");
    assert_eq!(share_currency().code_text(), "SHR");
    assert_eq!(share_currency().precision, 3);
}
