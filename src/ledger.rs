//! Transactions and their two-posting ledger records.
use vstd::prelude::*;
use crate::date::{Date, chrono_mdy, date_from_parsed_spec, date_text, parse_date};
use crate::format_spec::{dollar_formatter_without_symbol, share_formatter_without_symbol};
use crate::money::{Money, Unit};
use crate::parse::{ParseError, dollar_minor, parse_money, parse_shares, share_minor};
use crate::render::{amount_text, magnitude_of, push_range, render_minor};
use crate::round_trip::lemma_render_plain;
use crate::text::{chars_of, string_of};
use crate::format_spec::{dollar_currency_spec, share_currency_spec};

verus! {

/// One row of the export.
#[derive(Debug)]
pub struct Transaction {
    pub date: Date,
    pub investment: String,
    pub txtype: String,
    pub amount: Money,
    pub share: Money,
}

/// Why a row could not be turned into a transaction.
#[derive(Debug, PartialEq, Eq)]
pub enum RowError {
    /// The row has this many fields instead of five.
    RowShape(usize),
    /// The date field is not a `MM/DD/YYYY` date.
    DateParse(String),
    /// The amount or share field is not a number of its unit.
    MoneyParse(ParseError),
}

pub open spec fn is_negative(m: Money) -> bool {
    m.minor < 0
}

pub fn money_is_negative(money: Money) -> (r: bool)
    ensures
        r == is_negative(money),
{
    money.minor_amount() < 0
}

/// A signed amount as ledger lines show it: minus for a negative amount,
/// then grouped digits and the minor digits, without a symbol.
pub open spec fn plain_amount(minor: int, unit: Unit) -> Seq<char> {
    (if minor < 0 {
        seq!['-']
    } else {
        Seq::<char>::empty()
    }) + amount_text(magnitude_of(minor), unit.precision as nat, ',', '.')
}

/// The cash leg: the amount as given where shares went down, negated otherwise.
pub open spec fn cash_minor(txn: Transaction) -> int {
    if is_negative(txn.share) {
        txn.amount.minor as int
    } else {
        -txn.amount.minor
    }
}

/// One posting: indent, account, two tabs, amount, a space, the label.
pub open spec fn posting(account: Seq<char>, amount: Seq<char>, label: Seq<char>) -> Seq<char> {
    seq![' ', ' '] + account + seq!['\t', '\t'] + amount + seq![' '] + label + seq!['\n']
}

pub open spec fn share_line(txn: Transaction, shares_account: Seq<char>) -> Seq<char> {
    posting(
        shares_account,
        plain_amount(txn.share.minor as int, txn.share.unit),
        txn.investment@,
    )
}

pub open spec fn cash_line(txn: Transaction, cash_account: Seq<char>) -> Seq<char> {
    posting(cash_account, plain_amount(cash_minor(txn), txn.amount.unit), seq!['U', 'S', 'D'])
}

/// The date and the transaction type.
pub open spec fn heading(txn: Transaction) -> Seq<char> {
    date_text(txn.date) + seq![' '] + txn.txtype@ + seq!['\n']
}

/// The record: a heading, the share posting, the cash posting, a blank line.
pub open spec fn ledger_text(
    txn: Transaction,
    cash_account: Seq<char>,
    shares_account: Seq<char>,
) -> Seq<char> {
    heading(txn) + share_line(txn, shares_account) + cash_line(txn, cash_account) + seq!['\n']
}

fn push_str(out: &mut Vec<char>, s: &str)
    ensures
        final(out)@ == old(out)@ + s@,
{
    let v = chars_of(s);
    push_range(out, &v, 0, v.len());
    assert(v@.subrange(0, v@.len() as int) =~= v@);
}

fn push_posting(out: &mut Vec<char>, account: &str, amount: &Vec<char>, label: &str)
    ensures
        final(out)@ == old(out)@ + posting(account@, amount@, label@),
{
    out.push(' ');
    out.push(' ');
    push_str(out, account);
    out.push('\t');
    out.push('\t');
    push_range(out, amount, 0, amount.len());
    assert(amount@.subrange(0, amount@.len() as int) =~= amount@);
    out.push(' ');
    push_str(out, label);
    out.push('\n');
    assert(out@ =~= old(out)@ + posting(account@, amount@, label@));
}

fn push_heading(out: &mut Vec<char>, txn: &Transaction)
    ensures
        final(out)@ == old(out)@ + heading(*txn),
{
    txn.date.push_text(out);
    out.push(' ');
    push_str(out, txn.txtype.as_str());
    out.push('\n');
    assert(out@ =~= old(out)@ + heading(*txn));
}

/// Writes `txn` as a ledger record posting shares to `shares_account` and
/// the balancing cash to `cash_account`.
pub fn format_txn_as_ledger(txn: Transaction, cash_account: String, shares_account: String) -> (r:
    String)
    ensures
        r@ == ledger_text(txn, cash_account@, shares_account@),
{
    let cash_amount: i128 = if money_is_negative(txn.share) {
        txn.amount.minor as i128
    } else {
        -(txn.amount.minor as i128)
    };
    let share_spec = share_formatter_without_symbol();
    let dollar_spec = dollar_formatter_without_symbol();
    let shares = render_minor(&share_spec, txn.share.minor as i128, &txn.share.unit);
    let cash = render_minor(&dollar_spec, cash_amount, &txn.amount.unit);
    proof {
        lemma_render_plain(txn.share.minor as int, txn.share.unit, ',', '.', share_spec.symbol_for(txn.share.unit));
        lemma_render_plain(cash_amount as int, txn.amount.unit, ',', '.', dollar_spec.symbol_for(txn.amount.unit));
    }
    let mut out: Vec<char> = Vec::new();
    push_heading(&mut out, &txn);
    assert(out@ =~= heading(txn));
    push_posting(&mut out, shares_account.as_str(), &shares, txn.investment.as_str());
    proof {
        reveal_strlit("USD");
    }
    push_posting(&mut out, cash_account.as_str(), &cash, "USD");
    out.push('\n');
    assert("USD"@ =~= seq!['U', 'S', 'D']);
    assert(out@ =~= ledger_text(txn, cash_account@, shares_account@));
    string_of(&out)
}

/// The transaction of one row's fields, in the order date, investment,
/// transaction type, amount, shares. The first field that does not read
/// decides the error.
pub fn build_transaction(
    date: &str,
    investment: &str,
    txtype: &str,
    amount: &str,
    shares: &str,
) -> (r: Result<Transaction, RowError>)
    ensures
        match r {
            Ok(t) => {
                &&& date_from_parsed_spec(chrono_mdy(date@)) == Some(t.date)
                &&& t.investment@ == investment@
                &&& t.txtype@ == txtype@
                &&& dollar_minor(amount@) == Some(t.amount.minor as int)
                &&& t.amount.unit == dollar_currency_spec()
                &&& share_minor(shares@) == Some(t.share.minor as int)
                &&& t.share.unit == share_currency_spec()
            },
            Err(RowError::DateParse(s)) => date_from_parsed_spec(chrono_mdy(date@)) is None
                && s@ == date@,
            Err(RowError::MoneyParse(e)) => date_from_parsed_spec(chrono_mdy(date@)) is Some && (
            (dollar_minor(amount@) is None && e.text@ == amount@) || (dollar_minor(amount@) is Some
                && share_minor(shares@) is None && e.text@ == shares@)),
            Err(RowError::RowShape(_)) => false,
        },
{
    let d = match parse_date(date) {
        Some(d) => d,
        None => {
            return Err(RowError::DateParse(date.to_owned()));
        },
    };
    let a = match parse_money(amount) {
        Ok(a) => a,
        Err(e) => {
            return Err(RowError::MoneyParse(e));
        },
    };
    let s = match parse_shares(shares) {
        Ok(s) => s,
        Err(e) => {
            return Err(RowError::MoneyParse(e));
        },
    };
    Ok(
        Transaction {
            date: d,
            investment: investment.to_owned(),
            txtype: txtype.to_owned(),
            amount: a,
            share: s,
        },
    )
}

/// The transaction of a row of fields; a row without exactly five fields
/// is a shape error.
pub fn transaction_from_row(fields: &Vec<String>) -> (r: Result<Transaction, RowError>)
    ensures
        fields@.len() != 5 ==> r == Err::<Transaction, RowError>(RowError::RowShape(fields@.len() as usize)),
        fields@.len() == 5 ==> match r {
            Ok(t) => {
                &&& date_from_parsed_spec(chrono_mdy(fields@[0]@)) == Some(t.date)
                &&& t.investment@ == fields@[1]@
                &&& t.txtype@ == fields@[2]@
                &&& dollar_minor(fields@[3]@) == Some(t.amount.minor as int)
                &&& t.amount.unit == dollar_currency_spec()
                &&& share_minor(fields@[4]@) == Some(t.share.minor as int)
                &&& t.share.unit == share_currency_spec()
            },
            Err(RowError::DateParse(s)) => date_from_parsed_spec(chrono_mdy(fields@[0]@)) is None
                && s@ == fields@[0]@,
            Err(RowError::MoneyParse(e)) => date_from_parsed_spec(chrono_mdy(fields@[0]@)) is Some
                && ((dollar_minor(fields@[3]@) is None && e.text@ == fields@[3]@) || (dollar_minor(
                fields@[3]@,
            ) is Some && share_minor(fields@[4]@) is None && e.text@ == fields@[4]@)),
            Err(RowError::RowShape(_)) => false,
        },
{
    if fields.len() != 5 {
        return Err(RowError::RowShape(fields.len()));
    }
    build_transaction(
        fields[0].as_str(),
        fields[1].as_str(),
        fields[2].as_str(),
        fields[3].as_str(),
        fields[4].as_str(),
    )
}

/// The cash leg balances the share leg: where the share amount is not
/// negative the cash posting shows the amount negated, otherwise as given.
pub proof fn lemma_cash_leg_sign(txn: Transaction, cash_account: Seq<char>)
    ensures
        txn.share.minor >= 0 ==> cash_line(txn, cash_account) == posting(
            cash_account,
            plain_amount(-txn.amount.minor, txn.amount.unit),
            seq!['U', 'S', 'D'],
        ),
        txn.share.minor < 0 ==> cash_line(txn, cash_account) == posting(
            cash_account,
            plain_amount(txn.amount.minor as int, txn.amount.unit),
            seq!['U', 'S', 'D'],
        ),
{
}

} // verus!
