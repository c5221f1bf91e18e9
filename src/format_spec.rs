//! How money is written: separators, the ordered parts of the text, and the
//! symbol that each unit is shown with.
use vstd::prelude::*;
use crate::money::{Unit, UnitCode};
use crate::text::{chars_of, is_digit};

verus! {

/// One slot of a money text's template.
#[derive(Clone, Copy, Debug, PartialEq, Eq, Structural)]
pub enum FormatPart {
    OptionalMinus,
    Amount,
    CurrencySymbol,
}

/// The display symbol of one unit.
#[derive(Debug)]
pub struct SymbolEntry {
    pub unit: Unit,
    pub symbol: Vec<char>,
}

/// Grouping and decimal separators, the template of parts, and the symbol table.
/// Later entries of the table take precedence over earlier ones for the same unit.
#[derive(Debug)]
pub struct FormatSpec {
    pub thousands_separator: char,
    pub decimal_separator: char,
    pub template: Vec<FormatPart>,
    pub symbols: Vec<SymbolEntry>,
}

/// The symbol that the table gives `unit`: the last entry for it.
pub open spec fn symbol_in(entries: Seq<SymbolEntry>, unit: Unit) -> Option<Seq<char>>
    decreases entries.len(),
{
    if entries.len() == 0 {
        None
    } else if entries.last().unit == unit {
        Some(entries.last().symbol@)
    } else {
        symbol_in(entries.drop_last(), unit)
    }
}

impl FormatSpec {
    pub open spec fn symbol_for(&self, unit: Unit) -> Option<Seq<char>> {
        symbol_in(self.symbols@, unit)
    }

    /// Separators that can be told apart from digits, signs and each other.
    pub open spec fn separators_ok(&self) -> bool {
        &&& !is_digit(self.thousands_separator)
        &&& !is_digit(self.decimal_separator)
        &&& self.thousands_separator != self.decimal_separator
        &&& self.thousands_separator != '-'
        &&& self.decimal_separator != '-'
    }

    pub fn new(thousands_sep: char, decimal_sep: char, template: Vec<FormatPart>) -> (r: FormatSpec)
        ensures
            r.thousands_separator == thousands_sep,
            r.decimal_separator == decimal_sep,
            r.template@ == template@,
            r.symbols@.len() == 0,
    {
        FormatSpec {
            thousands_separator: thousands_sep,
            decimal_separator: decimal_sep,
            template,
            symbols: Vec::new(),
        }
    }

    /// The same spec, showing `unit` as `symbol`.
    pub fn with_short_symbol(self, unit: Unit, symbol: &str) -> (r: FormatSpec)
        ensures
            r.thousands_separator == self.thousands_separator,
            r.decimal_separator == self.decimal_separator,
            r.template@ == self.template@,
            r.symbol_for(unit) == Some(symbol@),
            forall|u: Unit| u != unit ==> r.symbol_for(u) == self.symbol_for(u),
    {
        let mut r = self;
        let entry = SymbolEntry { unit, symbol: chars_of(symbol) };
        r.symbols.push(entry);
        proof {
            assert(r.symbols@.drop_last() =~= self.symbols@);
        }
        r
    }

    /// Looks up the symbol of `unit`.
    pub fn symbol_of(&self, unit: &Unit) -> (r: Option<&Vec<char>>)
        ensures
            r.is_some() == self.symbol_for(*unit).is_some(),
            r.is_some() ==> r.unwrap()@ == self.symbol_for(*unit).unwrap(),
    {
        let mut i: usize = self.symbols.len();
        proof {
            assert(self.symbols@.subrange(0, i as int) =~= self.symbols@);
        }
        while i > 0
            invariant
                i <= self.symbols@.len(),
                self.symbol_for(*unit) == symbol_in(self.symbols@.subrange(0, i as int), *unit),
            decreases i,
        {
            let e = &self.symbols[i - 1];
            proof {
                assert(self.symbols@.subrange(0, i as int).drop_last()
                    =~= self.symbols@.subrange(0, i - 1));
            }
            if e.unit == *unit {
                return Some(&e.symbol);
            }
            i = i - 1;
        }
        None
    }
}

/// A spec with `,` for grouping and `.` for the decimal point.
pub fn comma_and_period_formatter(template: Vec<FormatPart>) -> (r: FormatSpec)
    ensures
        r.thousands_separator == ',',
        r.decimal_separator == '.',
        r.template@ == template@,
        r.symbols@.len() == 0,
        r.separators_ok(),
        forall|u: Unit| r.symbol_for(u) is None,
{
    FormatSpec::new(',', '.', template)
}

/// Relies on steel-cent's `currency::USD`: `numeric_code()` is 840 and
/// `decimal_places()` is 2, as its documentation and currency table state.
#[verifier::external_body]
fn usd_numeric_code_and_places() -> (r: (u16, u8))
    ensures
        r == (840u16, 2u8),
{
    (steel_cent::currency::USD.numeric_code(), steel_cent::currency::USD.decimal_places())
}

/// The US dollar: code `USD`, two minor digits.
pub fn dollar_currency() -> (r: Unit)
    ensures
        r.code == (UnitCode { first: 'U', second: 'S', third: 'D' }),
        r.id == 840,
        r.precision == 2,
{
    let (id, places) = usd_numeric_code_and_places();
    Unit::new('U', 'S', 'D', id, places)
}

/// Fund shares: code `SHR`, three minor digits.
pub fn share_currency() -> (r: Unit)
    ensures
        r.code == (UnitCode { first: 'S', second: 'H', third: 'R' }),
        r.id == 999,
        r.precision == 3,
{
    Unit::new('S', 'H', 'R', 999, 3)
}

/// A comma-and-period spec over `template` that shows dollars as `$`.
pub fn usd_formatter(template: Vec<FormatPart>) -> (r: FormatSpec)
    ensures
        r.template@ == template@,
        r.thousands_separator == ',',
        r.decimal_separator == '.',
        r.separators_ok(),
        r.symbol_for(dollar_currency_spec()) == Some(seq!['$']),
        forall|u: Unit| u != dollar_currency_spec() ==> r.symbol_for(u) is None,
{
    let spec = comma_and_period_formatter(template);
    proof {
        reveal_strlit("$");
    }
    spec.with_short_symbol(dollar_currency(), "$")
}

/// A comma-and-period spec over `template` that shows shares as `$`.
pub fn shr_formatter(template: Vec<FormatPart>) -> (r: FormatSpec)
    ensures
        r.template@ == template@,
        r.thousands_separator == ',',
        r.decimal_separator == '.',
        r.separators_ok(),
        r.symbol_for(share_currency_spec()) == Some(seq!['$']),
        forall|u: Unit| u != share_currency_spec() ==> r.symbol_for(u) is None,
{
    let spec = comma_and_period_formatter(template);
    proof {
        reveal_strlit("$");
    }
    spec.with_short_symbol(share_currency(), "$")
}

pub open spec fn dollar_currency_spec() -> Unit {
    Unit { code: UnitCode { first: 'U', second: 'S', third: 'D' }, id: 840, precision: 2 }
}

pub open spec fn share_currency_spec() -> Unit {
    Unit { code: UnitCode { first: 'S', second: 'H', third: 'R' }, id: 999, precision: 3 }
}

pub open spec fn template_with_symbol() -> Seq<FormatPart> {
    seq![FormatPart::OptionalMinus, FormatPart::Amount, FormatPart::CurrencySymbol]
}

pub open spec fn template_without_symbol() -> Seq<FormatPart> {
    seq![FormatPart::OptionalMinus, FormatPart::Amount]
}

/// Dollars with a trailing `$`.
pub fn dollar_formatter() -> (r: FormatSpec)
    ensures
        r.template@ == template_with_symbol(),
        r.thousands_separator == ',',
        r.decimal_separator == '.',
        r.separators_ok(),
        r.symbol_for(dollar_currency_spec()) == Some(seq!['$']),
        forall|u: Unit| u != dollar_currency_spec() ==> r.symbol_for(u) is None,
{
    let t = vec![FormatPart::OptionalMinus, FormatPart::Amount, FormatPart::CurrencySymbol];
    proof {
        assert(t@ =~= template_with_symbol());
    }
    usd_formatter(t)
}

/// Dollars without a symbol, as ledger lines show them.
pub fn dollar_formatter_without_symbol() -> (r: FormatSpec)
    ensures
        r.template@ == template_without_symbol(),
        r.thousands_separator == ',',
        r.decimal_separator == '.',
        r.separators_ok(),
        r.symbol_for(dollar_currency_spec()) == Some(seq!['$']),
        forall|u: Unit| u != dollar_currency_spec() ==> r.symbol_for(u) is None,
{
    let t = vec![FormatPart::OptionalMinus, FormatPart::Amount];
    proof {
        assert(t@ =~= template_without_symbol());
    }
    usd_formatter(t)
}

/// Share quantities with a trailing `$`.
pub fn share_formatter() -> (r: FormatSpec)
    ensures
        r.template@ == template_with_symbol(),
        r.thousands_separator == ',',
        r.decimal_separator == '.',
        r.separators_ok(),
        r.symbol_for(share_currency_spec()) == Some(seq!['$']),
        forall|u: Unit| u != share_currency_spec() ==> r.symbol_for(u) is None,
{
    let t = vec![FormatPart::OptionalMinus, FormatPart::Amount, FormatPart::CurrencySymbol];
    proof {
        assert(t@ =~= template_with_symbol());
    }
    shr_formatter(t)
}

/// Share quantities without a symbol, as ledger lines show them.
pub fn share_formatter_without_symbol() -> (r: FormatSpec)
    ensures
        r.template@ == template_without_symbol(),
        r.thousands_separator == ',',
        r.decimal_separator == '.',
        r.separators_ok(),
        r.symbol_for(share_currency_spec()) == Some(seq!['$']),
        forall|u: Unit| u != share_currency_spec() ==> r.symbol_for(u) is None,
{
    let t = vec![FormatPart::OptionalMinus, FormatPart::Amount];
    proof {
        assert(t@ =~= template_without_symbol());
    }
    shr_formatter(t)
}

} // verus!
