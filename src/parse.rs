//! Reading money text: optional leading minus, grouped digits, a decimal
//! point with exactly the unit's number of minor digits, and an optional
//! trailing unit symbol.
use vstd::prelude::*;
use crate::format_spec::{
    FormatPart, FormatSpec, dollar_currency, dollar_currency_spec, dollar_formatter,
    share_currency, share_currency_spec, share_formatter, template_with_symbol,
};
use crate::money::{Money, Unit};
use crate::render::push_range;
use crate::text::{all_digits, chars_of, digit_value, digits_value, is_digit, string_of};

verus! {

/// The text that failed to parse.
#[derive(Debug, PartialEq, Eq)]
pub struct ParseError {
    pub text: String,
}

/// Whether `t` opens with a minus sign that the template reads, and what follows it.
pub open spec fn signed(t: Seq<char>, template: Seq<FormatPart>) -> bool {
    template.len() > 0 && template[0] == FormatPart::OptionalMinus && t.len() > 0 && t[0] == '-'
}

pub open spec fn unsigned_part(t: Seq<char>, template: Seq<FormatPart>) -> Seq<char> {
    if signed(t, template) {
        t.drop_first()
    } else {
        t
    }
}

/// `body` without its trailing symbol, where the template has a symbol part;
/// `None` where the unit has no symbol or `body` does not end with it.
pub open spec fn without_symbol(
    body: Seq<char>,
    template: Seq<FormatPart>,
    symbol: Option<Seq<char>>,
) -> Option<Seq<char>> {
    if template.contains(FormatPart::CurrencySymbol) {
        match symbol {
            None => None,
            Some(sym) => if sym.len() <= body.len() && body.subrange(
                body.len() - sym.len(),
                body.len() as int,
            ) == sym {
                Some(body.subrange(0, body.len() - sym.len()))
            } else {
                None
            },
        }
    } else {
        Some(body)
    }
}

/// `s` with every `g` removed.
pub open spec fn without_char(s: Seq<char>, g: char) -> Seq<char>
    decreases s.len(),
{
    if s.len() == 0 {
        s
    } else if s.last() == g {
        without_char(s.drop_last(), g)
    } else {
        without_char(s.drop_last(), g).push(s.last())
    }
}

/// `u` is digits, the point `d` at index `i`, and digits.
pub open spec fn point_at(u: Seq<char>, d: char, i: int) -> bool {
    &&& 0 <= i < u.len()
    &&& u[i] == d
    &&& all_digits(u.take(i))
    &&& all_digits(u.skip(i + 1))
}

/// The integer digits and the fractional digits of `u`, where it is a decimal number.
pub open spec fn split_number(u: Seq<char>, d: char) -> Option<(Seq<char>, Seq<char>)> {
    if all_digits(u) {
        Some((u, Seq::empty()))
    } else if exists|i: int| point_at(u, d, i) {
        let i = choose|i: int| point_at(u, d, i);
        Some((u.take(i), u.skip(i + 1)))
    } else {
        None
    }
}

/// The count of minor units that the digits of `u` give at precision `p`.
pub open spec fn magnitude(u: Seq<char>, d: char, p: nat) -> Option<nat> {
    match split_number(u, d) {
        None => None,
        Some((int_part, frac_part)) => if int_part.len() + frac_part.len() > 0 && frac_part.len()
            == p {
            Some(digits_value(int_part + frac_part))
        } else {
            None
        },
    }
}

pub open spec fn fits_i64(v: int) -> bool {
    i64::MIN <= v <= i64::MAX
}

/// The grouping separator at `i` stands before any decimal point and is
/// followed by three digits.
pub open spec fn separator_well_placed(body: Seq<char>, d: char, i: int) -> bool {
    &&& i + 3 < body.len()
    &&& is_digit(body[i + 1])
    &&& is_digit(body[i + 2])
    &&& is_digit(body[i + 3])
    &&& forall|j: int| 0 <= j < i ==> body[j] != d
}

/// Every grouping separator in `body` is well placed.
pub open spec fn grouping_ok(body: Seq<char>, g: char, d: char) -> bool {
    forall|i: int| 0 <= i < body.len() && #[trigger] body[i] == g ==> separator_well_placed(body, d, i)
}

/// The minor-unit amount that `t` denotes under the template, separators and
/// unit symbol given, at precision `p`; `None` where `t` is not such a text.
pub open spec fn parse_minor(
    t: Seq<char>,
    template: Seq<FormatPart>,
    grouping: char,
    point: char,
    symbol: Option<Seq<char>>,
    p: nat,
) -> Option<int> {
    match without_symbol(unsigned_part(t, template), template, symbol) {
        None => None,
        Some(body) => match if grouping_ok(body, grouping, point) {
            magnitude(without_char(body, grouping), point, p)
        } else {
            None
        } {
            None => None,
            Some(m) => {
                let v = if signed(t, template) {
                    -m
                } else {
                    m as int
                };
                if fits_i64(v) {
                    Some(v)
                } else {
                    None
                }
            },
        },
    }
}

impl FormatSpec {
    /// `parse_minor` under this spec, for `unit`.
    pub open spec fn parse_spec(&self, t: Seq<char>, unit: Unit) -> Option<int> {
        parse_minor(
            t,
            self.template@,
            self.thousands_separator,
            self.decimal_separator,
            self.symbol_for(unit),
            unit.precision as nat,
        )
    }
}

/// The largest magnitude that a negative `i64` can have.
const NEG_LIMIT: u128 = 9223372036854775808;

/// One above `NEG_LIMIT`: where the running value stops growing.
const CAP: u128 = 9223372036854775809;

spec fn capped(v: nat) -> nat {
    if v < CAP as nat {
        v
    } else {
        CAP as nat
    }
}

fn contains_part(template: &Vec<FormatPart>, part: FormatPart) -> (r: bool)
    ensures
        r == template@.contains(part),
{
    let mut i: usize = 0;
    while i < template.len()
        invariant
            i <= template@.len(),
            forall|j: int| 0 <= j < i ==> template@[j] != part,
        decreases template.len() - i,
    {
        if template[i] == part {
            return true;
        }
        i = i + 1;
    }
    false
}

/// Whether `chars[start..]` ends with `sym`.
fn ends_with(chars: &Vec<char>, start: usize, sym: &Vec<char>) -> (r: bool)
    requires
        start <= chars@.len(),
    ensures
        r == ({
            let body = chars@.subrange(start as int, chars@.len() as int);
            sym@.len() <= body.len() && body.subrange(body.len() - sym@.len(), body.len() as int)
                == sym@
        }),
{
    let n = chars.len();
    let ghost body = chars@.subrange(start as int, n as int);
    if sym.len() > n - start {
        return false;
    }
    let base = n - sym.len();
    let mut j: usize = 0;
    while j < sym.len()
        invariant
            base == n - sym@.len(),
            n == chars@.len(),
            start <= n,
            body == chars@.subrange(start as int, n as int),
            sym@.len() <= n - start,
            j <= sym@.len(),
            forall|k: int| 0 <= k < j ==> chars@[base + k] == sym@[k],
        decreases sym.len() - j,
    {
        if chars[base + j] != sym[j] {
            proof {
                assert(body.subrange(body.len() - sym@.len(), body.len() as int)[j as int]
                    != sym@[j as int]);
            }
            return false;
        }
        j = j + 1;
    }
    proof {
        assert(body.subrange(body.len() - sym@.len(), body.len() as int) =~= sym@);
    }
    true
}

proof fn lemma_without_char_push(s: Seq<char>, c: char, g: char)
    ensures
        without_char(s.push(c), g) == if c == g {
            without_char(s, g)
        } else {
            without_char(s, g).push(c)
        },
{
    assert(s.push(c).drop_last() =~= s);
}

/// `chars[start..end]` with every `g` removed.
fn remove_char(chars: &Vec<char>, start: usize, end: usize, g: char) -> (r: Vec<char>)
    requires
        start <= end <= chars@.len(),
    ensures
        r@ == without_char(chars@.subrange(start as int, end as int), g),
{
    let mut r: Vec<char> = Vec::new();
    let mut i: usize = start;
    proof {
        assert(chars@.subrange(start as int, start as int) =~= Seq::<char>::empty());
    }
    while i < end
        invariant
            start <= i <= end <= chars@.len(),
            r@ == without_char(chars@.subrange(start as int, i as int), g),
        decreases end - i,
    {
        let c = chars[i];
        proof {
            assert(chars@.subrange(start as int, i + 1) =~= chars@.subrange(
                start as int,
                i as int,
            ).push(c));
            lemma_without_char_push(chars@.subrange(start as int, i as int), c, g);
        }
        if c != g {
            r.push(c);
        }
        i = i + 1;
    }
    r
}

/// Whether every grouping separator in `body` is well placed.
fn grouping_valid(body: &Vec<char>, g: char, d: char) -> (r: bool)
    ensures
        r == grouping_ok(body@, g, d),
{
    let n = body.len();
    let mut seen_point = false;
    let mut i: usize = 0;
    while i < n
        invariant
            i <= n == body@.len(),
            seen_point == (exists|j: int| 0 <= j < i && body@[j] == d),
            forall|k: int| 0 <= k < i && #[trigger] body@[k] == g ==> separator_well_placed(body@, d, k),
        decreases n - i,
    {
        let c = body[i];
        if c == g {
            if seen_point || n - i <= 3 || !is_digit_exec(body[i + 1]) || !is_digit_exec(body[i + 2])
                || !is_digit_exec(body[i + 3]) {
                proof {
                    if seen_point {
                        let j = choose|j: int| 0 <= j < i && body@[j] == d;
                        assert(body@[j] == d);
                    }
                    assert(!separator_well_placed(body@, d, i as int));
                }
                return false;
            }
            assert(separator_well_placed(body@, d, i as int));
        }
        if c == d {
            seen_point = true;
        }
        i = i + 1;
    }
    true
}

fn is_digit_exec(c: char) -> (r: bool)
    ensures
        r == is_digit(c),
{
    '0' <= c && c <= '9'
}

/// The length of the run of digits that opens `u`.
fn leading_digits(u: &Vec<char>, from: usize) -> (k: usize)
    requires
        from <= u@.len(),
    ensures
        from <= k <= u@.len(),
        forall|j: int| from <= j < k ==> is_digit(#[trigger] u@[j]),
        k < u@.len() ==> !is_digit(u@[k as int]),
{
    let mut k: usize = from;
    while k < u.len() && is_digit_exec(u[k])
        invariant
            from <= k <= u@.len(),
            forall|j: int| from <= j < k ==> is_digit(#[trigger] u@[j]),
        decreases u.len() - k,
    {
        k = k + 1;
    }
    k
}

/// Continues a running value over the digits `u[from..to]`, saturating at `CAP`.
fn accumulate(acc: u128, Ghost(prefix): Ghost<Seq<char>>, u: &Vec<char>, from: usize, to: usize) -> (r:
    u128)
    requires
        from <= to <= u@.len(),
        acc == capped(digits_value(prefix)),
        forall|j: int| from <= j < to ==> is_digit(#[trigger] u@[j]),
    ensures
        r == capped(digits_value(prefix + u@.subrange(from as int, to as int))),
{
    let mut acc = acc;
    let mut i: usize = from;
    proof {
        assert(prefix + u@.subrange(from as int, from as int) =~= prefix);
    }
    while i < to
        invariant
            from <= i <= to <= u@.len(),
            forall|j: int| from <= j < to ==> is_digit(#[trigger] u@[j]),
            acc == capped(digits_value(prefix + u@.subrange(from as int, i as int))),
        decreases to - i,
    {
        let c = u[i];
        assert(is_digit(u@[i as int]));
        let ghost before = prefix + u@.subrange(from as int, i as int);
        let ghost after = prefix + u@.subrange(from as int, i + 1);
        proof {
            assert(after.drop_last() =~= before);
            assert(after.last() == c);
        }
        let dv = (c as u32 - '0' as u32) as u128;
        assert(dv == digit_value(c));
        if acc >= CAP {
            acc = CAP;
        } else {
            let next = acc * 10 + dv;
            acc = if next >= CAP {
                CAP
            } else {
                next
            };
        }
        i = i + 1;
    }
    acc
}

pub(crate) proof fn lemma_point_unique(u: Seq<char>, d: char, i: int, k: int)
    requires
        point_at(u, d, i),
        0 <= k < u.len(),
        forall|j: int| 0 <= j < k ==> is_digit(#[trigger] u[j]),
        !is_digit(u[k]),
    ensures
        i == k,
{
    if i < k {
        assert(u.skip(i + 1)[k - i - 1] == u[k]);
    }
    if k < i {
        assert(u.take(i)[k] == u[k]);
    }
}

proof fn lemma_digits_split(u: Seq<char>, k: int)
    requires
        0 <= k <= u.len(),
        forall|j: int| 0 <= j < k ==> is_digit(#[trigger] u[j]),
    ensures
        all_digits(u.take(k)),
{
    assert forall|j: int| 0 <= j < u.take(k).len() implies is_digit(#[trigger] u.take(k)[j]) by {
        assert(u.take(k)[j] == u[j]);
    }
}

/// The magnitude that the ungrouped digits `u` give at precision `p`, capped at `CAP`.
fn read_digits(u: &Vec<char>, d: char, p: u8) -> (r: Option<u128>)
    ensures
        match magnitude(u@, d, p as nat) {
            None => r is None,
            Some(m) => r == Some(capped(m) as u128),
        },
{
    let ghost us = u@;
    let k = leading_digits(u, 0);
    let frac_start: usize;
    if k == u.len() {
        frac_start = k;
        proof {
            assert(all_digits(us));
            assert(us.skip(k as int) =~= Seq::<char>::empty());
            assert(us.take(k as int) =~= us);
        }
    } else {
        proof {
            assert(!all_digits(us)) by {
                assert(!is_digit(us[k as int]));
            }
        }
        if u[k] != d {
            proof {
                if exists|i: int| point_at(us, d, i) {
                    let i = choose|i: int| point_at(us, d, i);
                    lemma_point_unique(us, d, i, k as int);
                }
            }
            return None;
        }
        let m = leading_digits(u, k + 1);
        if m < u.len() {
            proof {
                if exists|i: int| point_at(us, d, i) {
                    let i = choose|i: int| point_at(us, d, i);
                    lemma_point_unique(us, d, i, k as int);
                    assert(us.skip(k + 1)[m - k - 1] == us[m as int]);
                }
            }
            return None;
        }
        frac_start = k + 1;
        proof {
            lemma_digits_split(us, k as int);
            assert forall|j: int| 0 <= j < us.skip(k + 1).len() implies is_digit(
                #[trigger] us.skip(k + 1)[j],
            ) by {
                assert(us.skip(k + 1)[j] == us[k + 1 + j]);
            }
            assert(point_at(us, d, k as int));
            let i = choose|i: int| point_at(us, d, i);
            lemma_point_unique(us, d, i, k as int);
        }
    }
    let ghost int_part = us.take(k as int);
    let ghost frac_part = us.skip(frac_start as int);
    assert(split_number(us, d) == Some((int_part, frac_part)));
    if k + (u.len() - frac_start) == 0 || u.len() - frac_start != p as usize {
        return None;
    }
    proof {
        assert(int_part =~= Seq::<char>::empty() + us.subrange(0, k as int));
    }
    let acc = accumulate(0, Ghost(Seq::empty()), u, 0, k);
    let acc = accumulate(acc, Ghost(int_part), u, frac_start, u.len());
    proof {
        assert(int_part + us.subrange(frac_start as int, us.len() as int) =~= int_part
            + frac_part);
    }
    Some(acc)
}

impl FormatSpec {
    /// Where the text between sign and symbol lies in `chars`, and whether a
    /// minus sign was read; `None` where the symbol is required and absent.
    fn locate_body(&self, chars: &Vec<char>, unit: &Unit) -> (r: Option<(bool, usize, usize)>)
        ensures
            match without_symbol(
                unsigned_part(chars@, self.template@),
                self.template@,
                self.symbol_for(*unit),
            ) {
                None => r is None,
                Some(body) => r matches Some((neg, start, end)) && neg == signed(
                    chars@,
                    self.template@,
                ) && start <= end <= chars@.len() && body == chars@.subrange(
                    start as int,
                    end as int,
                ),
            },
    {
        let ghost t = chars@;
        let ghost template = self.template@;
        let n = chars.len();
        let mut start: usize = 0;
        let mut neg = false;
        if self.template.len() > 0 && self.template[0] == FormatPart::OptionalMinus && n > 0
            && chars[0] == '-' {
            neg = true;
            start = 1;
        }
        assert(neg == signed(t, template));
        assert(chars@.subrange(start as int, n as int) =~= unsigned_part(t, template));
        let mut end: usize = n;
        if contains_part(&self.template, FormatPart::CurrencySymbol) {
            match self.symbol_of(unit) {
                None => {
                    return None;
                },
                Some(sym) => {
                    if !ends_with(chars, start, sym) {
                        return None;
                    }
                    end = n - sym.len();
                    proof {
                        let body = chars@.subrange(start as int, n as int);
                        assert(body.subrange(0, body.len() - sym@.len()) =~= chars@.subrange(
                            start as int,
                            end as int,
                        ));
                    }
                },
            }
        }
        Some((neg, start, end))
    }

    /// Reads `text` as an amount of `unit`.
    pub fn parse(&self, text: &str, unit: &Unit) -> (r: Result<Money, ParseError>)
        ensures
            match r {
                Ok(m) => self.parse_spec(text@, *unit) == Some(m.minor as int) && m.unit == *unit,
                Err(e) => self.parse_spec(text@, *unit) is None && e.text@ == text@,
            },
    {
        let chars = chars_of(text);
        let fail = ParseError { text: text.to_owned() };
        let (neg, start, end) = match self.locate_body(&chars, unit) {
            None => {
                return Err(fail);
            },
            Some(found) => found,
        };
        let mut body: Vec<char> = Vec::new();
        push_range(&mut body, &chars, start, end);
        if !grouping_valid(&body, self.thousands_separator, self.decimal_separator) {
            return Err(fail);
        }
        let u = remove_char(&body, 0, body.len(), self.thousands_separator);
        assert(body@.subrange(0, body@.len() as int) =~= body@);
        let acc = match read_digits(&u, self.decimal_separator, unit.precision) {
            None => {
                return Err(fail);
            },
            Some(acc) => acc,
        };
        if neg {
            if acc > NEG_LIMIT {
                return Err(fail);
            }
            let minor = (-(acc as i128)) as i64;
            Ok(Money { minor, unit: *unit })
        } else {
            if acc > i64::MAX as u128 {
                return Err(fail);
            }
            Ok(Money { minor: acc as i64, unit: *unit })
        }
    }
}

/// `num` followed by the `$` symbol, as the dollar and share specs read it.
pub fn add_currency_symbol(num: &str) -> (r: String)
    ensures
        r@ == num@.push('$'),
{
    let mut v = chars_of(num);
    v.push('$');
    string_of(&v)
}

/// The minor-unit amount that a dollar field denotes: `,` grouping, `.` point, two digits.
pub open spec fn dollar_minor(t: Seq<char>) -> Option<int> {
    parse_minor(t.push('$'), template_with_symbol(), ',', '.', Some(seq!['$']), 2)
}

/// The minor-unit amount that a share field denotes: `,` grouping, `.` point, three digits.
pub open spec fn share_minor(t: Seq<char>) -> Option<int> {
    parse_minor(t.push('$'), template_with_symbol(), ',', '.', Some(seq!['$']), 3)
}

/// Reads a dollar amount such as `-1,500.00`.
pub fn parse_money(text: &str) -> (r: Result<Money, ParseError>)
    ensures
        match r {
            Ok(m) => dollar_minor(text@) == Some(m.minor as int) && m.unit == dollar_currency_spec(),
            Err(e) => dollar_minor(text@) is None && e.text@ == text@,
        },
{
    let spec = dollar_formatter();
    let unit = dollar_currency();
    match spec.parse(&add_currency_symbol(text), &unit) {
        Ok(m) => Ok(m),
        Err(_) => Err(ParseError { text: text.to_owned() }),
    }
}

/// Reads a share quantity such as `-15.083`.
pub fn parse_shares(text: &str) -> (r: Result<Money, ParseError>)
    ensures
        match r {
            Ok(m) => share_minor(text@) == Some(m.minor as int) && m.unit == share_currency_spec(),
            Err(e) => share_minor(text@) is None && e.text@ == text@,
        },
{
    let spec = share_formatter();
    let unit = share_currency();
    match spec.parse(&add_currency_symbol(text), &unit) {
        Ok(m) => Ok(m),
        Err(_) => Err(ParseError { text: text.to_owned() }),
    }
}

/// A leading minus negates: where an unsigned text `s` reads as `v`, `-s`
/// reads as `-v`, under any template that opens with an optional minus.
pub proof fn lemma_sign_symmetry(
    s: Seq<char>,
    template: Seq<FormatPart>,
    grouping: char,
    point: char,
    symbol: Option<Seq<char>>,
    p: nat,
)
    requires
        template.len() > 0,
        template[0] == FormatPart::OptionalMinus,
        s.len() > 0 ==> s[0] != '-',
        parse_minor(s, template, grouping, point, symbol, p) is Some,
    ensures
        parse_minor(seq!['-'] + s, template, grouping, point, symbol, p) == Some(
            -parse_minor(s, template, grouping, point, symbol, p).unwrap(),
        ),
{
    let t = seq!['-'] + s;
    assert(t.drop_first() =~= s);
    assert(signed(t, template));
    assert(!signed(s, template));
}

} // verus!
