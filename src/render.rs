//! Writing money text: optional minus, digits grouped in threes, the decimal
//! point, the minor digits padded to the unit's precision, optional symbol.
use vstd::prelude::*;
use crate::format_spec::{FormatPart, FormatSpec};
use crate::money::{Money, Unit, unit_code_chars};
use crate::text::{digit_char, digits_of, padded, string_of, zeros};

verus! {

/// Digits with `g` inserted before each group of three, counted from the right.
pub open spec fn group_digits(s: Seq<char>, g: char) -> Seq<char>
    decreases s.len(),
{
    if s.len() <= 3 {
        s
    } else {
        group_digits(s.take(s.len() - 3), g) + seq![g] + s.skip(s.len() - 3)
    }
}

/// The digits of `mag` minor units at precision `p`: grouped whole part,
/// point, and `p` minor digits.
pub open spec fn amount_text(mag: nat, p: nat, g: char, d: char) -> Seq<char> {
    let ds = padded(digits_of(mag), p + 1);
    let cut = ds.len() - p;
    group_digits(ds.take(cut), g) + seq![d] + ds.skip(cut)
}

pub open spec fn magnitude_of(v: int) -> nat {
    if v < 0 {
        (-v) as nat
    } else {
        v as nat
    }
}

/// What one template part shows of `minor` units of `unit`.
pub open spec fn part_text(
    part: FormatPart,
    minor: int,
    unit: Unit,
    g: char,
    d: char,
    symbol: Option<Seq<char>>,
) -> Seq<char> {
    match part {
        FormatPart::OptionalMinus => if minor < 0 {
            seq!['-']
        } else {
            Seq::empty()
        },
        FormatPart::Amount => amount_text(magnitude_of(minor), unit.precision as nat, g, d),
        FormatPart::CurrencySymbol => match symbol {
            Some(s) => s,
            None => unit_code_chars(unit),
        },
    }
}

/// The text of `minor` units of `unit`: the parts of `template` in order.
pub open spec fn render(
    template: Seq<FormatPart>,
    minor: int,
    unit: Unit,
    g: char,
    d: char,
    symbol: Option<Seq<char>>,
) -> Seq<char>
    decreases template.len(),
{
    if template.len() == 0 {
        Seq::empty()
    } else {
        render(template.drop_last(), minor, unit, g, d, symbol) + part_text(
            template.last(),
            minor,
            unit,
            g,
            d,
            symbol,
        )
    }
}

impl FormatSpec {
    /// `render` under this spec.
    pub open spec fn render_spec(&self, minor: int, unit: Unit) -> Seq<char> {
        render(
            self.template@,
            minor,
            unit,
            self.thousands_separator,
            self.decimal_separator,
            self.symbol_for(unit),
        )
    }
}

pub(crate) fn decimal_digits(n: u64) -> (r: Vec<char>)
    ensures
        r@ == digits_of(n as nat),
    decreases n,
{
    let c = (((n % 10) as u32) + ('0' as u32)) as u8 as char;
    assert(c == digit_char((n % 10) as nat));
    if n < 10 {
        let v: Vec<char> = vec![c];
        assert(v@ =~= seq![c]);
        v
    } else {
        let mut v = decimal_digits(n / 10);
        v.push(c);
        v
    }
}

pub(crate) fn pad_zeros(s: Vec<char>, w: usize) -> (r: Vec<char>)
    ensures
        r@ == padded(s@, w as nat),
{
    if s.len() >= w {
        return s;
    }
    let mut r: Vec<char> = Vec::new();
    let k = w - s.len();
    let mut i: usize = 0;
    while i < k
        invariant
            i <= k,
            r@ == zeros(i as nat),
        decreases k - i,
    {
        r.push('0');
        i = i + 1;
        assert(r@ =~= zeros(i as nat));
    }
    let mut j: usize = 0;
    while j < s.len()
        invariant
            j <= s@.len(),
            r@ == zeros(k as nat) + s@.take(j as int),
        decreases s.len() - j,
    {
        r.push(s[j]);
        assert(s@.take(j + 1) =~= s@.take(j as int).push(s@[j as int]));
        j = j + 1;
        assert(r@ =~= zeros(k as nat) + s@.take(j as int));
    }
    assert(s@.take(s@.len() as int) =~= s@);
    r
}

/// Appends `s[from..to]`.
pub(crate) fn push_range(out: &mut Vec<char>, s: &Vec<char>, from: usize, to: usize)
    requires
        from <= to <= s@.len(),
    ensures
        final(out)@ == old(out)@ + s@.subrange(from as int, to as int),
{
    let mut i: usize = from;
    while i < to
        invariant
            from <= i <= to <= s@.len(),
            out@ == old(out)@ + s@.subrange(from as int, i as int),
        decreases to - i,
    {
        out.push(s[i]);
        i = i + 1;
        assert(out@ =~= old(out)@ + s@.subrange(from as int, i as int));
    }
}

/// Appends the first `end` digits of `s`, grouped.
fn push_grouped(out: &mut Vec<char>, s: &Vec<char>, end: usize, g: char)
    requires
        end <= s@.len(),
    ensures
        final(out)@ == old(out)@ + group_digits(s@.take(end as int), g),
    decreases end,
{
    let ghost t = s@.take(end as int);
    if end <= 3 {
        push_range(out, s, 0, end);
        assert(s@.subrange(0, end as int) =~= t);
    } else {
        push_grouped(out, s, end - 3, g);
        out.push(g);
        push_range(out, s, end - 3, end);
        assert(t.take(t.len() - 3) =~= s@.take(end - 3));
        assert(t.skip(t.len() - 3) =~= s@.subrange(end - 3, end as int));
        assert(out@ =~= old(out)@ + group_digits(t, g));
    }
}

/// Appends `amount_text(mag, p, g, d)`.
fn push_amount(out: &mut Vec<char>, mag: u64, p: u8, g: char, d: char)
    ensures
        final(out)@ == old(out)@ + amount_text(mag as nat, p as nat, g, d),
{
    let ds = pad_zeros(decimal_digits(mag), p as usize + 1);
    proof {
        crate::text::lemma_padded(mag as nat, (p + 1) as nat);
    }
    let cut = ds.len() - p as usize;
    push_grouped(out, &ds, cut, g);
    out.push(d);
    push_range(out, &ds, cut, ds.len());
    assert(ds@.subrange(cut as int, ds@.len() as int) =~= ds@.skip(cut as int));
    assert(out@ =~= old(out)@ + amount_text(mag as nat, p as nat, g, d));
}

/// The text of `minor` units of `unit` under `spec`.
pub fn render_minor(spec: &FormatSpec, minor: i128, unit: &Unit) -> (r: Vec<char>)
    requires
        -(u64::MAX as int) <= minor <= u64::MAX,
    ensures
        r@ == spec.render_spec(minor as int, *unit),
{
    let mag: u64 = if minor < 0 {
        (-minor) as u64
    } else {
        minor as u64
    };
    let mut out: Vec<char> = Vec::new();
    let mut i: usize = 0;
    while i < spec.template.len()
        invariant
            i <= spec.template@.len(),
            mag == magnitude_of(minor as int),
            out@ == render(
                spec.template@.take(i as int),
                minor as int,
                *unit,
                spec.thousands_separator,
                spec.decimal_separator,
                spec.symbol_for(*unit),
            ),
        decreases spec.template.len() - i,
    {
        proof {
            assert(spec.template@.take(i + 1).drop_last() =~= spec.template@.take(i as int));
        }
        match spec.template[i] {
            FormatPart::OptionalMinus => {
                if minor < 0 {
                    out.push('-');
                }
            },
            FormatPart::Amount => {
                push_amount(
                    &mut out,
                    mag,
                    unit.precision,
                    spec.thousands_separator,
                    spec.decimal_separator,
                );
            },
            FormatPart::CurrencySymbol => {
                match spec.symbol_of(unit) {
                    Some(sym) => {
                        push_range(&mut out, sym, 0, sym.len());
                        assert(sym@.subrange(0, sym@.len() as int) =~= sym@);
                    },
                    None => {
                        out.push(unit.code.first);
                        out.push(unit.code.second);
                        out.push(unit.code.third);
                    },
                }
            },
        }
        i = i + 1;
        assert(out@ =~= render(
            spec.template@.take(i as int),
            minor as int,
            *unit,
            spec.thousands_separator,
            spec.decimal_separator,
            spec.symbol_for(*unit),
        ));
    }
    assert(spec.template@.take(spec.template@.len() as int) =~= spec.template@);
    out
}

/// Writes `money` as `spec` lays it out.
pub fn format(spec: &FormatSpec, money: &Money) -> (r: String)
    ensures
        r@ == spec.render_spec(money.minor as int, money.unit),
{
    let v = render_minor(spec, money.minor as i128, &money.unit);
    string_of(&v)
}

} // verus!
