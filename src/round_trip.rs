//! Reading back what the formatter writes gives the amount that was written.
use vstd::prelude::*;
use crate::format_spec::{FormatPart, FormatSpec, template_with_symbol, template_without_symbol};
use crate::money::{Money, Unit};
use crate::parse::{grouping_ok, lemma_point_unique, point_at, separator_well_placed, signed, split_number, without_char};
use crate::render::{amount_text, group_digits, magnitude_of, part_text, render};
use crate::text::{all_digits, digits_of, digits_value, is_digit, lemma_padded, padded};

verus! {

/// Removing `g` from a concatenation removes it from each side.
pub proof fn lemma_without_concat(a: Seq<char>, b: Seq<char>, g: char)
    ensures
        without_char(a + b, g) == without_char(a, g) + without_char(b, g),
    decreases b.len(),
{
    if b.len() == 0 {
        assert(a + b =~= a);
        assert(without_char(a, g) + without_char(b, g) =~= without_char(a, g));
    } else {
        lemma_without_concat(a, b.drop_last(), g);
        assert((a + b).drop_last() =~= a + b.drop_last());
        assert((a + b).last() == b.last());
        if b.last() != g {
            assert(without_char(a, g) + without_char(b.drop_last(), g).push(b.last())
                =~= (without_char(a, g) + without_char(b.drop_last(), g)).push(b.last()));
        }
    }
}

/// Removing a character that does not occur changes nothing.
pub proof fn lemma_without_absent(s: Seq<char>, g: char)
    requires
        forall|i: int| 0 <= i < s.len() ==> s[i] != g,
    ensures
        without_char(s, g) == s,
    decreases s.len(),
{
    if s.len() > 0 {
        lemma_without_absent(s.drop_last(), g);
        assert(s.drop_last().push(s.last()) =~= s);
    }
}

proof fn lemma_without_single(c: char, g: char)
    ensures
        without_char(seq![c], g) == if c == g {
            Seq::<char>::empty()
        } else {
            seq![c]
        },
{
    assert(seq![c].drop_last() =~= Seq::<char>::empty());
    assert(without_char(Seq::<char>::empty(), g) == Seq::<char>::empty());
    assert(Seq::<char>::empty().push(c) =~= seq![c]);
}

/// Removing the grouping separator from grouped digits gives the digits back.
pub proof fn lemma_ungroup(s: Seq<char>, g: char)
    requires
        all_digits(s),
        !is_digit(g),
    ensures
        without_char(group_digits(s, g), g) == s,
    decreases s.len(),
{
    if s.len() <= 3 {
        lemma_without_absent(s, g);
    } else {
        let head = s.take(s.len() - 3);
        let tail = s.skip(s.len() - 3);
        assert forall|i: int| 0 <= i < head.len() implies is_digit(#[trigger] head[i]) by {
            assert(head[i] == s[i]);
        }
        assert forall|i: int| 0 <= i < tail.len() implies tail[i] != g by {
            assert(tail[i] == s[i + s.len() - 3]);
        }
        lemma_ungroup(head, g);
        lemma_without_concat(group_digits(head, g) + seq![g], tail, g);
        lemma_without_concat(group_digits(head, g), seq![g], g);
        lemma_without_absent(tail, g);
        lemma_without_single(g, g);
        assert(head + tail =~= s);
        assert(s + Seq::<char>::empty() =~= s);
        assert(head + Seq::<char>::empty() =~= head);
    }
}

/// In grouped digits every character is a digit or `g`, and each `g` is
/// followed by three digits.
pub proof fn lemma_group_shape(s: Seq<char>, g: char)
    requires
        all_digits(s),
        !is_digit(g),
    ensures
        forall|i: int| 0 <= i < group_digits(s, g).len() ==> #[trigger] group_digits(s, g)[i] == g
            || is_digit(group_digits(s, g)[i]),
        forall|i: int| 0 <= i < group_digits(s, g).len() && #[trigger] group_digits(s, g)[i] == g
            ==> {
            let x = group_digits(s, g);
            &&& i + 3 < x.len()
            &&& is_digit(x[i + 1])
            &&& is_digit(x[i + 2])
            &&& is_digit(x[i + 3])
        },
    decreases s.len(),
{
    if s.len() > 3 {
        let head = s.take(s.len() - 3);
        let tail = s.skip(s.len() - 3);
        assert forall|i: int| 0 <= i < head.len() implies is_digit(#[trigger] head[i]) by {
            assert(head[i] == s[i]);
        }
        assert forall|i: int| 0 <= i < tail.len() implies is_digit(#[trigger] tail[i]) by {
            assert(tail[i] == s[i + s.len() - 3]);
        }
        lemma_group_shape(head, g);
        let gh = group_digits(head, g);
        let x = group_digits(s, g);
        assert(x == gh + seq![g] + tail);
        assert forall|i: int| 0 <= i < x.len() implies #[trigger] x[i] == g || is_digit(x[i]) by {
            if i < gh.len() {
                assert(x[i] == gh[i]);
            } else if i > gh.len() {
                assert(x[i] == tail[i - gh.len() - 1]);
            }
        }
        assert forall|i: int| 0 <= i < x.len() && #[trigger] x[i] == g implies {
            &&& i + 3 < x.len()
            &&& is_digit(x[i + 1])
            &&& is_digit(x[i + 2])
            &&& is_digit(x[i + 3])
        } by {
            if i < gh.len() {
                assert(x[i] == gh[i]);
                assert(gh[i] == g);
                assert(x[i + 1] == gh[i + 1]);
                assert(x[i + 2] == gh[i + 2]);
                assert(x[i + 3] == gh[i + 3]);
            } else if i > gh.len() {
                assert(x[i] == tail[i - gh.len() - 1]);
            } else {
                assert(x[i + 1] == tail[0]);
                assert(x[i + 2] == tail[1]);
                assert(x[i + 3] == tail[2]);
            }
        }
    }
}

/// Grouping keeps the first digit first.
pub proof fn lemma_group_first(s: Seq<char>, g: char)
    requires
        s.len() > 0,
    ensures
        group_digits(s, g).len() > 0,
        group_digits(s, g)[0] == s[0],
    decreases s.len(),
{
    if s.len() > 3 {
        let head = s.take(s.len() - 3);
        lemma_group_first(head, g);
    }
}

/// What a symbol-reading spec expects after the amount: the unit's symbol
/// where its template has a symbol part, nothing otherwise.
pub open spec fn symbol_suffix(read: FormatSpec, m: Money) -> Seq<char> {
    if read.template@.contains(FormatPart::CurrencySymbol) {
        read.symbol_for(m.unit).unwrap()
    } else {
        Seq::empty()
    }
}

/// A sign-and-amount template writes the minus sign (for a negative
/// amount) followed by the digits.
pub(crate) proof fn lemma_render_plain(
    minor: int,
    unit: Unit,
    g: char,
    d: char,
    symbol: Option<Seq<char>>,
)
    ensures
        render(template_without_symbol(), minor, unit, g, d, symbol) == (if minor < 0 {
            seq!['-']
        } else {
            Seq::<char>::empty()
        }) + amount_text(magnitude_of(minor), unit.precision as nat, g, d),
{
    let tmpl = template_without_symbol();
    let one = seq![FormatPart::OptionalMinus];
    assert(tmpl.drop_last() =~= one);
    assert(one.drop_last() =~= Seq::<FormatPart>::empty());
    let r0 = render(Seq::<FormatPart>::empty(), minor, unit, g, d, symbol);
    assert(r0 == Seq::<char>::empty());
    let r1 = render(one, minor, unit, g, d, symbol);
    assert(r1 == r0 + part_text(FormatPart::OptionalMinus, minor, unit, g, d, symbol));
    assert(r1 =~= part_text(FormatPart::OptionalMinus, minor, unit, g, d, symbol));
}

/// The digits of an amount text, without grouping, split at the point into
/// a non-empty whole part and `p` minor digits whose value is the magnitude.
proof fn lemma_amount_digits(mag: nat, p: nat, g: char, d: char)
    requires
        !is_digit(g),
        !is_digit(d),
        g != d,
    ensures
        ({
            let a = amount_text(mag, p, g, d);
            let u = without_char(a, g);
            &&& a.len() > 0
            &&& is_digit(a[0])
            &&& grouping_ok(a, g, d)
            &&& split_number(u, d) matches Some((i, f)) && i.len() > 0 && f.len() == p
                && digits_value(i + f) == mag
        }),
{
    let ds = padded(digits_of(mag), p + 1);
    let cut = (ds.len() - p) as int;
    let a = amount_text(mag, p, g, d);
    lemma_padded(mag, p + 1);
    let int_digits = ds.take(cut);
    let frac = ds.skip(cut);
    lemma_group_first(int_digits, g);
    assert(a[0] == int_digits[0]);
    assert(int_digits[0] == ds[0]);
    assert(all_digits(int_digits)) by {
        assert forall|i: int| 0 <= i < int_digits.len() implies is_digit(#[trigger] int_digits[i]) by {
            assert(int_digits[i] == ds[i]);
        }
    }
    assert(all_digits(frac)) by {
        assert forall|i: int| 0 <= i < frac.len() implies is_digit(#[trigger] frac[i]) by {
            assert(frac[i] == ds[i + cut]);
        }
    }
    assert forall|i: int| 0 <= i < frac.len() implies frac[i] != g by {
        assert(is_digit(frac[i]));
    }
    lemma_ungroup(int_digits, g);
    lemma_group_shape(int_digits, g);
    let gd = group_digits(int_digits, g);
    assert(a == gd + seq![d] + frac);
    assert forall|i: int| 0 <= i < a.len() && #[trigger] a[i] == g implies separator_well_placed(
        a,
        d,
        i,
    ) by {
        if i < gd.len() {
            assert(a[i] == gd[i]);
            assert(a[i + 1] == gd[i + 1]);
            assert(a[i + 2] == gd[i + 2]);
            assert(a[i + 3] == gd[i + 3]);
            assert forall|j: int| 0 <= j < i implies a[j] != d by {
                assert(a[j] == gd[j]);
                assert(gd[j] == g || is_digit(gd[j]));
            }
        } else if i == gd.len() {
            assert(a[i] == d);
        } else {
            assert(a[i] == frac[i - gd.len() - 1]);
        }
    }
    lemma_without_concat(group_digits(int_digits, g) + seq![d], frac, g);
    lemma_without_concat(group_digits(int_digits, g), seq![d], g);
    lemma_without_single(d, g);
    lemma_without_absent(frac, g);
    let u = int_digits + seq![d] + frac;
    assert(without_char(a, g) == u);
    assert(u.take(cut) =~= int_digits);
    assert(u.skip(cut + 1) =~= frac);
    assert(u[cut] == d);
    assert(point_at(u, d, cut));
    assert(!all_digits(u)) by {
        assert(!is_digit(u[cut]));
    }
    let i = choose|i: int| point_at(u, d, i);
    assert forall|j: int| 0 <= j < cut implies is_digit(#[trigger] u[j]) by {
        assert(u[j] == int_digits[j]);
    }
    lemma_point_unique(u, d, i, cut);
    assert(split_number(u, d) == Some((int_digits, frac)));
    assert(int_digits + frac =~= ds);
}

/// Round trip: a money value written without its symbol by `shown`, followed by
/// the symbol that `read` expects (if any), reads back under `read` as the same
/// value, when the two specs share their separators.
pub proof fn lemma_round_trip(m: Money, shown: FormatSpec, read: FormatSpec)
    requires
        shown.template@ == template_without_symbol(),
        shown.separators_ok(),
        read.thousands_separator == shown.thousands_separator,
        read.decimal_separator == shown.decimal_separator,
        read.template@ == template_without_symbol() || (read.template@ == template_with_symbol()
            && read.symbol_for(m.unit) is Some),
    ensures
        read.parse_spec(shown.render_spec(m.minor as int, m.unit) + symbol_suffix(read, m), m.unit)
            == Some(m.minor as int),
{
    let g = shown.thousands_separator;
    let d = shown.decimal_separator;
    let minor = m.minor as int;
    let unit = m.unit;
    let p = unit.precision as nat;
    let mag = magnitude_of(minor);
    let a = amount_text(mag, p, g, d);
    let sign: Seq<char> = if minor < 0 {
        seq!['-']
    } else {
        Seq::empty()
    };
    lemma_render_plain(minor, unit, g, d, shown.symbol_for(unit));
    lemma_amount_digits(mag, p, g, d);
    let text = shown.render_spec(minor, unit);
    assert(text == sign + a);
    let suffix = symbol_suffix(read, m);
    let t = text + suffix;
    assert(signed(t, read.template@) == (minor < 0)) by {
        if minor >= 0 {
            assert(t[0] == a[0]);
        } else {
            assert(t[0] == '-');
        }
    }
    let body = a + suffix;
    if minor < 0 {
        assert(t.drop_first() =~= body);
    } else {
        assert(t =~= body);
    }
    assert(!template_without_symbol().contains(FormatPart::CurrencySymbol)) by {
        if template_without_symbol().contains(FormatPart::CurrencySymbol) {
            let i = choose|i: int|
                0 <= i < template_without_symbol().len() && template_without_symbol()[i]
                    == FormatPart::CurrencySymbol;
        }
    }
    if read.template@ == template_with_symbol() {
        assert(read.template@[2] == FormatPart::CurrencySymbol);
        assert(body.subrange(body.len() - suffix.len(), body.len() as int) =~= suffix);
        assert(body.subrange(0, body.len() - suffix.len()) =~= a);
    } else {
        assert(body =~= a);
    }
}

} // verus!
