//! Productions for the statements of a Gerber file, one command each.
//!
//! A statement is a word command (`<code><params>*`) or an extended command
//! (`%<code><params>*%`). Each parser reads from the start of its input and
//! returns the command with the number of bytes it consumed.
use vstd::prelude::*;

use crate::attribute::FileAttributeName;
use crate::command::{
    parsed, value_texts, ApertureTemplate, Command, CommandView, Coordinates, Mirroring, Polarity,
    StepRepeat, TemplateView, Unit,
};
use crate::attribute::{spec_attribute_name};
use crate::primitive::{
    aperture_identifier, decimal, field, integer, EscapedString, is_digit, is_field_byte, is_string_byte, lemma_span_bounds, name,
    spec_aperture_identifier, spec_decimal, spec_integer, spec_name, span, string, ApertureId,
    Decimal,
};

verus! {

/// Byte `b` stands at index `i` of `s`.
pub open spec fn at(s: Seq<u8>, i: int, b: u8) -> bool {
    0 <= i < s.len() && s[i] == b
}

/// What follows index `i` of `s`.
pub open spec fn from(s: Seq<u8>, i: int) -> Seq<u8> {
    s.subrange(i, s.len() as int)
}

/// Byte `b` stands at index `i` of `s`.
pub fn byte_is(s: &[u8], i: usize, b: u8) -> (r: bool)
    ensures
        r == at(s@, i as int, b),
        r ==> i < s@.len() <= usize::MAX,
{
    i < s.len() && s[i] == b
}

/// What follows index `i` of `s`.
fn tail(s: &[u8], i: usize) -> (r: &[u8])
    requires
        i <= s@.len(),
    ensures
        r@ == from(s@, i as int),
        s@.len() <= usize::MAX,
{
    &s[i..s.len()]
}

/// A line feed or a carriage return; line breaks carry no meaning.
pub open spec fn is_newline(b: u8) -> bool {
    b == '\n' as u8 || b == '\r' as u8
}

/// End of the line breaks that begin at `i`.
pub open spec fn newlines_end(s: Seq<u8>, i: int) -> int {
    span(s, i, |b: u8| is_newline(b))
}

/// Skips the line breaks that begin at `i`.
pub fn skip_newlines(s: &[u8], i: usize) -> (r: usize)
    requires
        i <= s@.len(),
    ensures
        r == newlines_end(s@, i as int),
        i <= r <= s@.len(),
{
    proof {
        lemma_span_bounds(s@, i as int, |b: u8| is_newline(b));
    }
    let mut k: usize = i;
    while k < s.len() && (s[k] == '\n' as u8 || s[k] == '\r' as u8)
        invariant
            i <= k <= s@.len(),
            newlines_end(s@, k as int) == newlines_end(s@, i as int),
        decreases s@.len() - k,
    {
        k += 1;
    }
    k
}

/// `<letter><decimal>` at `i`, if it stands there; else nothing is consumed.
pub open spec fn spec_opt_decimal(s: Seq<u8>, i: int, letter: u8) -> (Option<Decimal>, int) {
    if at(s, i, letter) {
        match spec_decimal(from(s, i + 1)) {
            Some((d, n)) => (Some(d), i + 1 + n),
            None => (None, i),
        }
    } else {
        (None, i)
    }
}

fn opt_decimal(s: &[u8], i: usize, letter: u8) -> (r: (Option<Decimal>, usize))
    requires
        i <= s@.len(),
    ensures
        (r.0, r.1 as int) == spec_opt_decimal(s@, i as int, letter),
        i <= r.1 <= s@.len(),
{
    if byte_is(s, i, letter) {
        match decimal(tail(s, i + 1)) {
            Some((d, n)) => (Some(d), i + 1 + n),
            None => (None, i),
        }
    } else {
        (None, i)
    }
}

/// `<letter><integer>` at `i`, if it stands there; else nothing is consumed.
pub open spec fn spec_opt_integer(s: Seq<u8>, i: int, letter: u8) -> (Option<i32>, int) {
    if at(s, i, letter) {
        match spec_integer(from(s, i + 1)) {
            Some((v, n)) => (Some(v), i + 1 + n),
            None => (None, i),
        }
    } else {
        (None, i)
    }
}

fn opt_integer(s: &[u8], i: usize, letter: u8) -> (r: (Option<i32>, usize))
    requires
        i <= s@.len(),
    ensures
        (r.0, r.1 as int) == spec_opt_integer(s@, i as int, letter),
        i <= r.1 <= s@.len(),
{
    if byte_is(s, i, letter) {
        let t = tail(s, i + 1);
        match integer(t) {
            Some((v, n)) => {
                proof {
                    lemma_integer_len(t@);
                }
                (Some(v), i + 1 + n)
            },
            None => (None, i),
        }
    } else {
        (None, i)
    }
}

proof fn lemma_integer_len(s: Seq<u8>)
    requires
        s.len() <= usize::MAX,
    ensures
        spec_integer(s) matches Some((_, n)) ==> 0 < n <= s.len(),
{
    lemma_span_bounds(s, 0, |b: u8| is_digit(b));
    if s.len() > 0 {
        lemma_span_bounds(s.drop_first(), 0, |b: u8| is_digit(b));
    }
}

/// `G04<string>*`: a comment.
pub open spec fn spec_comment(s: Seq<u8>) -> Option<(Command, usize)> {
    if at(s, 0, 'G' as u8) && at(s, 1, '0' as u8) && at(s, 2, '4' as u8) {
        let e = 3 + span(from(s, 3), 0, |b: u8| is_string_byte(b));
        if at(s, e, '*' as u8) {
            Some((Command::Comment, (e + 1) as usize))
        } else {
            None
        }
    } else {
        None
    }
}

/// Parses a comment.
pub fn comment(s: &[u8]) -> (r: Option<(Command, usize)>)
    ensures
        r == spec_comment(s@),
{
    if byte_is(s, 0, 'G' as u8) && byte_is(s, 1, '0' as u8) && byte_is(s, 2, '4' as u8) {
        let t = tail(s, 3);
        let (_, n) = string(t);
        proof {
            lemma_span_bounds(t@, 0, |b: u8| is_string_byte(b));
        }
        if byte_is(s, 3 + n, '*' as u8) {
            Some((Command::Comment, 3 + n + 1))
        } else {
            None
        }
    } else {
        None
    }
}

/// `%MOMM*%` or `%MOIN*%`: the unit.
pub open spec fn spec_mode(s: Seq<u8>) -> Option<(Command, usize)> {
    if at(s, 0, '%' as u8) && at(s, 1, 'M' as u8) && at(s, 2, 'O' as u8) && at(s, 5, '*' as u8)
        && at(s, 6, '%' as u8) {
        if at(s, 3, 'M' as u8) && at(s, 4, 'M' as u8) {
            Some((Command::Mode(Unit::Millimeters), 7usize))
        } else if at(s, 3, 'I' as u8) && at(s, 4, 'N' as u8) {
            Some((Command::Mode(Unit::Inches), 7usize))
        } else {
            None
        }
    } else {
        None
    }
}

/// Parses a unit statement.
pub fn mode(s: &[u8]) -> (r: Option<(Command, usize)>)
    ensures
        r == spec_mode(s@),
{
    if byte_is(s, 0, '%' as u8) && byte_is(s, 1, 'M' as u8) && byte_is(s, 2, 'O' as u8) && byte_is(
        s,
        5,
        '*' as u8,
    ) && byte_is(s, 6, '%' as u8) {
        if byte_is(s, 3, 'M' as u8) && byte_is(s, 4, 'M' as u8) {
            Some((Command::Mode(Unit::Millimeters), 7))
        } else if byte_is(s, 3, 'I' as u8) && byte_is(s, 4, 'N' as u8) {
            Some((Command::Mode(Unit::Inches), 7))
        } else {
            None
        }
    } else {
        None
    }
}

/// Digits of a coordinate: an integer count from 1 to 6, then 6 decimals.
pub open spec fn spec_coordinate_digits(s: Seq<u8>) -> Option<u8> {
    if s.len() >= 2 && '1' as u8 <= s[0] && s[0] <= '6' as u8 && s[1] == '6' as u8 {
        Some((s[0] - '0' as u8) as u8)
    } else {
        None
    }
}

/// Parses the digit counts of a coordinate; returns the integer count.
pub fn coordinate_digits(s: &[u8]) -> (r: Result<(u8, usize), crate::GerberError>)
    ensures
        match spec_coordinate_digits(s@) {
            Some(d) => r == Ok::<(u8, usize), crate::GerberError>((d, 2usize)),
            None => r == Err::<(u8, usize), crate::GerberError>(
                crate::GerberError::CoodinateDigits,
            ),
        },
{
    if s.len() >= 2 && '1' as u8 <= s[0] && s[0] <= '6' as u8 && s[1] == '6' as u8 {
        Ok((s[0] - '0' as u8, 2))
    } else {
        Err(crate::GerberError::CoodinateDigits)
    }
}

/// `%FSLAX<digits>Y<digits>*%`: the coordinate format.
pub open spec fn spec_format_specification(s: Seq<u8>) -> Option<(Command, usize)> {
    if at(s, 0, '%' as u8) && at(s, 1, 'F' as u8) && at(s, 2, 'S' as u8) && at(s, 3, 'L' as u8)
        && at(s, 4, 'A' as u8) && at(s, 5, 'X' as u8) && at(s, 8, 'Y' as u8) && at(s, 11, '*' as u8)
        && at(s, 12, '%' as u8) {
        match (spec_coordinate_digits(from(s, 6)), spec_coordinate_digits(from(s, 9))) {
            (Some(x), Some(y)) => Some((Command::FormatSpecification(x, y), 13usize)),
            _ => None,
        }
    } else {
        None
    }
}

/// Parses a format specification.
pub fn format_specification(s: &[u8]) -> (r: Option<(Command, usize)>)
    ensures
        r == spec_format_specification(s@),
{
    if byte_is(s, 0, '%' as u8) && byte_is(s, 1, 'F' as u8) && byte_is(s, 2, 'S' as u8) && byte_is(
        s,
        3,
        'L' as u8,
    ) && byte_is(s, 4, 'A' as u8) && byte_is(s, 5, 'X' as u8) && byte_is(s, 8, 'Y' as u8)
        && byte_is(s, 11, '*' as u8) && byte_is(s, 12, '%' as u8) {
        let x = coordinate_digits(tail(s, 6));
        let y = coordinate_digits(tail(s, 9));
        match (x, y) {
            (Ok((x, _)), Ok((y, _))) => Some((Command::FormatSpecification(x, y), 13)),
            _ => None,
        }
    } else {
        None
    }
}

/// `*%` stands at `i`: the end of an extended command.
pub open spec fn closes(s: Seq<u8>, i: int) -> bool {
    at(s, i, '*' as u8) && at(s, i + 1, '%' as u8)
}

fn closes_at(s: &[u8], i: usize) -> (r: bool)
    ensures
        r == closes(s@, i as int),
        r ==> i + 2 <= s@.len() <= usize::MAX,
{
    byte_is(s, i, '*' as u8) && byte_is(s, i + 1, '%' as u8)
}

/// `%` and the two letters of an extended command's code stand at the start.
pub open spec fn opens(s: Seq<u8>, a: u8, b: u8) -> bool {
    at(s, 0, '%' as u8) && at(s, 1, a) && at(s, 2, b)
}

fn opens_with(s: &[u8], a: u8, b: u8) -> (r: bool)
    ensures
        r == opens(s@, a, b),
        r ==> 3 <= s@.len() <= usize::MAX,
{
    byte_is(s, 0, '%' as u8) && byte_is(s, 1, a) && byte_is(s, 2, b)
}

/// `%AD<id><shape>,` and line breaks: the aperture number and where the
/// parameters begin.
pub open spec fn spec_ad_head(s: Seq<u8>, shape: u8) -> Option<(ApertureId, int)> {
    if opens(s, 'A' as u8, 'D' as u8) {
        match spec_aperture_identifier(from(s, 3)) {
            Some((id, n)) => if at(s, 3 + n, shape) && at(s, 4 + n, ',' as u8) {
                Some((id, newlines_end(s, 5 + n)))
            } else {
                None
            },
            None => None,
        }
    } else {
        None
    }
}

fn ad_head(s: &[u8], shape: u8) -> (r: Option<(ApertureId, usize)>)
    ensures
        match spec_ad_head(s@, shape) {
            Some((id, p)) => r matches Some((i, q)) && i == id && q == p,
            None => r is None,
        },
        r matches Some((_, p)) ==> p <= s@.len(),
{
    if !opens_with(s, 'A' as u8, 'D' as u8) {
        return None;
    }
    match aperture_identifier(tail(s, 3)) {
        Some((id, n)) => if byte_is(s, 3 + n, shape) && byte_is(s, 4 + n, ',' as u8) {
            Some((id, skip_newlines(s, 5 + n)))
        } else {
            None
        },
        None => None,
    }
}

/// `%ADnnC,<diameter>[X<hole>]*%`: a circle aperture.
pub open spec fn spec_aperture_define_circle(s: Seq<u8>) -> Option<(Command, usize)> {
    match spec_ad_head(s, 'C' as u8) {
        Some((id, p)) => match spec_decimal(from(s, p)) {
            Some((d, n)) => {
                let (hole, q) = spec_opt_decimal(s, p + n, 'X' as u8);
                if closes(s, q) {
                    Some(
                        (
                            Command::ApertureDefine(id, ApertureTemplate::Circle(d, hole)),
                            (q + 2) as usize,
                        ),
                    )
                } else {
                    None
                }
            },
            None => None,
        },
        None => None,
    }
}

/// Parses a circle aperture definition.
pub fn aperture_define_circle(s: &[u8]) -> (r: Option<(Command, usize)>)
    ensures
        r == spec_aperture_define_circle(s@),
{
    let (id, p) = match ad_head(s, 'C' as u8) {
        Some(h) => h,
        None => return None,
    };
    let (d, n) = match decimal(tail(s, p)) {
        Some(v) => v,
        None => return None,
    };
    let (hole, q) = opt_decimal(s, p + n, 'X' as u8);
    if closes_at(s, q) {
        Some((Command::ApertureDefine(id, ApertureTemplate::Circle(d, hole)), q + 2))
    } else {
        None
    }
}

/// `<first>X<second>` at `p`: two decimals, as a rectangle, an obround and a
/// polygon begin.
pub open spec fn spec_two_decimals(s: Seq<u8>, p: int) -> Option<(Decimal, Decimal, int)> {
    match spec_decimal(from(s, p)) {
        Some((a, n)) => match spec_opt_decimal(s, p + n, 'X' as u8) {
            (Some(b), q) => Some((a, b, q)),
            (None, _) => None,
        },
        None => None,
    }
}

fn two_decimals(s: &[u8], p: usize) -> (r: Option<(Decimal, Decimal, usize)>)
    requires
        p <= s@.len(),
    ensures
        match spec_two_decimals(s@, p as int) {
            Some((a, b, q)) => r matches Some((x, y, e)) && x == a && y == b && e == q,
            None => r is None,
        },
        r matches Some((_, _, q)) ==> q <= s@.len(),
{
    let (a, n) = match decimal(tail(s, p)) {
        Some(v) => v,
        None => return None,
    };
    match opt_decimal(s, p + n, 'X' as u8) {
        (Some(b), q) => Some((a, b, q)),
        (None, _) => None,
    }
}

/// `%ADnn<shape>,<width>X<height>[X<hole>]*%`: the rectangle (`R`) or the
/// obround (`O`) aperture.
pub open spec fn spec_aperture_define_box(s: Seq<u8>, shape: u8) -> Option<(Command, usize)> {
    match spec_ad_head(s, shape) {
        Some((id, p)) => match spec_two_decimals(s, p) {
            Some((w, h, q)) => {
                let (hole, e) = spec_opt_decimal(s, q, 'X' as u8);
                if closes(s, e) {
                    let t = if shape == 'R' as u8 {
                        ApertureTemplate::Rectangle(w, h, hole)
                    } else {
                        ApertureTemplate::Obround(w, h, hole)
                    };
                    Some((Command::ApertureDefine(id, t), (e + 2) as usize))
                } else {
                    None
                }
            },
            None => None,
        },
        None => None,
    }
}

fn aperture_define_box(s: &[u8], shape: u8) -> (r: Option<(Command, usize)>)
    ensures
        r == spec_aperture_define_box(s@, shape),
{
    let (id, p) = match ad_head(s, shape) {
        Some(h) => h,
        None => return None,
    };
    let (w, h, q) = match two_decimals(s, p) {
        Some(v) => v,
        None => return None,
    };
    let (hole, e) = opt_decimal(s, q, 'X' as u8);
    if closes_at(s, e) {
        let t = if shape == 'R' as u8 {
            ApertureTemplate::Rectangle(w, h, hole)
        } else {
            ApertureTemplate::Obround(w, h, hole)
        };
        Some((Command::ApertureDefine(id, t), e + 2))
    } else {
        None
    }
}

/// Parses a rectangle aperture definition.
pub fn aperture_define_rectangle(s: &[u8]) -> (r: Option<(Command, usize)>)
    ensures
        r == spec_aperture_define_box(s@, 'R' as u8),
{
    aperture_define_box(s, 'R' as u8)
}

/// Parses an obround aperture definition.
pub fn aperture_define_obround(s: &[u8]) -> (r: Option<(Command, usize)>)
    ensures
        r == spec_aperture_define_box(s@, 'O' as u8),
{
    aperture_define_box(s, 'O' as u8)
}

/// `%ADnnP,<diameter>X<vertices>[X<rotation>[X<hole>]]*%`: a regular polygon.
pub open spec fn spec_aperture_define_polygon(s: Seq<u8>) -> Option<(Command, usize)> {
    match spec_ad_head(s, 'P' as u8) {
        Some((id, p)) => match spec_two_decimals(s, p) {
            Some((d, v, q)) => {
                let (rotation, e1) = spec_opt_decimal(s, q, 'X' as u8);
                let (hole, e2) = if rotation is Some {
                    spec_opt_decimal(s, e1, 'X' as u8)
                } else {
                    (None, e1)
                };
                if closes(s, e2) {
                    Some(
                        (
                            Command::ApertureDefine(
                                id,
                                ApertureTemplate::Polygon(d, v, rotation, hole),
                            ),
                            (e2 + 2) as usize,
                        ),
                    )
                } else {
                    None
                }
            },
            None => None,
        },
        None => None,
    }
}

/// Parses a polygon aperture definition.
pub fn aperture_define_polygon(s: &[u8]) -> (r: Option<(Command, usize)>)
    ensures
        r == spec_aperture_define_polygon(s@),
{
    let (id, p) = match ad_head(s, 'P' as u8) {
        Some(h) => h,
        None => return None,
    };
    let (d, v, q) = match two_decimals(s, p) {
        Some(x) => x,
        None => return None,
    };
    let (rotation, e1) = opt_decimal(s, q, 'X' as u8);
    let (hole, e2) = if rotation.is_some() {
        opt_decimal(s, e1, 'X' as u8)
    } else {
        (None, e1)
    };
    if closes_at(s, e2) {
        Some((Command::ApertureDefine(id, ApertureTemplate::Polygon(d, v, rotation, hole)), e2 + 2))
    } else {
        None
    }
}

/// `{X<decimal>}` at `q`: the decimals and where they end.
pub open spec fn spec_x_list(s: Seq<u8>, q: int) -> (Seq<Decimal>, int)
    decreases s.len() - q,
{
    if 0 <= q <= s.len() {
        match spec_opt_decimal(s, q, 'X' as u8) {
            (Some(d), e) => if q < e <= s.len() {
                let (rest, f) = spec_x_list(s, e);
                (seq![d] + rest, f)
            } else {
                (Seq::empty(), q)
            },
            (None, _) => (Seq::empty(), q),
        }
    } else {
        (Seq::empty(), q)
    }
}

/// `[,<decimal>{X<decimal>}]` at `p`: the parameters of a macro aperture and
/// where they end.
pub open spec fn spec_macro_parameters(s: Seq<u8>, p: int) -> (Seq<Decimal>, int) {
    if at(s, p, ',' as u8) {
        match spec_decimal(from(s, p + 1)) {
            Some((d, n)) => {
                let (rest, e) = spec_x_list(s, p + 1 + n);
                (seq![d] + rest, e)
            },
            None => (Seq::empty(), p),
        }
    } else {
        (Seq::empty(), p)
    }
}

/// Parses the parameters of a macro aperture at `p`.
fn macro_parameters(s: &[u8], p: usize) -> (r: (Vec<Decimal>, usize))
    requires
        p <= s@.len(),
    ensures
        (r.0@, r.1 as int) == spec_macro_parameters(s@, p as int),
        p <= r.1 <= s@.len(),
{
    let mut params: Vec<Decimal> = Vec::new();
    if !byte_is(s, p, ',' as u8) {
        return (params, p);
    }
    let (first, n) = match decimal(tail(s, p + 1)) {
        Some(v) => v,
        None => return (params, p),
    };
    params.push(first);
    let mut q: usize = p + 1 + n;
    let ghost start = q as int;
    assert(params@ + spec_x_list(s@, q as int).0 =~= seq![first] + spec_x_list(s@, start).0);
    loop
        invariant
            p < q <= s@.len(),
            start <= q,
            params@ + spec_x_list(s@, q as int).0 == seq![first] + spec_x_list(s@, start).0,
            spec_x_list(s@, q as int).1 == spec_x_list(s@, start).1,
        ensures
            p < q <= s@.len(),
            params@ == seq![first] + spec_x_list(s@, start).0,
            q == spec_x_list(s@, start).1,
        decreases s@.len() - q,
    {
        match opt_decimal(s, q, 'X' as u8) {
            (Some(d), e) => {
                let ghost before = params@;
                params.push(d);
                proof {
                    assert(q < e);
                    assert(before + spec_x_list(s@, q as int).0 == before + (seq![d]
                        + spec_x_list(s@, e as int).0));
                    assert(before + (seq![d] + spec_x_list(s@, e as int).0) =~= params@
                        + spec_x_list(s@, e as int).0);
                }
                q = e;
            },
            (None, _) => {
                assert(spec_x_list(s@, q as int).0 =~= Seq::<Decimal>::empty());
                assert(spec_x_list(s@, q as int).1 == q);
                assert(params@ + Seq::<Decimal>::empty() =~= params@);
                break;
            },
        }
    }
    (params, q)
}

/// `%ADnn<name>[,<parameters>]*%`: an aperture that instantiates a macro.
pub open spec fn spec_aperture_define_macro(s: Seq<u8>) -> Option<(CommandView, int)> {
    if opens(s, 'A' as u8, 'D' as u8) {
        match spec_aperture_identifier(from(s, 3)) {
            Some((id, n)) => match spec_name(from(s, 3 + n)) {
                Some(k) => {
                    let (ps, e) = spec_macro_parameters(s, 3 + n + k);
                    if closes(s, e) {
                        Some(
                            (
                                CommandView::ApertureDefine(
                                    id,
                                    TemplateView::Macro(s.subrange(3 + n, 3 + n + k), ps),
                                ),
                                e + 2,
                            ),
                        )
                    } else {
                        None
                    }
                },
                None => None,
            },
            None => None,
        }
    } else {
        None
    }
}

/// The first of two results that is a success.
pub open spec fn first_of(a: Option<(CommandView, int)>, b: Option<(CommandView, int)>) -> Option<
    (CommandView, int),
> {
    if a is Some {
        a
    } else {
        b
    }
}

/// `%AD...*%` in any of its forms, the standard templates tried first.
pub open spec fn spec_aperture_define(s: Seq<u8>) -> Option<(CommandView, int)> {
    first_of(
        parsed(spec_aperture_define_circle(s)),
        first_of(
            parsed(spec_aperture_define_box(s, 'R' as u8)),
            first_of(
                parsed(spec_aperture_define_box(s, 'O' as u8)),
                first_of(parsed(spec_aperture_define_polygon(s)), spec_aperture_define_macro(s)),
            ),
        ),
    )
}

/// Parses `%ADnn<name>[,<parameters>]*%`: an aperture that instantiates a macro.
pub fn aperture_define_macro(s: &[u8]) -> (r: Option<(Command, usize)>)
    ensures
        parsed(r) == spec_aperture_define_macro(s@),
        r matches Some((c, e)) ==> {
            &&& opens(s@, 'A' as u8, 'D' as u8)
            &&& c matches Command::ApertureDefine(id, ApertureTemplate::Macro(nm, ps)) && {
                &&& spec_aperture_identifier(from(s@, 3)) matches Some((i, n)) && i == id && {
                    &&& spec_name(from(s@, 3 + n)) == Some(nm@.len() as usize)
                    &&& nm@ == s@.subrange(3 + n, 3 + n + nm@.len())
                    &&& spec_macro_parameters(s@, 3 + n + nm@.len()) == (ps@, e - 2)
                }
            }
            &&& closes(s@, e - 2)
            &&& e <= s@.len()
        },
{
    if !opens_with(s, 'A' as u8, 'D' as u8) {
        return None;
    }
    let (id, n) = match aperture_identifier(tail(s, 3)) {
        Some(v) => v,
        None => return None,
    };
    let k = match name(tail(s, 3 + n)) {
        Some(k) => k,
        None => return None,
    };
    let text = &s[3 + n..3 + n + k];
    let nm = vstd::slice::slice_to_vec(text);
    assert(nm@ =~= s@.subrange(3 + n, 3 + n + k));
    let (params, e) = macro_parameters(s, 3 + n + k);
    if closes_at(s, e) {
        Some((Command::ApertureDefine(id, ApertureTemplate::Macro(nm, params)), e + 2))
    } else {
        None
    }
}

/// Parses an aperture definition, trying the standard templates in turn
/// before the macro form: `%ADD10C,0.1*%` is a circle, never a macro named `C`.
pub fn aperture_define(s: &[u8]) -> (r: Option<(Command, usize)>)
    ensures
        spec_aperture_define_circle(s@) is Some ==> r == spec_aperture_define_circle(s@),
        spec_aperture_define_circle(s@) is None && spec_aperture_define_box(s@, 'R' as u8) is Some
            ==> r == spec_aperture_define_box(s@, 'R' as u8),
        spec_aperture_define_circle(s@) is None && spec_aperture_define_box(s@, 'R' as u8) is None
            && spec_aperture_define_box(s@, 'O' as u8) is Some ==> r == spec_aperture_define_box(
            s@,
            'O' as u8,
        ),
        spec_aperture_define_circle(s@) is None && spec_aperture_define_box(s@, 'R' as u8) is None
            && spec_aperture_define_box(s@, 'O' as u8) is None
            && spec_aperture_define_polygon(s@) is Some ==> r == spec_aperture_define_polygon(s@),
        parsed(r) == spec_aperture_define(s@),
        r matches Some((c, e)) ==> 0 < e <= s@.len() && c is ApertureDefine && opens(
            s@,
            'A' as u8,
            'D' as u8,
        ),
{
    if s.len() == 0 {
        return None;
    }
    if let Some(c) = aperture_define_circle(s) {
        return Some(c);
    }
    if let Some(c) = aperture_define_rectangle(s) {
        return Some(c);
    }
    if let Some(c) = aperture_define_obround(s) {
        return Some(c);
    }
    if let Some(c) = aperture_define_polygon(s) {
        return Some(c);
    }
    aperture_define_macro(s)
}

/// The four bytes of `code` stand at the start.
pub open spec fn word(s: Seq<u8>, code: Seq<u8>) -> bool {
    at(s, 0, code[0]) && at(s, 1, code[1]) && at(s, 2, code[2]) && at(s, 3, code[3])
}

fn word_at(s: &[u8], a: u8, b: u8, c: u8, d: u8) -> (r: bool)
    ensures
        r == word(s@, seq![a, b, c, d]),
{
    byte_is(s, 0, a) && byte_is(s, 1, b) && byte_is(s, 2, c) && byte_is(s, 3, d)
}

/// `G01*`: linear interpolation.
pub fn set_linear(s: &[u8]) -> (r: Option<(Command, usize)>)
    ensures
        r == (if word(s@, seq!['G' as u8, '0' as u8, '1' as u8, '*' as u8]) {
            Some((Command::SetLinear, 4usize))
        } else {
            None
        }),
{
    if word_at(s, 'G' as u8, '0' as u8, '1' as u8, '*' as u8) {
        Some((Command::SetLinear, 4))
    } else {
        None
    }
}

/// `G02*`: clockwise circular interpolation.
pub fn set_cw_circular(s: &[u8]) -> (r: Option<(Command, usize)>)
    ensures
        r == (if word(s@, seq!['G' as u8, '0' as u8, '2' as u8, '*' as u8]) {
            Some((Command::SetCWCircular, 4usize))
        } else {
            None
        }),
{
    if word_at(s, 'G' as u8, '0' as u8, '2' as u8, '*' as u8) {
        Some((Command::SetCWCircular, 4))
    } else {
        None
    }
}

/// `G03*`: counterclockwise circular interpolation.
pub fn set_ccw_circular(s: &[u8]) -> (r: Option<(Command, usize)>)
    ensures
        r == (if word(s@, seq!['G' as u8, '0' as u8, '3' as u8, '*' as u8]) {
            Some((Command::SetCCWCircular, 4usize))
        } else {
            None
        }),
{
    if word_at(s, 'G' as u8, '0' as u8, '3' as u8, '*' as u8) {
        Some((Command::SetCCWCircular, 4))
    } else {
        None
    }
}

/// `G75*`: the arc initialisation.
pub fn arc_init(s: &[u8]) -> (r: Option<(Command, usize)>)
    ensures
        r == (if word(s@, seq!['G' as u8, '7' as u8, '5' as u8, '*' as u8]) {
            Some((Command::ArcInit, 4usize))
        } else {
            None
        }),
{
    if word_at(s, 'G' as u8, '7' as u8, '5' as u8, '*' as u8) {
        Some((Command::ArcInit, 4))
    } else {
        None
    }
}

/// `G36*`: the start of a region.
pub fn start_region(s: &[u8]) -> (r: Option<(Command, usize)>)
    ensures
        r == (if word(s@, seq!['G' as u8, '3' as u8, '6' as u8, '*' as u8]) {
            Some((Command::StartRegion, 4usize))
        } else {
            None
        }),
{
    if word_at(s, 'G' as u8, '3' as u8, '6' as u8, '*' as u8) {
        Some((Command::StartRegion, 4))
    } else {
        None
    }
}

/// `G37*`: the end of a region.
pub fn end_region(s: &[u8]) -> (r: Option<(Command, usize)>)
    ensures
        r == (if word(s@, seq!['G' as u8, '3' as u8, '7' as u8, '*' as u8]) {
            Some((Command::EndRegion, 4usize))
        } else {
            None
        }),
{
    if word_at(s, 'G' as u8, '3' as u8, '7' as u8, '*' as u8) {
        Some((Command::EndRegion, 4))
    } else {
        None
    }
}

/// `M02*`: the end of the file.
pub fn end_of_file(s: &[u8]) -> (r: Option<(Command, usize)>)
    ensures
        r == (if word(s@, seq!['M' as u8, '0' as u8, '2' as u8, '*' as u8]) {
            Some((Command::EndOfFile, 4usize))
        } else {
            None
        }),
{
    if word_at(s, 'M' as u8, '0' as u8, '2' as u8, '*' as u8) {
        Some((Command::EndOfFile, 4))
    } else {
        None
    }
}

/// `Dnn*` (nn at least 10): selects an aperture.
pub open spec fn spec_set_current_aperture(s: Seq<u8>) -> Option<(Command, usize)> {
    match spec_aperture_identifier(s) {
        Some((id, n)) => if at(s, n as int, '*' as u8) {
            Some((Command::SetCurrentAperture(id), (n + 1) as usize))
        } else {
            None
        },
        None => None,
    }
}

/// Parses an aperture selection.
pub fn set_current_aperture(s: &[u8]) -> (r: Option<(Command, usize)>)
    ensures
        r == spec_set_current_aperture(s@),
{
    match aperture_identifier(s) {
        Some((id, n)) => if byte_is(s, n, '*' as u8) {
            Some((Command::SetCurrentAperture(id), n + 1))
        } else {
            None
        },
        None => None,
    }
}

/// `[X<x>][Y<y>][I<i>][J<j>]`: the coordinates of an operation, and where
/// they end.
pub open spec fn spec_coordinates(s: Seq<u8>) -> (Coordinates, int) {
    let (x, a) = spec_opt_integer(s, 0, 'X' as u8);
    let (y, b) = spec_opt_integer(s, a, 'Y' as u8);
    let (i, c) = spec_opt_integer(s, b, 'I' as u8);
    let (j, d) = spec_opt_integer(s, c, 'J' as u8);
    (Coordinates { x, y, i, j }, d)
}

fn coordinates(s: &[u8]) -> (r: (Coordinates, usize))
    ensures
        (r.0, r.1 as int) == spec_coordinates(s@),
        r.1 <= s@.len(),
{
    let (x, a) = opt_integer(s, 0, 'X' as u8);
    let (y, b) = opt_integer(s, a, 'Y' as u8);
    let (i, c) = opt_integer(s, b, 'I' as u8);
    let (j, d) = opt_integer(s, c, 'J' as u8);
    (Coordinates { x, y, i, j }, d)
}

/// `<coordinates>D01*`, `D02*` or `D03*`: plot, move or flash.
pub open spec fn spec_operation(s: Seq<u8>) -> Option<(Command, usize)> {
    let (c, p) = spec_coordinates(s);
    if at(s, p, 'D' as u8) && at(s, p + 1, '0' as u8) && at(s, p + 3, '*' as u8) {
        if at(s, p + 2, '1' as u8) {
            Some((Command::Plot(c), (p + 4) as usize))
        } else if at(s, p + 2, '2' as u8) {
            Some((Command::Move(c), (p + 4) as usize))
        } else if at(s, p + 2, '3' as u8) {
            Some((Command::Flash(c), (p + 4) as usize))
        } else {
            None
        }
    } else {
        None
    }
}

/// Parses a plot, move or flash operation.
pub fn operation(s: &[u8]) -> (r: Option<(Command, usize)>)
    ensures
        r == spec_operation(s@),
{
    let (c, p) = coordinates(s);
    if s.len() - p >= 4 && byte_is(s, p, 'D' as u8) && byte_is(s, p + 1, '0' as u8) && byte_is(s, p + 3, '*' as u8) {
        if byte_is(s, p + 2, '1' as u8) {
            Some((Command::Plot(c), p + 4))
        } else if byte_is(s, p + 2, '2' as u8) {
            Some((Command::Move(c), p + 4))
        } else if byte_is(s, p + 2, '3' as u8) {
            Some((Command::Flash(c), p + 4))
        } else {
            None
        }
    } else {
        None
    }
}

/// `%LPD*%` or `%LPC*%`: the polarity.
pub open spec fn spec_load_polarity(s: Seq<u8>) -> Option<(Command, usize)> {
    if opens(s, 'L' as u8, 'P' as u8) && closes(s, 4) {
        if at(s, 3, 'D' as u8) {
            Some((Command::LoadPolarity(Polarity::Dark), 6usize))
        } else if at(s, 3, 'C' as u8) {
            Some((Command::LoadPolarity(Polarity::Clear), 6usize))
        } else {
            None
        }
    } else {
        None
    }
}

/// Parses a polarity statement.
pub fn load_polarity(s: &[u8]) -> (r: Option<(Command, usize)>)
    ensures
        r == spec_load_polarity(s@),
{
    if opens_with(s, 'L' as u8, 'P' as u8) && closes_at(s, 4) {
        if byte_is(s, 3, 'D' as u8) {
            Some((Command::LoadPolarity(Polarity::Dark), 6))
        } else if byte_is(s, 3, 'C' as u8) {
            Some((Command::LoadPolarity(Polarity::Clear), 6))
        } else {
            None
        }
    } else {
        None
    }
}

/// `%LMN*%`, `%LMX*%`, `%LMY*%` or `%LMXY*%`: the mirroring.
pub open spec fn spec_load_mirroring(s: Seq<u8>) -> Option<(Command, usize)> {
    if opens(s, 'L' as u8, 'M' as u8) {
        if at(s, 3, 'X' as u8) && at(s, 4, 'Y' as u8) && closes(s, 5) {
            Some((Command::LoadMirroring(Mirroring::XY), 7usize))
        } else if closes(s, 4) {
            if at(s, 3, 'N' as u8) {
                Some((Command::LoadMirroring(Mirroring::Plain), 6usize))
            } else if at(s, 3, 'X' as u8) {
                Some((Command::LoadMirroring(Mirroring::X), 6usize))
            } else if at(s, 3, 'Y' as u8) {
                Some((Command::LoadMirroring(Mirroring::Y), 6usize))
            } else {
                None
            }
        } else {
            None
        }
    } else {
        None
    }
}

/// Parses a mirroring statement.
pub fn load_mirroring(s: &[u8]) -> (r: Option<(Command, usize)>)
    ensures
        r == spec_load_mirroring(s@),
{
    if !opens_with(s, 'L' as u8, 'M' as u8) {
        None
    } else if byte_is(s, 3, 'X' as u8) && byte_is(s, 4, 'Y' as u8) && closes_at(s, 5) {
        Some((Command::LoadMirroring(Mirroring::XY), 7))
    } else if closes_at(s, 4) {
        if byte_is(s, 3, 'N' as u8) {
            Some((Command::LoadMirroring(Mirroring::Plain), 6))
        } else if byte_is(s, 3, 'X' as u8) {
            Some((Command::LoadMirroring(Mirroring::X), 6))
        } else if byte_is(s, 3, 'Y' as u8) {
            Some((Command::LoadMirroring(Mirroring::Y), 6))
        } else {
            None
        }
    } else {
        None
    }
}

/// `%<code><decimal>*%` with a two-letter code: the decimal.
pub open spec fn spec_decimal_statement(s: Seq<u8>, a: u8, b: u8) -> Option<(Decimal, usize)> {
    if opens(s, a, b) {
        match spec_decimal(from(s, 3)) {
            Some((d, n)) => if closes(s, 3 + n) {
                Some((d, (n + 5) as usize))
            } else {
                None
            },
            None => None,
        }
    } else {
        None
    }
}

fn decimal_statement(s: &[u8], a: u8, b: u8) -> (r: Option<(Decimal, usize)>)
    ensures
        r == spec_decimal_statement(s@, a, b),
{
    if !opens_with(s, a, b) {
        return None;
    }
    match decimal(tail(s, 3)) {
        Some((d, n)) => if closes_at(s, 3 + n) {
            Some((d, n + 5))
        } else {
            None
        },
        None => None,
    }
}

/// Parses `%LR<degrees>*%`: the rotation.
pub fn load_rotation(s: &[u8]) -> (r: Option<(Command, usize)>)
    ensures
        match spec_decimal_statement(s@, 'L' as u8, 'R' as u8) {
            Some((d, n)) => r == Some((Command::LoadRotation(d), n)),
            None => r is None,
        },
{
    match decimal_statement(s, 'L' as u8, 'R' as u8) {
        Some((d, n)) => Some((Command::LoadRotation(d), n)),
        None => None,
    }
}

/// Parses `%LS<factor>*%`: the scale.
pub fn load_scaling(s: &[u8]) -> (r: Option<(Command, usize)>)
    ensures
        match spec_decimal_statement(s@, 'L' as u8, 'S' as u8) {
            Some((d, n)) => r == Some((Command::LoadScaling(d), n)),
            None => r is None,
        },
{
    match decimal_statement(s, 'L' as u8, 'S' as u8) {
        Some((d, n)) => Some((Command::LoadScaling(d), n)),
        None => None,
    }
}

/// `%ABDnn*%` opens a block aperture, `%AB*%` closes one.
pub open spec fn spec_ab_statement(s: Seq<u8>) -> Option<(Command, usize)> {
    if opens(s, 'A' as u8, 'B' as u8) {
        match spec_aperture_identifier(from(s, 3)) {
            Some((id, n)) => if closes(s, 3 + n) {
                Some((Command::ApertureBlock(Some(id)), (n + 5) as usize))
            } else {
                None
            },
            None => if closes(s, 3) {
                Some((Command::ApertureBlock(None), 5usize))
            } else {
                None
            },
        }
    } else {
        None
    }
}

/// Parses an aperture block statement.
pub fn ab_statement(s: &[u8]) -> (r: Option<(Command, usize)>)
    ensures
        r == spec_ab_statement(s@),
{
    if !opens_with(s, 'A' as u8, 'B' as u8) {
        return None;
    }
    match aperture_identifier(tail(s, 3)) {
        Some((id, n)) => if closes_at(s, 3 + n) {
            Some((Command::ApertureBlock(Some(id)), n + 5))
        } else {
            None
        },
        None => if closes_at(s, 3) {
            Some((Command::ApertureBlock(None), 5))
        } else {
            None
        },
    }
}

/// `%SRX<columns>Y<rows>I<dx>J<dy>*%` opens a step and repeat, `%SR*%`
/// closes one.
pub open spec fn spec_sr_statement(s: Seq<u8>) -> Option<(Command, usize)> {
    if opens(s, 'S' as u8, 'R' as u8) {
        if closes(s, 3) {
            Some((Command::StepAndRepeat(None), 5usize))
        } else {
            let (x, a) = spec_opt_integer(s, 3, 'X' as u8);
            let (y, b) = spec_opt_integer(s, a, 'Y' as u8);
            let (i, c) = spec_opt_decimal(s, b, 'I' as u8);
            let (j, d) = spec_opt_decimal(s, c, 'J' as u8);
            match (x, y, i, j) {
                (Some(x), Some(y), Some(i), Some(j)) => if closes(s, d) {
                    Some(
                        (
                            Command::StepAndRepeat(
                                Some(StepRepeat { columns: x, rows: y, dx: i, dy: j }),
                            ),
                            (d + 2) as usize,
                        ),
                    )
                } else {
                    None
                },
                _ => None,
            }
        }
    } else {
        None
    }
}

/// Parses a step and repeat statement.
pub fn sr_statement(s: &[u8]) -> (r: Option<(Command, usize)>)
    ensures
        r == spec_sr_statement(s@),
{
    if !opens_with(s, 'S' as u8, 'R' as u8) {
        return None;
    }
    if closes_at(s, 3) {
        return Some((Command::StepAndRepeat(None), 5));
    }
    let (x, a) = opt_integer(s, 3, 'X' as u8);
    let (y, b) = opt_integer(s, a, 'Y' as u8);
    let (i, c) = opt_decimal(s, b, 'I' as u8);
    let (j, d) = opt_decimal(s, c, 'J' as u8);
    match (x, y, i, j) {
        (Some(x), Some(y), Some(i), Some(j)) => if closes_at(s, d) {
            Some(
                (
                    Command::StepAndRepeat(Some(StepRepeat { columns: x, rows: y, dx: i, dy: j })),
                    d + 2,
                ),
            )
        } else {
            None
        },
        _ => None,
    }
}

/// `{,<field>}` at `q`: the text of each field, and where they end.
pub open spec fn spec_fields(s: Seq<u8>, q: int) -> (Seq<Seq<u8>>, int)
    decreases s.len() - q,
{
    if at(s, q, ',' as u8) {
        let n = span(from(s, q + 1), 0, |b: u8| is_field_byte(b));
        if 0 <= n && q + 1 + n <= s.len() {
            let (rest, e) = spec_fields(s, q + 1 + n);
            (seq![from(s, q + 1).subrange(0, n)] + rest, e)
        } else {
            (Seq::empty(), q)
        }
    } else {
        (Seq::empty(), q)
    }
}


/// Parses `{,<field>}` at `p`: the values of an attribute, and where they end.
pub fn attribute_values(s: &[u8], p: usize) -> (r: (Vec<EscapedString>, usize))
    requires
        p <= s@.len(),
    ensures
        (value_texts(r.0@), r.1 as int) == spec_fields(s@, p as int),
        p <= r.1 <= s@.len(),
        forall|k: int| 0 <= k < r.0@.len() ==> #[trigger] r.0@[k] is Unescaped,
{
    let mut values: Vec<EscapedString> = Vec::new();
    let mut q: usize = p;
    assert(value_texts(values@) + spec_fields(s@, q as int).0 =~= spec_fields(s@, p as int).0);
    while byte_is(s, q, ',' as u8)
        invariant
            p <= q <= s@.len(),
            value_texts(values@) + spec_fields(s@, q as int).0 == spec_fields(s@, p as int).0,
            spec_fields(s@, q as int).1 == spec_fields(s@, p as int).1,
            forall|k: int| 0 <= k < values@.len() ==> #[trigger] values@[k] is Unescaped,
        decreases s@.len() - q,
    {
        let (v, n) = field(tail(s, q + 1));
        proof {
            lemma_span_bounds(from(s@, q + 1), 0, |b: u8| is_field_byte(b));
        }
        let ghost before = value_texts(values@);
        let ghost text = v.raw();
        values.push(v);
        proof {
            assert(value_texts(values@) =~= before.push(text));
            assert(before + spec_fields(s@, q as int).0 =~= value_texts(values@) + spec_fields(
                s@,
                q + 1 + n,
            ).0);
        }
        q = q + 1 + n;
    }
    assert(spec_fields(s@, q as int).0 =~= Seq::<Seq<u8>>::empty());
    assert(value_texts(values@) + Seq::<Seq<u8>>::empty() =~= value_texts(values@));
    (values, q)
}

/// `%TF<name>{,<field>}*%`: a file attribute and its values.
pub open spec fn spec_attribute_on_file(s: Seq<u8>) -> Option<(CommandView, int)> {
    if opens(s, 'T' as u8, 'F' as u8) {
        match spec_attribute_name(from(s, 3)) {
            Some((a, n)) => {
                let (vs, e) = spec_fields(s, 3 + n);
                if closes(s, e) {
                    Some((CommandView::AttributeOnFile(a, vs), e + 2))
                } else {
                    None
                }
            },
            None => None,
        }
    } else {
        None
    }
}

/// `%<code><name>{,<field>}*%`: the name, the values and the end.
pub open spec fn spec_named_attribute(s: Seq<u8>, a: u8, b: u8) -> Option<
    (Seq<u8>, Seq<Seq<u8>>, int),
> {
    if opens(s, a, b) {
        match spec_name(from(s, 3)) {
            Some(n) => {
                let (vs, e) = spec_fields(s, 3 + n);
                if closes(s, e) {
                    Some((s.subrange(3, 3 + n), vs, e + 2))
                } else {
                    None
                }
            },
            None => None,
        }
    } else {
        None
    }
}

/// `%TA<name>{,<field>}*%`: an aperture attribute.
pub open spec fn spec_attribute_on_aperture(s: Seq<u8>) -> Option<(CommandView, int)> {
    match spec_named_attribute(s, 'T' as u8, 'A' as u8) {
        Some((nm, vs, e)) => Some((CommandView::AttributeOnAperture(nm, vs), e)),
        None => None,
    }
}

/// `%TO<name>{,<field>}*%`: an object attribute.
pub open spec fn spec_attribute_on_object(s: Seq<u8>) -> Option<(CommandView, int)> {
    match spec_named_attribute(s, 'T' as u8, 'O' as u8) {
        Some((nm, vs, e)) => Some((CommandView::AttributeOnObject(nm, vs), e)),
        None => None,
    }
}

/// `%TD[<name>]*%`: deletes the attribute named, or all.
pub open spec fn spec_attribute_delete(s: Seq<u8>) -> Option<(CommandView, int)> {
    if opens(s, 'T' as u8, 'D' as u8) {
        match spec_name(from(s, 3)) {
            Some(n) => if closes(s, 3 + n) {
                Some((CommandView::AttributeDelete(Some(s.subrange(3, 3 + n))), n + 5))
            } else {
                None
            },
            None => if closes(s, 3) {
                Some((CommandView::AttributeDelete(None), 5))
            } else {
                None
            },
        }
    } else {
        None
    }
}

/// `%AM<name>*<body>%`: a macro template, its name and its body.
pub open spec fn spec_aperture_macro(s: Seq<u8>) -> Option<(CommandView, int)> {
    if opens(s, 'A' as u8, 'M' as u8) {
        match spec_name(from(s, 3)) {
            Some(n) => if at(s, 3 + n, '*' as u8) {
                let q = span(s, 4 + n, |b: u8| b != '%' as u8);
                if q < s.len() {
                    Some(
                        (
                            CommandView::ApertureMacro(s.subrange(3, 3 + n), s.subrange(4 + n, q)),
                            q + 1,
                        ),
                    )
                } else {
                    None
                }
            } else {
                None
            },
            None => None,
        }
    } else {
        None
    }
}

/// Parses `%TF<name>{,<field>}*%`: a file attribute and its values.
pub fn attribute_on_file(s: &[u8]) -> (r: Option<(Command, usize)>)
    ensures
        parsed(r) == spec_attribute_on_file(s@),
        r matches Some((c, e)) ==> {
            &&& opens(s@, 'T' as u8, 'F' as u8)
            &&& c matches Command::AttributeOnFile(a, vs) && spec_name(from(s@, 3)) == Some(
                a.spelling().len() as usize,
            ) && a.spelling() == s@.subrange(3, 3 + a.spelling().len() as int) && spec_fields(
                s@,
                3 + a.spelling().len() as int,
            ) == (value_texts(vs@), e - 2)
            &&& closes(s@, e - 2)
            &&& e <= s@.len()
        },
{
    if !opens_with(s, 'T' as u8, 'F' as u8) {
        return None;
    }
    let (a, n) = match FileAttributeName::parse(tail(s, 3)) {
        Some(v) => v,
        None => return None,
    };
    let (values, e) = attribute_values(s, 3 + n);
    if closes_at(s, e) {
        Some((Command::AttributeOnFile(a, values), e + 2))
    } else {
        None
    }
}

/// `%<code><name>{,<field>}*%`: the name of an attribute, its values, and
/// where the statement ends.
fn named_attribute(s: &[u8], a: u8, b: u8) -> (r: Option<(Vec<u8>, Vec<EscapedString>, usize)>)
    ensures
        match spec_named_attribute(s@, a, b) {
            Some((nm, vs, e)) => r matches Some((x, y, f)) && x@ == nm && value_texts(y@) == vs
                && f == e,
            None => r is None,
        },
        r matches Some((nm, vs, e)) ==> {
            &&& opens(s@, a, b)
            &&& spec_name(from(s@, 3)) == Some(nm@.len() as usize)
            &&& nm@ == s@.subrange(3, 3 + nm@.len() as int)
            &&& spec_fields(s@, 3 + nm@.len() as int) == (value_texts(vs@), e - 2)
            &&& closes(s@, e - 2)
            &&& e <= s@.len()
        },
{
    if !opens_with(s, a, b) {
        return None;
    }
    let n = match name(tail(s, 3)) {
        Some(n) => n,
        None => return None,
    };
    let nm = vstd::slice::slice_to_vec(&s[3..3 + n]);
    assert(nm@ =~= s@.subrange(3, 3 + n));
    let (values, e) = attribute_values(s, 3 + n);
    if closes_at(s, e) {
        Some((nm, values, e + 2))
    } else {
        None
    }
}

/// Parses `%TA<name>{,<field>}*%`: an aperture attribute and its values.
pub fn attribute_on_aperture(s: &[u8]) -> (r: Option<(Command, usize)>)
    ensures
        parsed(r) == spec_attribute_on_aperture(s@),
        r matches Some((c, e)) ==> {
            &&& opens(s@, 'T' as u8, 'A' as u8)
            &&& c matches Command::AttributeOnAperture(nm, vs) && spec_name(from(s@, 3)) == Some(
                nm@.len() as usize,
            ) && nm@ == s@.subrange(3, 3 + nm@.len() as int) && spec_fields(s@, 3 + nm@.len() as int)
                == (value_texts(vs@), e - 2)
            &&& closes(s@, e - 2)
            &&& e <= s@.len()
        },
{
    match named_attribute(s, 'T' as u8, 'A' as u8) {
        Some((nm, values, e)) => Some((Command::AttributeOnAperture(nm, values), e)),
        None => None,
    }
}

/// Parses `%TO<name>{,<field>}*%`: an object attribute and its values.
pub fn attribute_on_object(s: &[u8]) -> (r: Option<(Command, usize)>)
    ensures
        parsed(r) == spec_attribute_on_object(s@),
        r matches Some((c, e)) ==> {
            &&& opens(s@, 'T' as u8, 'O' as u8)
            &&& c matches Command::AttributeOnObject(nm, vs) && spec_name(from(s@, 3)) == Some(
                nm@.len() as usize,
            ) && nm@ == s@.subrange(3, 3 + nm@.len() as int) && spec_fields(s@, 3 + nm@.len() as int)
                == (value_texts(vs@), e - 2)
            &&& closes(s@, e - 2)
            &&& e <= s@.len()
        },
{
    match named_attribute(s, 'T' as u8, 'O' as u8) {
        Some((nm, values, e)) => Some((Command::AttributeOnObject(nm, values), e)),
        None => None,
    }
}

/// `%TD[<name>]*%` stands at the start: it deletes one attribute, or all.
pub open spec fn is_attribute_delete(s: Seq<u8>) -> bool {
    opens(s, 'T' as u8, 'D' as u8) && match spec_name(from(s, 3)) {
        Some(n) => closes(s, 3 + n),
        None => closes(s, 3),
    }
}

/// Parses an attribute deletion, with the name it deletes if any.
pub fn attribute_delete(s: &[u8]) -> (r: Option<(Command, usize)>)
    ensures
        parsed(r) == spec_attribute_delete(s@),
        r is Some <==> is_attribute_delete(s@),
        r matches Some((c, e)) ==> match spec_name(from(s@, 3)) {
            Some(n) => c matches Command::AttributeDelete(Some(nm)) && nm@ == s@.subrange(3, 3 + n)
                && e == n + 5,
            None => c == Command::AttributeDelete(None) && e == 5,
        },
{
    if !opens_with(s, 'T' as u8, 'D' as u8) {
        return None;
    }
    match name(tail(s, 3)) {
        Some(n) => if closes_at(s, 3 + n) {
            let nm = vstd::slice::slice_to_vec(&s[3..3 + n]);
            assert(nm@ =~= s@.subrange(3, 3 + n));
            Some((Command::AttributeDelete(Some(nm)), n + 5))
        } else {
            None
        },
        None => if closes_at(s, 3) {
            Some((Command::AttributeDelete(None), 5))
        } else {
            None
        },
    }
}

/// Parses `%AM<name>*<body>%`: a macro aperture template, kept as its name
/// and the bytes of its body.
pub fn aperture_macro(s: &[u8]) -> (r: Option<(Command, usize)>)
    ensures
        parsed(r) == spec_aperture_macro(s@),
        r matches Some((c, e)) ==> {
            &&& opens(s@, 'A' as u8, 'M' as u8)
            &&& c matches Command::ApertureMacro(nm, body) && {
                &&& spec_name(from(s@, 3)) == Some(nm@.len() as usize)
                &&& nm@ == s@.subrange(3, 3 + nm@.len() as int)
                &&& at(s@, 3 + nm@.len() as int, '*' as u8)
                &&& body@ == s@.subrange(4 + nm@.len() as int, e - 1)
                &&& forall|j: int| 0 <= j < body@.len() ==> body@[j] != '%' as u8
            }
            &&& at(s@, e - 1, '%' as u8)
            &&& e <= s@.len()
        },
{
    if !opens_with(s, 'A' as u8, 'M' as u8) {
        return None;
    }
    let n = match name(tail(s, 3)) {
        Some(n) => n,
        None => return None,
    };
    if !byte_is(s, 3 + n, '*' as u8) {
        return None;
    }
    let start = 4 + n;
    let mut q: usize = start;
    proof {
        lemma_span_bounds(s@, start as int, |b: u8| b != '%' as u8);
    }
    while q < s.len() && s[q] != '%' as u8
        invariant
            start <= q <= s@.len(),
            forall|j: int| start <= j < q ==> s@[j] != '%' as u8,
            span(s@, q as int, |b: u8| b != '%' as u8) == span(s@, start as int, |b: u8| b != '%' as u8),
        decreases s@.len() - q,
    {
        q += 1;
    }
    if q >= s.len() {
        return None;
    }
    let nm = vstd::slice::slice_to_vec(&s[3..3 + n]);
    let body = vstd::slice::slice_to_vec(&s[start..q]);
    assert(nm@ =~= s@.subrange(3, 3 + n));
    assert(body@ =~= s@.subrange(start as int, q as int));
    Some((Command::ApertureMacro(nm, body), q + 1))
}

/// A four-byte word command.
pub open spec fn spec_word_command(s: Seq<u8>, code: Seq<u8>, c: CommandView) -> Option<(CommandView, int)> {
    if word(s, code) {
        Some((c, 4))
    } else {
        None
    }
}

/// `%LR<decimal>*%`: a rotation.
pub open spec fn spec_load_rotation(s: Seq<u8>) -> Option<(CommandView, int)> {
    match spec_decimal_statement(s, 'L' as u8, 'R' as u8) {
        Some((d, n)) => Some((CommandView::LoadRotation(d), n as int)),
        None => None,
    }
}

/// `%LS<decimal>*%`: a scale.
pub open spec fn spec_load_scaling(s: Seq<u8>) -> Option<(CommandView, int)> {
    match spec_decimal_statement(s, 'L' as u8, 'S' as u8) {
        Some((d, n)) => Some((CommandView::LoadScaling(d), n as int)),
        None => None,
    }
}

/// One statement other than the end of file: the productions in their
/// fixed order, the first that matches.
pub open spec fn spec_statement(s: Seq<u8>) -> Option<(CommandView, int)> {
    first_of(parsed(spec_comment(s)), first_of(parsed(spec_mode(s)), first_of(parsed(spec_format_specification(s)), first_of(spec_aperture_define(s), first_of(spec_aperture_macro(s), first_of(parsed(spec_operation(s)), first_of(parsed(spec_set_current_aperture(s)), first_of(spec_word_command(s, seq!['G' as u8, '0' as u8, '1' as u8, '*' as u8], CommandView::SetLinear), first_of(spec_word_command(s, seq!['G' as u8, '0' as u8, '2' as u8, '*' as u8], CommandView::SetCWCircular), first_of(spec_word_command(s, seq!['G' as u8, '0' as u8, '3' as u8, '*' as u8], CommandView::SetCCWCircular), first_of(spec_word_command(s, seq!['G' as u8, '7' as u8, '5' as u8, '*' as u8], CommandView::ArcInit), first_of(parsed(spec_load_polarity(s)), first_of(parsed(spec_load_mirroring(s)), first_of(spec_load_rotation(s), first_of(spec_load_scaling(s), first_of(spec_word_command(s, seq!['G' as u8, '3' as u8, '6' as u8, '*' as u8], CommandView::StartRegion), first_of(spec_word_command(s, seq!['G' as u8, '3' as u8, '7' as u8, '*' as u8], CommandView::EndRegion), first_of(parsed(spec_ab_statement(s)), first_of(parsed(spec_sr_statement(s)), first_of(spec_attribute_on_file(s), first_of(spec_attribute_on_aperture(s), first_of(spec_attribute_on_object(s), spec_attribute_delete(s)))))))))))))))))))))))
}

/// Parses one statement other than the end of file, trying the productions
/// in a fixed order and keeping the first that matches.
pub fn statement(s: &[u8]) -> (r: Option<(Command, usize)>)
    ensures
        r matches Some((c, n)) ==> 0 < n <= s@.len() && !(c is EndOfFile),
        spec_comment(s@) is Some ==> r == spec_comment(s@),
        spec_mode(s@) is Some ==> r == spec_mode(s@),
        spec_format_specification(s@) is Some ==> r == spec_format_specification(s@),
        spec_operation(s@) is Some ==> r == spec_operation(s@),
        parsed(r) == spec_statement(s@),
{
    if s.len() == 0 {
        return None;
    }
    if let Some(c) = comment(s) {
        return Some(c);
    }
    if let Some(c) = mode(s) {
        return Some(c);
    }
    if let Some(c) = format_specification(s) {
        return Some(c);
    }
    if let Some(c) = aperture_define(s) {
        return Some(c);
    }
    if let Some(c) = aperture_macro(s) {
        return Some(c);
    }
    if let Some(c) = operation(s) {
        return Some(c);
    }
    if let Some(c) = set_current_aperture(s) {
        return Some(c);
    }
    if let Some(c) = set_linear(s) {
        return Some(c);
    }
    if let Some(c) = set_cw_circular(s) {
        return Some(c);
    }
    if let Some(c) = set_ccw_circular(s) {
        return Some(c);
    }
    if let Some(c) = arc_init(s) {
        return Some(c);
    }
    if let Some(c) = load_polarity(s) {
        return Some(c);
    }
    if let Some(c) = load_mirroring(s) {
        return Some(c);
    }
    if let Some(c) = load_rotation(s) {
        return Some(c);
    }
    if let Some(c) = load_scaling(s) {
        return Some(c);
    }
    if let Some(c) = start_region(s) {
        return Some(c);
    }
    if let Some(c) = end_region(s) {
        return Some(c);
    }
    if let Some(c) = ab_statement(s) {
        return Some(c);
    }
    if let Some(c) = sr_statement(s) {
        return Some(c);
    }
    if let Some(c) = attribute_on_file(s) {
        return Some(c);
    }
    if let Some(c) = attribute_on_aperture(s) {
        return Some(c);
    }
    if let Some(c) = attribute_on_object(s) {
        return Some(c);
    }
    attribute_delete(s)
}

} // verus!

