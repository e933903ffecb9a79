//! Reading of the files of components and of weighting factors: lines of
//! metadata, comments, and rows of fields with commas between them.
use vstd::prelude::*;

use crate::decimal::decimal_value;
use crate::decimal::lemma_decimal_bounds;
use crate::decimal::parse_decimal_chars;
use crate::decimal::trim_chars;
use crate::decimal::trimmed;
use crate::error::EpbdError;
use crate::rennrenco2::RenNrenCo2;
use crate::text::fields;
use crate::text::first_at;
use crate::text::lemma_first_at_is;
use crate::text::split_chars;
use crate::text::to_chars;
use crate::text::to_text;
use crate::types::component_views;
use crate::types::factor_views;
use crate::types::meta_views;
use crate::types::CSubtype;
use crate::types::CType;
use crate::types::Carrier;
use crate::types::Component;
use crate::types::ComponentView;
use crate::types::Components;
use crate::types::Dest;
use crate::types::Factor;
use crate::types::FactorView;
use crate::types::Factors;
use crate::types::Meta;
use crate::types::MetaView;
use crate::types::Service;
use crate::types::Source;
use crate::types::Step;

verus! {

/// Whether a line without the white space around it declares metadata: it
/// starts with `#META` and a space.
pub open spec fn is_meta_line(t: Seq<char>) -> bool {
    t.len() >= 6 && t[0] == '#' && t[1] == 'M' && t[2] == 'E' && t[3] == 'T' && t[4] == 'A'
        && t[5] == ' '
}

/// Whether a line without the white space around it is a comment: it
/// starts with `#`.
pub open spec fn is_comment_line(t: Seq<char>) -> bool {
    t.len() > 0 && t[0] == '#'
}

/// The metadata entry that a metadata line declares: the name before the
/// first colon and the text after it, each without the white space around
/// it. A line without a colon declares none.
pub open spec fn meta_of(t: Seq<char>) -> Option<MetaView> {
    let body = t.skip(6);
    let i = first_at(body, ':');
    if 0 <= i < body.len() {
        Some(MetaView { key: trimmed(body.take(i)), value: trimmed(body.skip(i + 1)) })
    } else {
        None
    }
}

/// The part of a row before its comment.
pub open spec fn data_part(t: Seq<char>) -> Seq<char> {
    t.take(first_at(t, '#'))
}

/// The comment of a row: what follows the first `#`, without the white
/// space around it.
pub open spec fn comment_part(t: Seq<char>) -> Seq<char> {
    let i = first_at(t, '#');
    if 0 <= i < t.len() {
        trimmed(t.skip(i + 1))
    } else {
        Seq::empty()
    }
}

/// The values of the fields of a row of components from the fifth to
/// field `i`: a field that is no decimal text is a `ParseError` with the
/// number of the line, a negative value a `RangeError`.
pub open spec fn values_of(f: Seq<Seq<char>>, i: int, no: usize) -> Result<Seq<u64>, EpbdError>
    decreases i,
{
    if i <= 4 {
        Ok(Seq::empty())
    } else {
        match values_of(f, i - 1, no) {
            Err(e) => Err(e),
            Ok(acc) => match decimal_value(f[i - 1]) {
                None => Err(EpbdError::ParseError(no)),
                Some(x) => if x < 0 {
                    Err(EpbdError::RangeError)
                } else {
                    Ok(acc.push(x as u64))
                },
            },
        }
    }
}

/// The component that a row stands for: carrier, role, origin or kind of
/// use, service, and at least one value, with commas between them, and a
/// comment after a `#`.
pub open spec fn component_of(t: Seq<char>, no: usize) -> Result<ComponentView, EpbdError> {
    let f = fields(data_part(t), ',');
    if f.len() < 5 {
        Err(EpbdError::ParseError(no))
    } else {
        match (
            Carrier::spec_named(trimmed(f[0])),
            CType::spec_named(trimmed(f[1])),
            CSubtype::spec_named(trimmed(f[2])),
            Service::spec_named(trimmed(f[3])),
        ) {
            (Some(carrier), Some(ctype), Some(csubtype), Some(service)) => match values_of(
                f,
                f.len() as int,
                no,
            ) {
                Err(e) => Err(e),
                Ok(values) => Ok(
                    ComponentView {
                        carrier,
                        ctype,
                        csubtype,
                        service,
                        values,
                        comment: comment_part(t),
                    },
                ),
            },
            _ => Err(EpbdError::ParseError(no)),
        }
    }
}

/// The weighting factor that a row stands for: carrier, source,
/// destination, step and the three parts of the factor, with commas
/// between them, and a comment after a `#`.
pub open spec fn factor_of(t: Seq<char>, no: usize) -> Result<FactorView, EpbdError> {
    let f = fields(data_part(t), ',');
    if f.len() != 7 {
        Err(EpbdError::ParseError(no))
    } else {
        match (
            Carrier::spec_named(trimmed(f[0])),
            Source::spec_named(trimmed(f[1])),
            Dest::spec_named(trimmed(f[2])),
            Step::spec_named(trimmed(f[3])),
            decimal_value(f[4]),
            decimal_value(f[5]),
            decimal_value(f[6]),
        ) {
            (Some(carrier), Some(source), Some(dest), Some(step), Some(ren), Some(nren), Some(co2)) => Ok(
                FactorView {
                    carrier,
                    source,
                    dest,
                    step,
                    factors: RenNrenCo2 { ren: ren as i128, nren: nren as i128, co2: co2 as i128 },
                    comment: comment_part(t),
                },
            ),
            _ => Err(EpbdError::ParseError(no)),
        }
    }
}

/// What a line adds to the metadata and the rows of a file of components.
/// An empty line or a comment adds nothing. A metadata line without a
/// colon or a malformed row is a `ParseError` with the number of the line;
/// a row with another number of values than the first row is a
/// `ShapeError`.
pub open spec fn component_line(
    metas: Seq<MetaView>,
    rows: Seq<ComponentView>,
    line: Seq<char>,
    no: usize,
) -> Result<(Seq<MetaView>, Seq<ComponentView>), EpbdError> {
    let t = trimmed(line);
    if t.len() == 0 {
        Ok((metas, rows))
    } else if is_meta_line(t) {
        match meta_of(t) {
            Some(m) => Ok((metas.push(m), rows)),
            None => Err(EpbdError::ParseError(no)),
        }
    } else if is_comment_line(t) {
        Ok((metas, rows))
    } else {
        match component_of(t, no) {
            Err(e) => Err(e),
            Ok(row) => if rows.len() > 0 && row.values.len() != rows[0].values.len() {
                Err(EpbdError::ShapeError)
            } else {
                Ok((metas, rows.push(row)))
            },
        }
    }
}

/// What the first `i` lines of a file of components hold: metadata and
/// rows, in their order. Lines are numbered from one.
pub open spec fn components_upto(lines: Seq<Seq<char>>, i: int) -> Result<
    (Seq<MetaView>, Seq<ComponentView>),
    EpbdError,
>
    decreases i,
{
    if i <= 0 {
        Ok((Seq::empty(), Seq::empty()))
    } else {
        match components_upto(lines, i - 1) {
            Err(e) => Err(e),
            Ok((metas, rows)) => component_line(metas, rows, lines[i - 1], i as usize),
        }
    }
}

/// What a file of components holds.
pub open spec fn spec_parse_components(text: Seq<char>) -> Result<
    (Seq<MetaView>, Seq<ComponentView>),
    EpbdError,
> {
    components_upto(fields(text, '\n'), fields(text, '\n').len() as int)
}

/// What a line adds to the metadata and the rows of a file of weighting
/// factors.
pub open spec fn factor_line(
    metas: Seq<MetaView>,
    rows: Seq<FactorView>,
    line: Seq<char>,
    no: usize,
) -> Result<(Seq<MetaView>, Seq<FactorView>), EpbdError> {
    let t = trimmed(line);
    if t.len() == 0 {
        Ok((metas, rows))
    } else if is_meta_line(t) {
        match meta_of(t) {
            Some(m) => Ok((metas.push(m), rows)),
            None => Err(EpbdError::ParseError(no)),
        }
    } else if is_comment_line(t) {
        Ok((metas, rows))
    } else {
        match factor_of(t, no) {
            Err(e) => Err(e),
            Ok(row) => Ok((metas, rows.push(row))),
        }
    }
}

/// What the first `i` lines of a file of weighting factors hold.
pub open spec fn factors_upto(lines: Seq<Seq<char>>, i: int) -> Result<
    (Seq<MetaView>, Seq<FactorView>),
    EpbdError,
>
    decreases i,
{
    if i <= 0 {
        Ok((Seq::empty(), Seq::empty()))
    } else {
        match factors_upto(lines, i - 1) {
            Err(e) => Err(e),
            Ok((metas, rows)) => factor_line(metas, rows, lines[i - 1], i as usize),
        }
    }
}

/// What a file of weighting factors holds.
pub open spec fn spec_parse_wfactors(text: Seq<char>) -> Result<
    (Seq<MetaView>, Seq<FactorView>),
    EpbdError,
> {
    factors_upto(fields(text, '\n'), fields(text, '\n').len() as int)
}

/// The texts of a list of lists of characters.
pub open spec fn fields_view(f: Seq<Vec<char>>) -> Seq<Seq<char>> {
    Seq::new(f.len(), |i: int| f[i]@)
}

/// Whether a line without the white space around it declares metadata.
pub fn starts_meta(t: &Vec<char>) -> (b: bool)
    ensures
        b == is_meta_line(t@),
{
    t.len() >= 6 && t[0] == '#' && t[1] == 'M' && t[2] == 'E' && t[3] == 'T' && t[4] == 'A'
        && t[5] == ' '
}

/// Position of the first occurrence of a character from a position on, or
/// the length of the list where it does not occur from there on.
pub fn find_char(s: &Vec<char>, from: usize, c: char) -> (i: usize)
    requires
        from <= s.len(),
    ensures
        from <= i <= s.len(),
        i - from == first_at(s@.skip(from as int), c),
{
    let mut i: usize = from;
    while i < s.len() && s[i] != c
        invariant
            from <= i <= s.len(),
            forall|j: int| from <= j < i ==> #[trigger] s[j] != c,
        decreases s.len() - i,
    {
        i += 1;
    }
    proof {
        let rest = s@.skip(from as int);
        assert forall|j: int| 0 <= j < i - from implies #[trigger] rest[j] != c by {
            assert(rest[j] == s[from + j]);
        }
        if i < s.len() {
            assert(rest[i - from] == s[i as int]);
        }
        lemma_first_at_is(rest, c, i - from);
    }
    i
}

/// The characters from position `from` up to `to`.
pub fn sub_chars(s: &Vec<char>, from: usize, to: usize) -> (r: Vec<char>)
    requires
        from <= to <= s.len(),
    ensures
        r@ == s@.subrange(from as int, to as int),
{
    let mut r: Vec<char> = Vec::new();
    let mut i: usize = from;
    assert(r@ =~= s@.subrange(from as int, from as int));
    while i < to
        invariant
            from <= i <= to,
            to <= s.len(),
            r@ == s@.subrange(from as int, i as int),
        decreases to - i,
    {
        r.push(s[i]);
        assert(s@.subrange(from as int, i + 1) =~= s@.subrange(from as int, i as int).push(
            s@[i as int],
        ));
        i += 1;
    }
    r
}

/// The text of a list of characters.
pub fn text_of(v: &Vec<char>) -> (r: String)
    ensures
        r@ == v@,
{
    let r = to_text(v, 0, v.len());
    assert(v@.subrange(0, v.len() as int) =~= v@);
    r
}

/// The metadata entry that a metadata line declares.
pub fn parse_meta(t: &Vec<char>) -> (r: Option<Meta>)
    requires
        is_meta_line(t@),
    ensures
        match r {
            Some(m) => meta_of(t@) == Some(m@),
            None => meta_of(t@) is None,
        },
{
    let i = find_char(t, 6, ':');
    if i >= t.len() {
        return None;
    }
    let ghost body = t@.skip(6);
    let key = trim_chars(&sub_chars(t, 6, i));
    let value = trim_chars(&sub_chars(t, i + 1, t.len()));
    proof {
        assert(body.take(i - 6) =~= t@.subrange(6, i as int));
        assert(body.skip(i - 6 + 1) =~= t@.subrange(i + 1, t.len() as int));
    }
    Some(Meta { key: text_of(&key), value: text_of(&value) })
}

/// The fields of a row before its comment, and its comment.
pub fn split_row(t: &Vec<char>) -> (r: (Vec<Vec<char>>, String))
    ensures
        r.0.len() == fields(data_part(t@), ',').len(),
        forall|i: int| 0 <= i < r.0.len() ==> (#[trigger] r.0[i])@ == fields(data_part(t@), ',')[i],
        r.1@ == comment_part(t@),
{
    let i = find_char(t, 0, '#');
    assert(t@.skip(0) =~= t@);
    let data = sub_chars(t, 0, i);
    assert(data@ =~= data_part(t@));
    let comment = if i < t.len() {
        let c = trim_chars(&sub_chars(t, i + 1, t.len()));
        assert(t@.skip(i + 1) =~= t@.subrange(i + 1, t.len() as int));
        text_of(&c)
    } else {
        String::new()
    };
    (split_chars(&data, ','), comment)
}

/// The values of the fields of a row of components from the fifth on.
pub fn parse_values(f: &Vec<Vec<char>>, no: usize) -> (r: Result<Vec<u64>, EpbdError>)
    requires
        f.len() >= 4,
    ensures
        match r {
            Ok(values) => values_of(fields_view(f@), f.len() as int, no) == Ok::<
                Seq<u64>,
                EpbdError,
            >(values@),
            Err(e) => values_of(fields_view(f@), f.len() as int, no) == Err::<Seq<u64>, EpbdError>(
                e,
            ),
        },
{
    let ghost fs = fields_view(f@);
    let mut values: Vec<u64> = Vec::new();
    let mut i: usize = 4;
    while i < f.len()
        invariant
            4 <= i <= f.len(),
            fs == fields_view(f@),
            values_of(fs, i as int, no) == Ok::<Seq<u64>, EpbdError>(values@),
        decreases f.len() - i,
    {
        proof {
            lemma_decimal_bounds(fs[i as int]);
            assert(fs[i as int] == f[i as int]@);
        }
        match parse_decimal_chars(&f[i]) {
            None => {
                proof {
                    lemma_values_error_stays(fs, i + 1, fs.len() as int, no);
                }
                return Err(EpbdError::ParseError(no));
            },
            Some(x) => {
                if x < 0 {
                    proof {
                        lemma_values_error_stays(fs, i + 1, fs.len() as int, no);
                    }
                    return Err(EpbdError::RangeError);
                }
                values.push(x as u64);
            },
        }
        i += 1;
    }
    Ok(values)
}

/// The row of components that a line stands for.
pub fn parse_component(t: &Vec<char>, no: usize) -> (r: Result<Component, EpbdError>)
    ensures
        match r {
            Ok(row) => component_of(t@, no) == Ok::<ComponentView, EpbdError>(row@),
            Err(e) => component_of(t@, no) == Err::<ComponentView, EpbdError>(e),
        },
{
    let (f, comment) = split_row(t);
    let ghost fs = fields(data_part(t@), ',');
    assert(fields_view(f@) =~= fs);
    if f.len() < 5 {
        return Err(EpbdError::ParseError(no));
    }
    let carrier = Carrier::named(&trim_chars(&f[0]));
    let ctype = CType::named(&trim_chars(&f[1]));
    let csubtype = CSubtype::named(&trim_chars(&f[2]));
    let service = Service::named(&trim_chars(&f[3]));
    match (carrier, ctype, csubtype, service) {
        (Some(carrier), Some(ctype), Some(csubtype), Some(service)) => {
            match parse_values(&f, no) {
                Err(e) => Err(e),
                Ok(values) => Ok(
                    Component { carrier, ctype, csubtype, service, values, comment },
                ),
            }
        },
        _ => Err(EpbdError::ParseError(no)),
    }
}

/// An error among the values of the first fields is the error of the
/// values of more fields.
pub proof fn lemma_values_error_stays(f: Seq<Seq<char>>, i: int, j: int, no: usize)
    requires
        i <= j,
        values_of(f, i, no) is Err,
    ensures
        values_of(f, j, no) == values_of(f, i, no),
    decreases j - i,
{
    if j > i {
        lemma_values_error_stays(f, i, j - 1, no);
    }
}

/// The row of weighting factors that a line stands for.
pub fn parse_factor(t: &Vec<char>, no: usize) -> (r: Result<Factor, EpbdError>)
    ensures
        match r {
            Ok(row) => factor_of(t@, no) == Ok::<FactorView, EpbdError>(row@),
            Err(e) => factor_of(t@, no) == Err::<FactorView, EpbdError>(e),
        },
{
    let (f, comment) = split_row(t);
    if f.len() != 7 {
        return Err(EpbdError::ParseError(no));
    }
    let carrier = Carrier::named(&trim_chars(&f[0]));
    let source = Source::named(&trim_chars(&f[1]));
    let dest = Dest::named(&trim_chars(&f[2]));
    let step = Step::named(&trim_chars(&f[3]));
    let ren = parse_decimal_chars(&f[4]);
    let nren = parse_decimal_chars(&f[5]);
    let co2 = parse_decimal_chars(&f[6]);
    match (carrier, source, dest, step, ren, nren, co2) {
        (Some(carrier), Some(source), Some(dest), Some(step), Some(ren), Some(nren), Some(co2)) => {
            Ok(Factor { carrier, source, dest, step, ren, nren, co2, comment })
        },
        _ => Err(EpbdError::ParseError(no)),
    }
}

/// An error in the first lines of a file of components is the error of
/// the file.
pub proof fn lemma_components_error_stays(lines: Seq<Seq<char>>, i: int, j: int)
    requires
        0 <= i <= j,
        components_upto(lines, i) is Err,
    ensures
        components_upto(lines, j) == components_upto(lines, i),
    decreases j - i,
{
    if j > i {
        lemma_components_error_stays(lines, i, j - 1);
    }
}

/// An error in the first lines of a file of weighting factors is the error
/// of the file.
pub proof fn lemma_factors_error_stays(lines: Seq<Seq<char>>, i: int, j: int)
    requires
        0 <= i <= j,
        factors_upto(lines, i) is Err,
    ensures
        factors_upto(lines, j) == factors_upto(lines, i),
    decreases j - i,
{
    if j > i {
        lemma_factors_error_stays(lines, i, j - 1);
    }
}

/// Reads one line of a file of components into the metadata and the rows.
pub fn read_component_line(
    cmeta: &mut Vec<Meta>,
    cdata: &mut Vec<Component>,
    line: &Vec<char>,
    no: usize,
) -> (r: Result<(), EpbdError>)
    ensures
        match r {
            Ok(_) => component_line(
                meta_views(old(cmeta)@),
                component_views(old(cdata)@),
                line@,
                no,
            ) == Ok::<(Seq<MetaView>, Seq<ComponentView>), EpbdError>(
                (meta_views(final(cmeta)@), component_views(final(cdata)@)),
            ),
            Err(e) => component_line(
                meta_views(old(cmeta)@),
                component_views(old(cdata)@),
                line@,
                no,
            ) == Err::<(Seq<MetaView>, Seq<ComponentView>), EpbdError>(e) && meta_views(
                final(cmeta)@,
            ) == meta_views(old(cmeta)@) && component_views(final(cdata)@) == component_views(
                old(cdata)@,
            ),
        },
{
    let t = trim_chars(line);
    let ghost metas = meta_views(cmeta@);
    let ghost rows = component_views(cdata@);
    if t.len() == 0 {
        Ok(())
    } else if starts_meta(&t) {
        match parse_meta(&t) {
            Some(m) => {
                cmeta.push(m);
                assert(meta_views(cmeta@) =~= metas.push(m@));
                Ok(())
            },
            None => Err(EpbdError::ParseError(no)),
        }
    } else if t[0] == '#' {
        Ok(())
    } else {
        match parse_component(&t, no) {
            Err(e) => Err(e),
            Ok(row) => {
                if cdata.len() > 0 {
                    assert(rows[0] == cdata[0]@);
                    if row.values.len() != cdata[0].values.len() {
                        return Err(EpbdError::ShapeError);
                    }
                }
                cdata.push(row);
                assert(component_views(cdata@) =~= rows.push(row@));
                Ok(())
            },
        }
    }
}

/// Reads one line of a file of weighting factors into the metadata and
/// the rows.
pub fn read_factor_line(
    wmeta: &mut Vec<Meta>,
    wdata: &mut Vec<Factor>,
    line: &Vec<char>,
    no: usize,
) -> (r: Result<(), EpbdError>)
    ensures
        match r {
            Ok(_) => factor_line(meta_views(old(wmeta)@), factor_views(old(wdata)@), line@, no)
                == Ok::<(Seq<MetaView>, Seq<FactorView>), EpbdError>(
                (meta_views(final(wmeta)@), factor_views(final(wdata)@)),
            ),
            Err(e) => factor_line(meta_views(old(wmeta)@), factor_views(old(wdata)@), line@, no)
                == Err::<(Seq<MetaView>, Seq<FactorView>), EpbdError>(e) && meta_views(
                final(wmeta)@,
            ) == meta_views(old(wmeta)@) && factor_views(final(wdata)@) == factor_views(
                old(wdata)@,
            ),
        },
{
    let t = trim_chars(line);
    let ghost metas = meta_views(wmeta@);
    let ghost rows = factor_views(wdata@);
    if t.len() == 0 {
        Ok(())
    } else if starts_meta(&t) {
        match parse_meta(&t) {
            Some(m) => {
                wmeta.push(m);
                assert(meta_views(wmeta@) =~= metas.push(m@));
                Ok(())
            },
            None => Err(EpbdError::ParseError(no)),
        }
    } else if t[0] == '#' {
        Ok(())
    } else {
        match parse_factor(&t, no) {
            Err(e) => Err(e),
            Ok(row) => {
                wdata.push(row);
                assert(factor_views(wdata@) =~= rows.push(row@));
                Ok(())
            },
        }
    }
}

/// Reads a file of components: lines that start with `#META` declare
/// metadata as a name, a colon and a text; other lines that start with `#`
/// are comments; every other line that is not empty is a row of carrier,
/// role, origin or kind of use, service and values, with commas between
/// them.
pub fn parse_components(text: &str) -> (r: Result<Components, EpbdError>)
    ensures
        match r {
            Ok(c) => spec_parse_components(text@) == Ok::<
                (Seq<MetaView>, Seq<ComponentView>),
                EpbdError,
            >((c.metas(), c.rows())),
            Err(e) => spec_parse_components(text@) == Err::<
                (Seq<MetaView>, Seq<ComponentView>),
                EpbdError,
            >(e),
        },
{
    let chars = to_chars(text);
    let lines = split_chars(&chars, '\n');
    let ghost ls = fields(text@, '\n');
    let mut cmeta: Vec<Meta> = Vec::new();
    let mut cdata: Vec<Component> = Vec::new();
    let mut i: usize = 0;
    assert(meta_views(cmeta@) =~= Seq::<MetaView>::empty());
    assert(component_views(cdata@) =~= Seq::<ComponentView>::empty());
    while i < lines.len()
        invariant
            i <= lines.len(),
            lines.len() == ls.len(),
            ls == fields(text@, '\n'),
            forall|j: int| 0 <= j < lines.len() ==> (#[trigger] lines[j])@ == ls[j],
            components_upto(ls, i as int) == Ok::<(Seq<MetaView>, Seq<ComponentView>), EpbdError>(
                (meta_views(cmeta@), component_views(cdata@)),
            ),
        decreases lines.len() - i,
    {
        match read_component_line(&mut cmeta, &mut cdata, &lines[i], i + 1) {
            Err(e) => {
                proof {
                    lemma_components_error_stays(ls, i + 1, ls.len() as int);
                }
                return Err(e);
            },
            Ok(_) => {},
        }
        i += 1;
    }
    Ok(Components { cmeta, cdata })
}

/// Reads a file of weighting factors: metadata and comments as in a file
/// of components; every other line that is not empty is a row of carrier,
/// source, destination, step and the three parts of the factor, with
/// commas between them.
pub fn parse_wfactors(text: &str) -> (r: Result<Factors, EpbdError>)
    ensures
        match r {
            Ok(f) => spec_parse_wfactors(text@) == Ok::<(Seq<MetaView>, Seq<FactorView>), EpbdError>(
                (f.metas(), f.rows()),
            ),
            Err(e) => spec_parse_wfactors(text@) == Err::<
                (Seq<MetaView>, Seq<FactorView>),
                EpbdError,
            >(e),
        },
{
    let chars = to_chars(text);
    let lines = split_chars(&chars, '\n');
    let ghost ls = fields(text@, '\n');
    let mut wmeta: Vec<Meta> = Vec::new();
    let mut wdata: Vec<Factor> = Vec::new();
    let mut i: usize = 0;
    assert(meta_views(wmeta@) =~= Seq::<MetaView>::empty());
    assert(factor_views(wdata@) =~= Seq::<FactorView>::empty());
    while i < lines.len()
        invariant
            i <= lines.len(),
            lines.len() == ls.len(),
            ls == fields(text@, '\n'),
            forall|j: int| 0 <= j < lines.len() ==> (#[trigger] lines[j])@ == ls[j],
            factors_upto(ls, i as int) == Ok::<(Seq<MetaView>, Seq<FactorView>), EpbdError>(
                (meta_views(wmeta@), factor_views(wdata@)),
            ),
        decreases lines.len() - i,
    {
        match read_factor_line(&mut wmeta, &mut wdata, &lines[i], i + 1) {
            Err(e) => {
                proof {
                    lemma_factors_error_stays(ls, i + 1, ls.len() as int);
                }
                return Err(e);
            },
            Ok(_) => {},
        }
        i += 1;
    }
    Ok(Factors { wmeta, wdata })
}

} // verus!
