//! Writing of components, weighting factors and the energy performance as
//! text.
use vstd::prelude::*;

use crate::balance::WEIGHTED_SCALE;
use crate::decimal::decimal_text;
use crate::decimal::push_decimal;
use crate::engine::MAX_BALANCE;
use crate::performance::reportable;
use crate::performance::Balance;
use crate::rennrenco2::div_floor;
use crate::rennrenco2::RenNrenCo2;
use crate::types::meta_views;
use crate::types::Component;
use crate::types::ComponentView;
use crate::types::Components;
use crate::types::Factor;
use crate::types::FactorView;
use crate::types::Factors;
use crate::types::Meta;
use crate::types::MetaView;

verus! {

/// The line that declares a metadata entry.
pub open spec fn meta_text(m: MetaView) -> Seq<char> {
    "#META "@ + m.key + ": "@ + m.value + "\n"@
}

/// The lines that declare the first `i` metadata entries.
pub open spec fn metas_text(metas: Seq<MetaView>, i: int) -> Seq<char>
    decreases i,
{
    if i <= 0 {
        Seq::empty()
    } else {
        metas_text(metas, i - 1) + meta_text(metas[i - 1])
    }
}

/// The first `i` values of a row, each after a comma and a space.
pub open spec fn values_text(values: Seq<u64>, i: int) -> Seq<char>
    decreases i,
{
    if i <= 0 {
        Seq::empty()
    } else {
        values_text(values, i - 1) + ", "@ + decimal_text(values[i - 1] as int)
    }
}

/// The comment at the end of a row: nothing where there is none.
pub open spec fn comment_text(comment: Seq<char>) -> Seq<char> {
    if comment.len() > 0 {
        " # "@ + comment
    } else {
        Seq::empty()
    }
}

/// The line of a row of components.
pub open spec fn component_text(r: ComponentView) -> Seq<char> {
    r.carrier.spec_name() + ", "@ + r.ctype.spec_name() + ", "@ + r.csubtype.spec_name() + ", "@
        + r.service.spec_name() + values_text(r.values, r.values.len() as int) + comment_text(
        r.comment,
    ) + "\n"@
}

/// The lines of the first `i` rows of components.
pub open spec fn components_rows_text(rows: Seq<ComponentView>, i: int) -> Seq<char>
    decreases i,
{
    if i <= 0 {
        Seq::empty()
    } else {
        components_rows_text(rows, i - 1) + component_text(rows[i - 1])
    }
}

/// The text of a file of components: the metadata, then the rows.
pub open spec fn spec_components_text(metas: Seq<MetaView>, rows: Seq<ComponentView>) -> Seq<
    char,
> {
    metas_text(metas, metas.len() as int) + components_rows_text(rows, rows.len() as int)
}

/// The names at the start of a row of weighting factors.
pub open spec fn factor_names_text(r: FactorView) -> Seq<char> {
    r.carrier.spec_name() + ", "@ + r.source.spec_name() + ", "@ + r.dest.spec_name() + ", "@
        + r.step.spec_name()
}

/// The three parts of a factor, each after a comma and a space.
pub open spec fn parts_text(f: RenNrenCo2) -> Seq<char> {
    ", "@ + decimal_text(f.ren as int) + ", "@ + decimal_text(f.nren as int) + ", "@
        + decimal_text(f.co2 as int)
}

/// The line of a row of weighting factors.
pub open spec fn factor_text(r: FactorView) -> Seq<char> {
    factor_names_text(r) + parts_text(r.factors) + comment_text(r.comment) + "\n"@
}

/// The lines of the first `i` rows of weighting factors.
pub open spec fn factors_rows_text(rows: Seq<FactorView>, i: int) -> Seq<char>
    decreases i,
{
    if i <= 0 {
        Seq::empty()
    } else {
        factors_rows_text(rows, i - 1) + factor_text(rows[i - 1])
    }
}

/// The text of a file of weighting factors: the metadata, then the rows.
pub open spec fn spec_wfactors_text(metas: Seq<MetaView>, rows: Seq<FactorView>) -> Seq<char> {
    metas_text(metas, metas.len() as int) + factors_rows_text(rows, rows.len() as int)
}

/// Appends the lines that declare the metadata entries.
pub fn push_metas(text: &mut String, metas: &Vec<Meta>)
    ensures
        final(text)@ == old(text)@ + metas_text(meta_views(metas@), metas.len() as int),
{
    let ghost start = text@;
    let ghost views = meta_views(metas@);
    let mut i: usize = 0;
    assert(text@ =~= start + metas_text(views, 0));
    while i < metas.len()
        invariant
            i <= metas.len(),
            views == meta_views(metas@),
            text@ == start + metas_text(views, i as int),
        decreases metas.len() - i,
    {
        let ghost before = text@;
        text.append("#META ");
        text.append(metas[i].key.as_str());
        text.append(": ");
        text.append(metas[i].value.as_str());
        text.append("\n");
        proof {
            assert(views[i as int] == metas[i as int]@);
            assert(text@ =~= before + meta_text(views[i as int]));
            assert(text@ =~= start + metas_text(views, i + 1));
        }
        i += 1;
    }
}

/// Appends the comment at the end of a row.
pub fn push_comment(text: &mut String, comment: &String)
    ensures
        final(text)@ == old(text)@ + comment_text(comment@),
{
    let ghost start = text@;
    if comment.as_str().unicode_len() > 0 {
        text.append(" # ");
        text.append(comment.as_str());
        assert(text@ =~= start + comment_text(comment@));
    } else {
        assert(text@ =~= start + comment_text(comment@));
    }
}

/// Appends the line of a row of components.
pub fn push_component(text: &mut String, row: &Component)
    ensures
        final(text)@ == old(text)@ + component_text(row@),
{
    let ghost start = text@;
    text.append(row.carrier.name());
    text.append(", ");
    text.append(row.ctype.name());
    text.append(", ");
    text.append(row.csubtype.name());
    text.append(", ");
    text.append(row.service.name());
    let ghost head = text@;
    let mut i: usize = 0;
    assert(text@ =~= head + values_text(row.values@, 0));
    while i < row.values.len()
        invariant
            i <= row.values.len(),
            text@ == head + values_text(row.values@, i as int),
        decreases row.values.len() - i,
    {
        let ghost before = text@;
        text.append(", ");
        push_decimal(text, row.values[i] as i128);
        assert(text@ =~= head + values_text(row.values@, i + 1));
        i += 1;
    }
    push_comment(text, &row.comment);
    text.append("\n");
    assert(text@ =~= start + component_text(row@));
}

/// The text of a file of components.
pub fn components_to_text(components: &Components) -> (r: String)
    ensures
        r@ == spec_components_text(components.metas(), components.rows()),
{
    let mut text = String::new();
    push_metas(&mut text, &components.cmeta);
    let ghost head = text@;
    let ghost views = components.rows();
    let mut i: usize = 0;
    assert(text@ =~= head + components_rows_text(views, 0));
    while i < components.cdata.len()
        invariant
            i <= components.cdata.len(),
            views == components.rows(),
            text@ == head + components_rows_text(views, i as int),
        decreases components.cdata.len() - i,
    {
        push_component(&mut text, &components.cdata[i]);
        proof {
            assert(views[i as int] == components.cdata[i as int]@);
            assert(text@ =~= head + components_rows_text(views, i + 1));
        }
        i += 1;
    }
    assert(text@ =~= spec_components_text(components.metas(), components.rows()));
    text
}

/// Appends the names at the start of a row of weighting factors.
pub fn push_factor_names(text: &mut String, row: &Factor)
    ensures
        final(text)@ == old(text)@ + factor_names_text(row@),
{
    let ghost start = text@;
    text.append(row.carrier.name());
    text.append(", ");
    text.append(row.source.name());
    text.append(", ");
    text.append(row.dest.name());
    text.append(", ");
    text.append(row.step.name());
    assert(text@ =~= start + factor_names_text(row@));
}

/// Appends the three parts of a factor, each after a comma and a space.
pub fn push_parts(text: &mut String, f: RenNrenCo2)
    ensures
        final(text)@ == old(text)@ + parts_text(f),
{
    let ghost start = text@;
    text.append(", ");
    push_decimal(text, f.ren);
    text.append(", ");
    push_decimal(text, f.nren);
    text.append(", ");
    push_decimal(text, f.co2);
    assert(text@ =~= start + parts_text(f));
}

/// Appends the line of a row of weighting factors.
pub fn push_factor(text: &mut String, row: &Factor)
    ensures
        final(text)@ == old(text)@ + factor_text(row@),
{
    let ghost start = text@;
    push_factor_names(text, row);
    push_parts(text, row.factors());
    push_comment(text, &row.comment);
    text.append("\n");
    assert(text@ =~= start + factor_text(row@));
}

/// The text of a file of weighting factors.
pub fn wfactors_to_text(wfactors: &Factors) -> (r: String)
    ensures
        r@ == spec_wfactors_text(wfactors.metas(), wfactors.rows()),
{
    let mut text = String::new();
    push_metas(&mut text, &wfactors.wmeta);
    let ghost head = text@;
    let ghost views = wfactors.rows();
    let mut i: usize = 0;
    assert(text@ =~= head + factors_rows_text(views, 0));
    while i < wfactors.wdata.len()
        invariant
            i <= wfactors.wdata.len(),
            views == wfactors.rows(),
            text@ == head + factors_rows_text(views, i as int),
        decreases wfactors.wdata.len() - i,
    {
        assert(views[i as int] == wfactors.wdata[i as int]@);
        push_factor(&mut text, &wfactors.wdata[i]);
        proof {
            assert(text@ =~= head + factors_rows_text(views, i + 1));
        }
        i += 1;
    }
    assert(text@ =~= spec_wfactors_text(wfactors.metas(), wfactors.rows()));
    text
}

/// A weighted energy in thousandths of an energy unit, rounded to the
/// nearest thousandth.
pub open spec fn rounded(x: int) -> int {
    (x + WEIGHTED_SCALE / 2) / (WEIGHTED_SCALE as int)
}

/// A weighted energy in thousandths of an energy unit, rounded to the
/// nearest thousandth.
pub fn round_weighted(x: i128) -> (r: i128)
    requires
        -MAX_BALANCE * 1000 <= x <= MAX_BALANCE * 1000,
    ensures
        r == rounded(x as int),
        -MAX_BALANCE * 1000 <= r <= MAX_BALANCE * 1000,
{
    let half: i128 = (WEIGHTED_SCALE / 2) as i128;
    let d: i128 = WEIGHTED_SCALE as i128;
    let r = div_floor(x + half, d);
    proof {
        vstd::arithmetic::div_mod::lemma_fundamental_div_mod(x + half, d as int);
        vstd::arithmetic::div_mod::lemma_mod_bound(x + half, d as int);
        assert(-MAX_BALANCE * 1000 <= r <= MAX_BALANCE * 1000) by (nonlinear_arith)
            requires
                x + half == d * r + (x + half) % (d as int),
                0 <= (x + half) % (d as int) < d,
                d == 1_000_000,
                half == 500_000,
                -MAX_BALANCE * 1000 <= x <= MAX_BALANCE * 1000,
        ;
    }
    r
}

/// The report of an energy performance in plain text: the reference area,
/// the export factor, the weighted energy at step B for each unit of area
/// with its total and its renewable energy ratio, and the emissions.
pub open spec fn spec_plain(b: Balance) -> Seq<char> {
    "Area_ref = "@ + decimal_text(b.arearef as int) + " [m2]\nk_exp = "@ + decimal_text(
        b.k_exp as int,
    ) + "\nC_ep [kWh/m2.an]: ren = "@ + decimal_text(rounded(b.b_m2.ren as int)) + ", nren = "@
        + decimal_text(rounded(b.b_m2.nren as int)) + ", tot = "@ + decimal_text(
        rounded(b.b_m2.ren as int) + rounded(b.b_m2.nren as int),
    ) + ", RER = "@ + decimal_text(b.rer as int) + "\nE_CO2 [kg_CO2e/m2.an]: "@ + decimal_text(
        rounded(b.b_m2.co2 as int),
    ) + "\n"@
}

/// The report of an energy performance in plain text.
pub fn balance_to_plain(b: &Balance) -> (r: String)
    requires
        reportable(*b),
    ensures
        r@ == spec_plain(*b),
{
    let ren = round_weighted(b.b_m2.ren);
    let nren = round_weighted(b.b_m2.nren);
    let co2 = round_weighted(b.b_m2.co2);
    let mut text = String::from_str("Area_ref = ");
    push_decimal(&mut text, b.arearef as i128);
    text.append(" [m2]\nk_exp = ");
    push_decimal(&mut text, b.k_exp as i128);
    text.append("\nC_ep [kWh/m2.an]: ren = ");
    push_decimal(&mut text, ren);
    text.append(", nren = ");
    push_decimal(&mut text, nren);
    text.append(", tot = ");
    push_decimal(&mut text, ren + nren);
    text.append(", RER = ");
    push_decimal(&mut text, b.rer);
    text.append("\nE_CO2 [kg_CO2e/m2.an]: ");
    push_decimal(&mut text, co2);
    text.append("\n");
    assert(text@ =~= spec_plain(*b));
    text
}

/// The report of an energy performance in XML, with the same values as
/// the report in plain text.
pub open spec fn spec_xml(b: Balance) -> Seq<char> {
    "<BalanceEPB>\n  <AreaRef>"@ + decimal_text(b.arearef as int) + "</AreaRef>\n  <kexp>"@
        + decimal_text(b.k_exp as int) + "</kexp>\n  <Epm2>\n    <ren>"@ + decimal_text(
        rounded(b.b_m2.ren as int),
    ) + "</ren>\n    <nren>"@ + decimal_text(rounded(b.b_m2.nren as int))
        + "</nren>\n    <tot>"@ + decimal_text(
        rounded(b.b_m2.ren as int) + rounded(b.b_m2.nren as int),
    ) + "</tot>\n    <co2>"@ + decimal_text(rounded(b.b_m2.co2 as int))
        + "</co2>\n  </Epm2>\n  <RER>"@ + decimal_text(b.rer as int) + "</RER>\n</BalanceEPB>\n"@
}

/// The report of an energy performance in XML.
pub fn balance_to_xml(b: &Balance) -> (r: String)
    requires
        reportable(*b),
    ensures
        r@ == spec_xml(*b),
{
    let ren = round_weighted(b.b_m2.ren);
    let nren = round_weighted(b.b_m2.nren);
    let co2 = round_weighted(b.b_m2.co2);
    let mut text = String::from_str("<BalanceEPB>\n  <AreaRef>");
    push_decimal(&mut text, b.arearef as i128);
    text.append("</AreaRef>\n  <kexp>");
    push_decimal(&mut text, b.k_exp as i128);
    text.append("</kexp>\n  <Epm2>\n    <ren>");
    push_decimal(&mut text, ren);
    text.append("</ren>\n    <nren>");
    push_decimal(&mut text, nren);
    text.append("</nren>\n    <tot>");
    push_decimal(&mut text, ren + nren);
    text.append("</tot>\n    <co2>");
    push_decimal(&mut text, co2);
    text.append("</co2>\n  </Epm2>\n  <RER>");
    push_decimal(&mut text, b.rer);
    text.append("</RER>\n</BalanceEPB>\n");
    assert(text@ =~= spec_xml(*b));
    text
}

} // verus!
