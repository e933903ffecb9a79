//! Metadata store: named texts beside the components and beside the
//! weighting factors, kept in the order in which they were added.
use vstd::prelude::*;

use crate::decimal::decimal_value;
use crate::decimal::parse_decimal_chars;
use crate::decimal::push_decimal;
use crate::decimal::decimal_text;
use crate::rennrenco2::RenNrenCo2;
use crate::text::fields;
use crate::text::same_chars;
use crate::text::split_chars;
use crate::text::to_chars;
use crate::types::meta_views;
use crate::types::Components;
use crate::types::Factors;
use crate::types::Meta;
use crate::types::MetaView;

verus! {

/// Position of the first entry with a name, if there is one.
pub open spec fn find_meta(metas: Seq<MetaView>, key: Seq<char>) -> Option<int>
    decreases metas.len(),
{
    if metas.len() == 0 {
        None
    } else {
        match find_meta(metas.drop_last(), key) {
            Some(i) => Some(i),
            None => if metas.last().key == key {
                Some(metas.len() - 1)
            } else {
                None
            },
        }
    }
}

/// The text of the first entry with a name, if there is one.
pub open spec fn meta_value(metas: Seq<MetaView>, key: Seq<char>) -> Option<Seq<char>> {
    match find_meta(metas, key) {
        Some(i) => Some(metas[i].value),
        None => None,
    }
}

/// The store with the text of a name set: the first entry with the name
/// gets the text, or, where there is none, an entry is added at the end.
pub open spec fn with_meta(metas: Seq<MetaView>, key: Seq<char>, value: Seq<char>) -> Seq<
    MetaView,
> {
    match find_meta(metas, key) {
        Some(i) => metas.update(i, MetaView { key, value }),
        None => metas.push(MetaView { key, value }),
    }
}

/// The entry that is found is the first with the name.
pub proof fn lemma_find_meta(metas: Seq<MetaView>, key: Seq<char>)
    ensures
        match find_meta(metas, key) {
            Some(i) => 0 <= i < metas.len() && metas[i].key == key && forall|j: int|
                0 <= j < i ==> (#[trigger] metas[j]).key != key,
            None => forall|j: int| 0 <= j < metas.len() ==> (#[trigger] metas[j]).key != key,
        },
    decreases metas.len(),
{
    if metas.len() > 0 {
        let head = metas.drop_last();
        lemma_find_meta(head, key);
        match find_meta(head, key) {
            Some(i) => {
                assert(head[i] == metas[i]);
                assert forall|j: int| 0 <= j < i implies (#[trigger] metas[j]).key != key by {
                    assert(head[j] == metas[j]);
                }
            },
            None => {
                assert forall|j: int| 0 <= j < metas.len() - 1 implies (#[trigger] metas[j]).key
                    != key by {
                    assert(head[j] == metas[j]);
                }
            },
        }
    }
}

/// After the text of a name is set, it is the text of the name, and the
/// text of any other name is what it was.
pub proof fn lemma_with_meta(
    metas: Seq<MetaView>,
    key: Seq<char>,
    value: Seq<char>,
    other: Seq<char>,
)
    ensures
        meta_value(with_meta(metas, key, value), key) == Some(value),
        other != key ==> meta_value(with_meta(metas, key, value), other) == meta_value(
            metas,
            other,
        ),
{
    let out = with_meta(metas, key, value);
    lemma_find_meta(metas, key);
    lemma_find_meta(out, key);
    lemma_find_meta(metas, other);
    lemma_find_meta(out, other);
    let n = metas.len() as int;
    assert forall|j: int| 0 <= j < n && find_meta(metas, key) != Some(j) implies out[j]
        == metas[j] by {}
    match find_meta(metas, key) {
        Some(i) => {
            assert(out[i] == MetaView { key, value });
            match find_meta(out, key) {
                Some(j) => {
                    if j < i {
                        assert(out[j] == metas[j]);
                    }
                },
                None => {
                    assert(out[i].key == key);
                },
            }
        },
        None => {
            assert(out[n] == MetaView { key, value });
            match find_meta(out, key) {
                Some(j) => {
                    if j < n {
                        assert(out[j] == metas[j]);
                    }
                },
                None => {
                    assert(out[n].key == key);
                },
            }
        },
    }
    if other != key {
        match (find_meta(metas, other), find_meta(out, other)) {
            (Some(a), Some(b)) => {
                assert(out[a] == metas[a]);
                if b < n && find_meta(metas, key) != Some(b) {
                    assert(out[b] == metas[b]);
                }
            },
            (Some(a), None) => {
                assert(out[a] == metas[a]);
            },
            (None, Some(b)) => {
                if b < n && find_meta(metas, key) != Some(b) {
                    assert(out[b] == metas[b]);
                }
            },
            (None, None) => {},
        }
    }
}

/// One more entry: the lookup among the first `n + 1` entries, from that
/// among the first `n`.
pub proof fn lemma_find_meta_step(metas: Seq<MetaView>, key: Seq<char>, n: int)
    requires
        0 <= n < metas.len(),
    ensures
        find_meta(metas.take(n + 1), key) == match find_meta(metas.take(n), key) {
            Some(i) => Some(i),
            None => if metas[n].key == key {
                Some(n)
            } else {
                None
            },
        },
{
    assert(metas.take(n + 1).drop_last() =~= metas.take(n));
}

/// An entry found among the first entries is found among more.
pub proof fn lemma_find_meta_rest(metas: Seq<MetaView>, key: Seq<char>, i: int, n: int)
    requires
        0 <= i < n <= metas.len(),
        find_meta(metas.take(i + 1), key) == Some(i),
    ensures
        find_meta(metas.take(n), key) == Some(i),
    decreases n - i,
{
    if n > i + 1 {
        lemma_find_meta_rest(metas, key, i, n - 1);
        lemma_find_meta_step(metas, key, n - 1);
    }
}

/// Position of the first entry with a name, if there is one.
pub fn meta_position(metas: &Vec<Meta>, key: &str) -> (r: Option<usize>)
    ensures
        match r {
            Some(i) => find_meta(meta_views(metas@), key@) == Some(i as int) && i < metas.len(),
            None => find_meta(meta_views(metas@), key@) is None,
        },
{
    let ghost views = meta_views(metas@);
    let k = to_chars(key);
    let mut i: usize = 0;
    while i < metas.len()
        invariant
            i <= metas.len(),
            views == meta_views(metas@),
            k@ == key@,
            find_meta(views.take(i as int), key@) is None,
        decreases metas.len() - i,
    {
        proof {
            lemma_find_meta_step(views, key@, i as int);
            assert(views[i as int] == metas[i as int]@);
        }
        let name = to_chars(metas[i].key.as_str());
        if same_chars(&name, &k) {
            proof {
                lemma_find_meta_rest(views, key@, i as int, metas.len() as int);
                assert(views.take(metas.len() as int) =~= views);
            }
            return Some(i);
        }
        i += 1;
    }
    assert(views.take(metas.len() as int) =~= views);
    None
}

/// The text of the first entry with a name, if there is one.
pub fn meta_get(metas: &Vec<Meta>, key: &str) -> (r: Option<String>)
    ensures
        match r {
            Some(v) => meta_value(meta_views(metas@), key@) == Some(v@),
            None => meta_value(meta_views(metas@), key@) is None,
        },
{
    match meta_position(metas, key) {
        Some(i) => {
            assert(meta_views(metas@)[i as int] == metas[i as int]@);
            Some(metas[i].value.clone())
        },
        None => None,
    }
}

/// Sets the text of a name: that of the first entry with the name, or of a
/// new entry at the end.
pub fn meta_update(metas: &mut Vec<Meta>, key: &str, value: &str)
    ensures
        meta_views(final(metas)@) == with_meta(meta_views(old(metas)@), key@, value@),
{
    let ghost before = meta_views(metas@);
    let entry = Meta { key: String::from_str(key), value: String::from_str(value) };
    match meta_position(metas, key) {
        Some(i) => {
            metas.set(i, entry);
            assert(meta_views(metas@) =~= before.update(
                i as int,
                MetaView { key: key@, value: value@ },
            ));
        },
        None => {
            metas.push(entry);
            assert(meta_views(metas@) =~= before.push(MetaView { key: key@, value: value@ }));
        },
    }
}

/// The number in thousandths that the text of a name stands for, if there
/// is an entry with the name and its text is a decimal text.
pub open spec fn meta_number(metas: Seq<MetaView>, key: Seq<char>) -> Option<int> {
    match meta_value(metas, key) {
        Some(v) => decimal_value(v),
        None => None,
    }
}

/// The weighting triple that a text stands for, if it is three decimal
/// texts with commas between them.
pub open spec fn triple_value(s: Seq<char>) -> Option<RenNrenCo2> {
    let f = fields(s, ',');
    if f.len() == 3 && decimal_value(f[0]) is Some && decimal_value(f[1]) is Some && decimal_value(
        f[2],
    ) is Some {
        Some(
            RenNrenCo2 {
                ren: decimal_value(f[0]).unwrap() as i128,
                nren: decimal_value(f[1]).unwrap() as i128,
                co2: decimal_value(f[2]).unwrap() as i128,
            },
        )
    } else {
        None
    }
}

/// The weighting triple that a text stands for, if it is three decimal
/// texts with commas between them.
pub fn parse_triple(s: &str) -> (r: Option<RenNrenCo2>)
    ensures
        r == triple_value(s@),
{
    let v = to_chars(s);
    let f = split_chars(&v, ',');
    if f.len() != 3 {
        return None;
    }
    let ren = parse_decimal_chars(&f[0]);
    let nren = parse_decimal_chars(&f[1]);
    let co2 = parse_decimal_chars(&f[2]);
    match (ren, nren, co2) {
        (Some(a), Some(b), Some(c)) => Some(RenNrenCo2 { ren: a, nren: b, co2: c }),
        _ => None,
    }
}

/// The text of a weighting triple in a metadata entry: its three parts
/// with three decimals each, with a comma and a space between them.
pub open spec fn triple_text(f: RenNrenCo2) -> Seq<char> {
    decimal_text(f.ren as int) + ", "@ + decimal_text(f.nren as int) + ", "@ + decimal_text(
        f.co2 as int,
    )
}

/// The text of a weighting triple in a metadata entry.
pub fn format_triple(f: RenNrenCo2) -> (r: String)
    ensures
        r@ == triple_text(f),
{
    let mut r = String::new();
    push_decimal(&mut r, f.ren);
    r.append(", ");
    push_decimal(&mut r, f.nren);
    r.append(", ");
    push_decimal(&mut r, f.co2);
    assert(r@ =~= triple_text(f));
    r
}

impl Components {
    /// Whether there is an entry with the name.
    pub fn has_meta(&self, key: &str) -> (b: bool)
        ensures
            b == (find_meta(self.metas(), key@) is Some),
    {
        meta_position(&self.cmeta, key).is_some()
    }

    /// The text of the first entry with the name.
    pub fn get_meta(&self, key: &str) -> (r: Option<String>)
        ensures
            match r {
                Some(v) => meta_value(self.metas(), key@) == Some(v@),
                None => meta_value(self.metas(), key@) is None,
            },
    {
        meta_get(&self.cmeta, key)
    }

    /// The number in thousandths of the first entry with the name, if its
    /// text is a decimal text.
    pub fn get_meta_number(&self, key: &str) -> (r: Option<i128>)
        ensures
            match r {
                Some(x) => meta_number(self.metas(), key@) == Some(x as int),
                None => meta_number(self.metas(), key@) is None,
            },
    {
        match meta_get(&self.cmeta, key) {
            Some(v) => {
                let chars = to_chars(v.as_str());
                parse_decimal_chars(&chars)
            },
            None => None,
        }
    }

    /// The weighting triple of the first entry with the name, if its text
    /// is three decimal texts with commas between them.
    pub fn get_meta_rennren(&self, key: &str) -> (r: Option<RenNrenCo2>)
        ensures
            r == match meta_value(self.metas(), key@) {
                Some(v) => triple_value(v),
                None => None,
            },
    {
        match meta_get(&self.cmeta, key) {
            Some(v) => parse_triple(v.as_str()),
            None => None,
        }
    }

    /// Sets the text of a name; the rows stay as they are.
    pub fn update_meta(&mut self, key: &str, value: &str)
        ensures
            final(self).metas() == with_meta(old(self).metas(), key@, value@),
            final(self).rows() == old(self).rows(),
    {
        meta_update(&mut self.cmeta, key, value);
    }
}

impl Factors {
    /// Whether there is an entry with the name.
    pub fn has_meta(&self, key: &str) -> (b: bool)
        ensures
            b == (find_meta(self.metas(), key@) is Some),
    {
        meta_position(&self.wmeta, key).is_some()
    }

    /// The text of the first entry with the name.
    pub fn get_meta(&self, key: &str) -> (r: Option<String>)
        ensures
            match r {
                Some(v) => meta_value(self.metas(), key@) == Some(v@),
                None => meta_value(self.metas(), key@) is None,
            },
    {
        meta_get(&self.wmeta, key)
    }

    /// Sets the text of a name; the rows stay as they are.
    pub fn update_meta(&mut self, key: &str, value: &str)
        ensures
            final(self).metas() == with_meta(old(self).metas(), key@, value@),
            final(self).rows() == old(self).rows(),
    {
        meta_update(&mut self.wmeta, key, value);
    }
}

} // verus!
