//! Text as sequences of characters.
use vstd::prelude::*;

verus! {

/// The characters of a text.
pub fn to_chars(s: &str) -> (r: Vec<char>)
    ensures
        r@ == s@,
{
    broadcast use vstd::string::axiom_spec_iter;

    let mut r: Vec<char> = Vec::new();
    for c in it: s.chars()
        invariant
            it.seq() == s@,
            r@ == it.seq().take(it.index() as int),
    {
        r.push(c);
        assert(it.seq().take(it.index() + 1) =~= it.seq().take(it.index() as int).push(c));
    }
    assert(s@.take(s@.len() as int) =~= s@);
    r
}

/// `String::push` of the standard library appends one character to the end
/// of the string and leaves the rest as it is.
pub assume_specification[ String::push ](s: &mut String, c: char)
    ensures
        final(s)@ == old(s)@.push(c),
;

/// The text of the characters from position `from` up to `to`.
pub fn to_text(v: &Vec<char>, from: usize, to: usize) -> (r: String)
    requires
        from <= to <= v.len(),
    ensures
        r@ == v@.subrange(from as int, to as int),
{
    let mut r = String::new();
    let mut i: usize = from;
    assert(r@ =~= v@.subrange(from as int, from as int));
    while i < to
        invariant
            from <= i <= to,
            to <= v.len(),
            r@ == v@.subrange(from as int, i as int),
        decreases to - i,
    {
        r.push(v[i]);
        assert(v@.subrange(from as int, i + 1) =~= v@.subrange(from as int, i as int).push(
            v@[i as int],
        ));
        i += 1;
    }
    r
}

/// Whether two lists of characters are the same.
pub fn same_chars(a: &Vec<char>, b: &Vec<char>) -> (r: bool)
    ensures
        r == (a@ == b@),
{
    if a.len() != b.len() {
        return false;
    }
    let mut i: usize = 0;
    while i < a.len()
        invariant
            i <= a.len(),
            a.len() == b.len(),
            forall|j: int| 0 <= j < i ==> a[j] == b[j],
        decreases a.len() - i,
    {
        if a[i] != b[i] {
            return false;
        }
        i += 1;
    }
    assert(a@ =~= b@);
    true
}

/// Whether two texts are the same.
pub fn same_text(a: &str, b: &str) -> (r: bool)
    ensures
        r == (a@ == b@),
{
    let x = to_chars(a);
    let y = to_chars(b);
    same_chars(&x, &y)
}

/// Position of the first occurrence of a character in a text, or the
/// length of the text where it does not occur.
pub open spec fn first_at(s: Seq<char>, c: char) -> int
    decreases s.len(),
{
    if s.len() == 0 || s[0] == c {
        0
    } else {
        1 + first_at(s.drop_first(), c)
    }
}

/// The fields of a text: the parts between the occurrences of the
/// separator. A text without the separator is one field.
pub open spec fn fields(s: Seq<char>, sep: char) -> Seq<Seq<char>>
    decreases s.len(),
{
    let i = first_at(s, sep);
    if 0 <= i < s.len() {
        seq![s.take(i)] + fields(s.skip(i + 1), sep)
    } else {
        seq![s]
    }
}

/// The first occurrence is within the text, no character before it is the
/// character, and the character at it is.
pub proof fn lemma_first_at(s: Seq<char>, c: char)
    ensures
        0 <= first_at(s, c) <= s.len(),
        forall|i: int| 0 <= i < first_at(s, c) ==> #[trigger] s[i] != c,
        first_at(s, c) < s.len() ==> s[first_at(s, c)] == c,
    decreases s.len(),
{
    if s.len() > 0 && s[0] != c {
        lemma_first_at(s.drop_first(), c);
        assert forall|i: int| 0 <= i < first_at(s, c) implies #[trigger] s[i] != c by {
            if i > 0 {
                assert(s.drop_first()[i - 1] == s[i]);
            }
        }
    }
}

/// The first occurrence of a character, from a position before which it
/// does not occur and at which it does, or which is the end.
pub proof fn lemma_first_at_is(s: Seq<char>, c: char, k: int)
    requires
        0 <= k <= s.len(),
        forall|i: int| 0 <= i < k ==> #[trigger] s[i] != c,
        k < s.len() ==> s[k] == c,
    ensures
        first_at(s, c) == k,
    decreases k,
{
    if k > 0 {
        assert forall|i: int| 0 <= i < k - 1 implies #[trigger] s.drop_first()[i] != c by {
            assert(s.drop_first()[i] == s[i + 1]);
        }
        lemma_first_at_is(s.drop_first(), c, k - 1);
    }
}

/// The parts of a list of characters between the occurrences of a
/// separator.
pub fn split_chars(s: &Vec<char>, sep: char) -> (r: Vec<Vec<char>>)
    ensures
        r.len() == fields(s@, sep).len(),
        r.len() >= 1,
        forall|i: int| 0 <= i < r.len() ==> (#[trigger] r[i])@ == fields(s@, sep)[i],
{
    let mut r: Vec<Vec<char>> = Vec::new();
    let mut cur: Vec<char> = Vec::new();
    let mut start: usize = 0;
    let mut i: usize = 0;
    let ghost mut done: Seq<Seq<char>> = Seq::empty();
    assert(s@.skip(0) =~= s@);
    while i < s.len()
        invariant
            start <= i <= s.len(),
            r.len() == done.len(),
            forall|j: int| 0 <= j < r.len() ==> (#[trigger] r[j])@ == done[j],
            fields(s@, sep) == done + fields(s@.skip(start as int), sep),
            cur@ == s@.subrange(start as int, i as int),
            forall|j: int| start <= j < i ==> #[trigger] s[j] != sep,
        decreases s.len() - i,
    {
        if s[i] == sep {
            proof {
                let rest = s@.skip(start as int);
                assert forall|j: int| 0 <= j < i - start implies #[trigger] rest[j] != sep by {
                    assert(rest[j] == s[start + j]);
                }
                lemma_first_at_is(rest, sep, i - start);
                assert(rest.take(i - start) =~= s@.subrange(start as int, i as int));
                assert(rest.skip(i - start + 1) =~= s@.skip(i + 1));
                assert(done + (seq![rest.take(i - start)] + fields(s@.skip(i + 1), sep))
                    =~= done.push(cur@) + fields(s@.skip(i + 1), sep));
                done = done.push(cur@);
            }
            r.push(cur);
            cur = Vec::new();
            start = i + 1;
            assert(cur@ =~= s@.subrange(start as int, start as int));
        } else {
            cur.push(s[i]);
            assert(cur@ =~= s@.subrange(start as int, i + 1));
        }
        i += 1;
    }
    proof {
        let rest = s@.skip(start as int);
        assert forall|j: int| 0 <= j < rest.len() implies #[trigger] rest[j] != sep by {
            assert(rest[j] == s[start + j]);
        }
        lemma_first_at_is(rest, sep, rest.len() as int);
        assert(rest =~= cur@);
        assert(fields(s@, sep) =~= done.push(cur@));
    }
    r.push(cur);
    r
}

} // verus!
