//! Small verified helpers over character sequences.
//!
//! Strings are modelled by their view, a `Seq<char>`. The functions here give
//! the rest of the crate character-level access, equality on string slices and
//! the few sequence facts that the contracts elsewhere rely on.

use vstd::prelude::*;
use vstd::string::*;

verus! {

/// `p` is the position of the first occurrence of `c` in `s`.
pub open spec fn is_first<A>(s: Seq<A>, c: A, p: int) -> bool {
    &&& 0 <= p < s.len()
    &&& s[p] == c
    &&& forall|i: int| 0 <= i < p ==> s[i] != c
}

/// The position of the first occurrence of `c` in `s`, if it occurs at all.
pub open spec fn first_position<A>(s: Seq<A>, c: A) -> Option<int> {
    if s.contains(c) {
        Some(choose|p: int| is_first(s, c, p))
    } else {
        None
    }
}

/// A first occurrence is the only one that `first_position` can name.
pub proof fn lemma_first_position<A>(s: Seq<A>, c: A, p: int)
    requires
        is_first(s, c, p),
    ensures
        first_position(s, c) == Some(p),
{
    assert(s.contains(c));
    let q = choose|q: int| is_first(s, c, q);
    assert(is_first(s, c, q));
    if q < p {
        assert(s[q] != c);
    } else if p < q {
        assert(s[p] != c);
    }
}

/// Where `c` does not occur there is no first position, and conversely.
pub proof fn lemma_first_position_none<A>(s: Seq<A>, c: A)
    ensures
        first_position(s, c) is None <==> forall|i: int| 0 <= i < s.len() ==> s[i] != c,
{
    if s.contains(c) {
        let i = choose|i: int| 0 <= i < s.len() && s[i] == c;
        assert(s[i] == c);
    }
}

/// Where `c` occurs, `first_position` names its first occurrence.
pub proof fn lemma_first_position_some<A>(s: Seq<A>, c: A)
    requires
        first_position(s, c) is Some,
    ensures
        is_first(s, c, first_position(s, c).unwrap()),
{
    let i = choose|i: int| 0 <= i < s.len() && s[i] == c;
    lemma_has_first(s, c, i);
}

/// An occurrence of `c` at `i` implies a first occurrence at or before `i`.
pub proof fn lemma_has_first<A>(s: Seq<A>, c: A, i: int)
    requires
        0 <= i < s.len(),
        s[i] == c,
    ensures
        exists|p: int| is_first(s, c, p) && p <= i,
    decreases i,
{
    if forall|k: int| 0 <= k < i ==> s[k] != c {
        assert(is_first(s, c, i));
    } else {
        let k = choose|k: int| 0 <= k < i && s[k] == c;
        lemma_has_first(s, c, k);
        let p = choose|p: int| is_first(s, c, p) && p <= k;
        assert(is_first(s, c, p) && p <= i);
    }
}

/// The characters of `s`, in order.
pub fn chars_of(s: &str) -> (v: Vec<char>)
    ensures
        v@ == s@,
{
    let mut v: Vec<char> = Vec::new();
    for c in it: s.chars()
        invariant
            v@ == it.seq().take(it.index() as int),
    {
        v.push(c);
    }
    v
}

/// The string made of the characters, in order.
///
/// Trusted: the body collects the characters with the standard library's
/// `FromIterator<&char>` for `String`, which builds the string by pushing each
/// character in turn.
#[verifier::external_body]
pub(crate) fn string_of(chars: &Vec<char>) -> (s: String)
    ensures
        s@ == chars@,
{
    chars.iter().collect()
}

/// Finds the first occurrence of `c` among `chars`.
pub fn find_char(chars: &Vec<char>, c: char) -> (r: Option<usize>)
    ensures
        match r {
            Some(p) => is_first(chars@, c, p as int) && first_position(chars@, c) == Some(p as int),
            None => first_position(chars@, c) is None,
        },
{
    let mut i: usize = 0;
    while i < chars.len()
        invariant
            i <= chars.len(),
            forall|k: int| 0 <= k < i ==> chars@[k] != c,
        decreases chars.len() - i,
    {
        if chars[i] == c {
            proof {
                lemma_first_position(chars@, c, i as int);
            }
            return Some(i);
        }
        i += 1;
    }
    proof {
        lemma_first_position_none(chars@, c);
    }
    None
}

/// Whether two character vectors hold the same characters.
pub fn chars_eq(a: &Vec<char>, b: &Vec<char>) -> (r: bool)
    ensures
        r == (a@ == b@),
{
    if a.len() != b.len() {
        return false;
    }
    let mut i: usize = 0;
    while i < a.len()
        invariant
            a.len() == b.len(),
            i <= a.len(),
            forall|k: int| 0 <= k < i ==> a@[k] == b@[k],
        decreases a.len() - i,
    {
        if a[i] != b[i] {
            return false;
        }
        i += 1;
    }
    assert(a@ =~= b@);
    true
}

/// Whether two string slices hold the same text.
pub fn str_eq(a: &str, b: &str) -> (r: bool)
    ensures
        r == (a@ == b@),
{
    let ca = chars_of(a);
    let cb = chars_of(b);
    chars_eq(&ca, &cb)
}

/// The texts of a sequence of strings.
pub open spec fn texts(items: Seq<String>) -> Seq<Seq<char>> {
    items.map_values(|s: String| s@)
}

/// The text of an optional string.
pub open spec fn optional_text(item: Option<String>) -> Option<Seq<char>> {
    match item {
        Some(s) => Some(s@),
        None => None,
    }
}

/// The parts in order, with the separator between each two neighbours.
pub open spec fn joined(parts: Seq<Seq<char>>, separator: Seq<char>) -> Seq<char>
    decreases parts.len(),
{
    if parts.len() == 0 {
        Seq::empty()
    } else if parts.len() == 1 {
        parts[0]
    } else {
        joined(parts.drop_last(), separator) + separator + parts.last()
    }
}

/// The parts in order, one after the other.
pub open spec fn concatenated(parts: Seq<Seq<char>>) -> Seq<char>
    decreases parts.len(),
{
    if parts.len() == 0 {
        Seq::empty()
    } else {
        concatenated(parts.drop_last()) + parts.last()
    }
}

/// Concatenation splits at any point of the sequence of parts.
pub proof fn lemma_concatenated_split(parts: Seq<Seq<char>>, at: int)
    requires
        0 <= at <= parts.len(),
    ensures
        concatenated(parts) == concatenated(parts.take(at)) + concatenated(parts.skip(at)),
    decreases parts.len() - at,
{
    if at == parts.len() {
        assert(parts.take(at) =~= parts);
        assert(parts.skip(at) =~= Seq::<Seq<char>>::empty());
        assert(concatenated(parts) =~= concatenated(parts) + Seq::<char>::empty());
    } else {
        lemma_concatenated_split(parts.drop_last(), at);
        assert(parts.drop_last().take(at) =~= parts.take(at));
        assert(parts.drop_last().skip(at) =~= parts.skip(at).drop_last());
        assert(parts.skip(at).last() == parts.last());
        assert(concatenated(parts) =~= concatenated(parts.take(at)) + concatenated(parts.skip(at)));
    }
}

/// Concatenation is what stands before a part, the part, and what stands
/// behind it.
pub proof fn lemma_concatenated_at(parts: Seq<Seq<char>>, i: int)
    requires
        0 <= i < parts.len(),
    ensures
        concatenated(parts) == concatenated(parts.take(i)) + parts[i] + concatenated(
            parts.skip(i + 1),
        ),
{
    lemma_concatenated_split(parts, i + 1);
    lemma_concatenated_next(parts, i);
}

/// In a concatenation an earlier part stands before a later one: the whole is
/// some text, the earlier part, some text, the later part, and some text.
pub proof fn lemma_concatenated_order(parts: Seq<Seq<char>>, i: int, j: int) -> (texts: (
    Seq<char>,
    Seq<char>,
    Seq<char>,
))
    requires
        0 <= i < j < parts.len(),
    ensures
        concatenated(parts) == texts.0 + parts[i] + texts.1 + parts[j] + texts.2,
{
    let rest = parts.skip(i + 1);
    lemma_concatenated_at(parts, i);
    lemma_concatenated_at(rest, j - i - 1);
    let before = concatenated(parts.take(i));
    let between = concatenated(rest.take(j - i - 1));
    let after = concatenated(rest.skip(j - i));
    assert(rest[j - i - 1] == parts[j]);
    assert(before + parts[i] + (between + parts[j] + after) =~= before + parts[i] + between
        + parts[j] + after);
    (before, between, after)
}

/// Joins the strings with the separator between each two neighbours.
pub fn join(items: &Vec<String>, separator: &str) -> (r: String)
    ensures
        r@ == joined(texts(items@), separator@),
{
    let mut out = String::new();
    let mut i: usize = 0;
    while i < items.len()
        invariant
            i <= items.len(),
            out@ == joined(texts(items@).take(i as int), separator@),
        decreases items.len() - i,
    {
        let ghost before = texts(items@).take(i as int);
        let ghost after = texts(items@).take(i + 1);
        assert(after.drop_last() =~= before);
        assert(after.last() == items@[i as int]@);
        if i > 0 {
            out.append(separator);
        }
        out.append(items[i].as_str());
        assert(out@ =~= joined(after, separator@));
        i += 1;
    }
    assert(texts(items@).take(i as int) =~= texts(items@));
    out
}

/// Appending in two steps is appending the two pieces put together.
pub proof fn lemma_append_append(a: Seq<char>, b: Seq<char>, c: Seq<char>)
    ensures
        a + b + c == a + (b + c),
{
    assert(a + b + c =~= a + (b + c));
}

/// Concatenation of a prefix grows by the next part.
pub proof fn lemma_concatenated_next(parts: Seq<Seq<char>>, i: int)
    requires
        0 <= i < parts.len(),
    ensures
        concatenated(parts.take(i + 1)) == concatenated(parts.take(i)) + parts[i],
{
    assert(parts.take(i + 1).drop_last() =~= parts.take(i));
    assert(parts.take(i + 1).last() == parts[i]);
}

/// One line of output: a keyword, its value and a line feed.
pub open spec fn line(keyword: Seq<char>, value: Seq<char>) -> Seq<char> {
    keyword + value + "\n"@
}

/// A line that is written only where there is a value.
pub open spec fn optional_line(keyword: Seq<char>, value: Option<Seq<char>>) -> Seq<char> {
    match value {
        Some(v) => line(keyword, v),
        None => Seq::empty(),
    }
}

/// Appends one line of output.
pub fn append_line(out: &mut String, keyword: &str, value: &str)
    ensures
        final(out)@ == old(out)@ + line(keyword@, value@),
{
    out.append(keyword);
    out.append(value);
    out.append("\n");
    assert(out@ =~= old(out)@ + line(keyword@, value@));
}

/// Appends one line of output where there is a value, and nothing otherwise.
pub fn append_optional_line(out: &mut String, keyword: &str, value: &Option<String>)
    ensures
        final(out)@ == old(out)@ + optional_line(keyword@, optional_text(*value)),
{
    match value {
        Some(v) => append_line(out, keyword, v.as_str()),
        None => {
            assert(out@ =~= old(out)@ + Seq::<char>::empty());
        },
    }
}

/// The decimal digit `d` as text.
pub open spec fn digit_text(d: nat) -> Seq<char> {
    if d == 0 {
        "0"@
    } else if d == 1 {
        "1"@
    } else if d == 2 {
        "2"@
    } else if d == 3 {
        "3"@
    } else if d == 4 {
        "4"@
    } else if d == 5 {
        "5"@
    } else if d == 6 {
        "6"@
    } else if d == 7 {
        "7"@
    } else if d == 8 {
        "8"@
    } else {
        "9"@
    }
}

/// The number in decimal notation, without leading zeros.
pub open spec fn decimal_text(n: nat) -> Seq<char>
    decreases n,
{
    if n < 10 {
        digit_text(n)
    } else {
        decimal_text(n / 10) + digit_text(n % 10)
    }
}

/// The decimal digit `d` as a string slice.
fn digit_str(d: usize) -> (r: &'static str)
    requires
        d < 10,
    ensures
        r@ == digit_text(d as nat),
{
    if d == 0 {
        "0"
    } else if d == 1 {
        "1"
    } else if d == 2 {
        "2"
    } else if d == 3 {
        "3"
    } else if d == 4 {
        "4"
    } else if d == 5 {
        "5"
    } else if d == 6 {
        "6"
    } else if d == 7 {
        "7"
    } else if d == 8 {
        "8"
    } else {
        "9"
    }
}

/// Writes the number in decimal notation.
pub fn decimal_string(n: usize) -> (r: String)
    ensures
        r@ == decimal_text(n as nat),
    decreases n,
{
    if n < 10 {
        String::from_str(digit_str(n))
    } else {
        let mut out = decimal_string(n / 10);
        out.append(digit_str(n % 10));
        out
    }
}

/// A copy of a vector of strings.
pub fn clone_strings(items: &Vec<String>) -> (copy: Vec<String>)
    ensures
        texts(copy@) == texts(items@),
        copy@.len() == items@.len(),
{
    let mut copy: Vec<String> = Vec::new();
    let mut i: usize = 0;
    while i < items.len()
        invariant
            i <= items.len(),
            copy@.len() == i,
            texts(copy@) == texts(items@).take(i as int),
        decreases items.len() - i,
    {
        copy.push(items[i].clone());
        assert(texts(copy@) =~= texts(items@).take(i + 1));
        i += 1;
    }
    assert(texts(items@).take(i as int) =~= texts(items@));
    copy
}

} // verus!
