//! Character-level string helpers shared by the option parsers and
//! error messages.

use vstd::prelude::*;
use vstd::string::*;
use vstd::relations::{sorted_by, total_ordering};

verus! {

/// Appends one character to a string.
#[verifier::external_body]
pub(crate) fn push_char(s: &mut String, c: char)
    ensures
        final(s)@ == old(s)@.push(c),
{
    s.push(c);
}

/// The characters of a string slice, in order.
pub fn text_chars(s: &str) -> (chars: Vec<char>)
    ensures
        chars@ == s@,
{
    let n = s.unicode_len();
    let mut chars: Vec<char> = Vec::new();
    let mut i: usize = 0;
    while i < n
        invariant
            n == s@.len(),
            i <= n,
            chars@ == s@.take(i as int),
        decreases n - i,
    {
        let c = s.get_char(i);
        chars.push(c);
        i = i + 1;
        assert(chars@ =~= s@.take(i as int));
    }
    assert(chars@ =~= s@);
    chars
}

/// Whether two strings hold the same characters.
pub fn text_eq(a: &str, b: &str) -> (equal: bool)
    ensures
        equal == (a@ == b@),
{
    let x = text_chars(a);
    let y = text_chars(b);
    if x.len() != y.len() {
        return false;
    }
    let mut i: usize = 0;
    while i < x.len()
        invariant
            x@ == a@,
            y@ == b@,
            x.len() == y.len(),
            i <= x.len(),
            forall|k: int| 0 <= k < i ==> x@[k] == y@[k],
        decreases x.len() - i,
    {
        if x[i] != y[i] {
            return false;
        }
        i = i + 1;
    }
    assert(x@ =~= y@);
    true
}


/// What Rust's `{:?}` formatting writes for a string: the text in double
/// quotes with its escapes.
pub uninterp spec fn debug_text(s: Seq<char>) -> Seq<char>;

/// Debug-quotes a string (`format!("{s:?}")`). Its contract names the
/// result `debug_text` of the characters and says nothing more of it.
#[verifier::external_body]
pub(crate) fn debug_quoted(s: &str) -> (quoted: String)
    ensures
        quoted@ == debug_text(s@),
{
    format!("{s:?}")
}

/// A string holding the characters of `s`.
pub fn owned_text(s: &str) -> (owned: String)
    ensures
        owned@ == s@,
{
    String::from_str(s)
}

/// The concatenation of two strings.
pub fn concat2(a: &str, b: &str) -> (joined: String)
    ensures
        joined@ == a@ + b@,
{
    let mut out = String::from_str(a);
    out.append(b);
    out
}

/// The concatenation of three strings.
pub fn concat3(a: &str, b: &str, c: &str) -> (joined: String)
    ensures
        joined@ == a@ + b@ + c@,
{
    let mut out = String::from_str(a);
    out.append(b);
    out.append(c);
    out
}

/// Whether a sequence contains the character `c`.
pub open spec fn has_char(s: Seq<char>, c: char) -> bool {
    exists|i: int| 0 <= i < s.len() && s[i] == c
}

/// The decimal digits of a natural number, most significant first.
pub open spec fn decimal_digits(n: nat) -> Seq<char>
    decreases n,
{
    if n < 10 {
        seq![digit_char(n)]
    } else {
        decimal_digits(n / 10).push(digit_char(n % 10))
    }
}

/// The ASCII digit for a value below ten.
pub open spec fn digit_char(d: nat) -> char {
    if d == 0 { '0' }
    else if d == 1 { '1' }
    else if d == 2 { '2' }
    else if d == 3 { '3' }
    else if d == 4 { '4' }
    else if d == 5 { '5' }
    else if d == 6 { '6' }
    else if d == 7 { '7' }
    else if d == 8 { '8' }
    else { '9' }
}

fn digit(d: u64) -> (c: char)
    requires
        d < 10,
    ensures
        c == digit_char(d as nat),
{
    if d == 0 { '0' }
    else if d == 1 { '1' }
    else if d == 2 { '2' }
    else if d == 3 { '3' }
    else if d == 4 { '4' }
    else if d == 5 { '5' }
    else if d == 6 { '6' }
    else if d == 7 { '7' }
    else if d == 8 { '8' }
    else { '9' }
}

/// The decimal text of an unsigned integer, as `to_string` writes it.
pub fn decimal_text(n: u64) -> (text: String)
    ensures
        text@ == decimal_digits(n as nat),
    decreases n,
{
    if n < 10 {
        let mut out = String::new();
        push_char(&mut out, digit(n));
        assert(out@ =~= seq![digit_char(n as nat)]);
        out
    } else {
        let mut out = decimal_text(n / 10);
        push_char(&mut out, digit(n % 10));
        out
    }
}


/// The characters of each string.
pub open spec fn texts(strings: Seq<String>) -> Seq<Seq<char>> {
    strings.map_values(|s: String| s@)
}

/// The characters of an optional string.
pub open spec fn opt_text(s: Option<String>) -> Option<Seq<char>> {
    match s {
        Some(s) => Some(s@),
        None => None,
    }
}

/// Lexicographic order of character sequences, by code point: the order
/// in which `String`'s `Ord` sorts.
pub open spec fn text_le(a: Seq<char>, b: Seq<char>) -> bool
    decreases a.len(),
{
    if a.len() == 0 {
        true
    } else if b.len() == 0 {
        false
    } else if a[0] != b[0] {
        a[0] < b[0]
    } else {
        text_le(a.drop_first(), b.drop_first())
    }
}

/// `text_le` as a relation.
pub open spec fn text_order() -> spec_fn(Seq<char>, Seq<char>) -> bool {
    |a: Seq<char>, b: Seq<char>| text_le(a, b)
}

pub proof fn lemma_text_le_reflexive(a: Seq<char>)
    ensures
        text_le(a, a),
    decreases a.len(),
{
    if a.len() > 0 {
        lemma_text_le_reflexive(a.drop_first());
    }
}

pub proof fn lemma_text_le_antisymmetric(a: Seq<char>, b: Seq<char>)
    requires
        text_le(a, b),
        text_le(b, a),
    ensures
        a == b,
    decreases a.len(),
{
    if a.len() > 0 && b.len() > 0 {
        lemma_text_le_antisymmetric(a.drop_first(), b.drop_first());
        assert(a =~= seq![a[0]] + a.drop_first());
        assert(b =~= seq![b[0]] + b.drop_first());
    } else {
        assert(a =~= b);
    }
}

pub proof fn lemma_text_le_transitive(a: Seq<char>, b: Seq<char>, c: Seq<char>)
    requires
        text_le(a, b),
        text_le(b, c),
    ensures
        text_le(a, c),
    decreases a.len(),
{
    if a.len() > 0 && b.len() > 0 && c.len() > 0 {
        if a[0] == b[0] && b[0] == c[0] {
            lemma_text_le_transitive(a.drop_first(), b.drop_first(), c.drop_first());
        }
    }
}

pub proof fn lemma_text_le_total(a: Seq<char>, b: Seq<char>)
    ensures
        text_le(a, b) || text_le(b, a),
    decreases a.len(),
{
    if a.len() > 0 && b.len() > 0 && a[0] == b[0] {
        lemma_text_le_total(a.drop_first(), b.drop_first());
    }
}

/// `text_le` is a total order.
pub proof fn lemma_text_order_total()
    ensures
        total_ordering(text_order()),
{
    assert forall|x: Seq<char>| #[trigger] text_order()(x, x) by {
        lemma_text_le_reflexive(x);
    }
    assert forall|x: Seq<char>, y: Seq<char>| #[trigger] text_order()(x, y) && #[trigger] text_order()(y, x) implies x == y by {
        lemma_text_le_antisymmetric(x, y);
    }
    assert forall|x: Seq<char>, y: Seq<char>, z: Seq<char>| #[trigger] text_order()(x, y) && #[trigger] text_order()(y, z) implies text_order()(x, z) by {
        lemma_text_le_transitive(x, y, z);
    }
    assert forall|x: Seq<char>, y: Seq<char>| #[trigger] text_order()(x, y) || #[trigger] text_order()(y, x) by {
        lemma_text_le_total(x, y);
    }
}

/// Whether `a` sorts before or equal to `b`.
pub fn text_le_exec(a: &str, b: &str) -> (le: bool)
    ensures
        le == text_le(a@, b@),
{
    let x = text_chars(a);
    let y = text_chars(b);
    let mut i: usize = 0;
    assert(a@.skip(0) =~= a@);
    assert(b@.skip(0) =~= b@);
    while i < x.len() && i < y.len() && x[i] == y[i]
        invariant
            x@ == a@,
            y@ == b@,
            i <= x.len(),
            i <= y.len(),
            text_le(a@, b@) == text_le(a@.skip(i as int), b@.skip(i as int)),
        decreases x.len() - i,
    {
        proof {
            assert(a@.skip(i as int).drop_first() =~= a@.skip(i as int + 1));
            assert(b@.skip(i as int).drop_first() =~= b@.skip(i as int + 1));
        }
        i = i + 1;
    }
    if i == x.len() {
        true
    } else if i == y.len() {
        false
    } else {
        x[i] < y[i]
    }
}

/// The strings in `text_le` order.
pub fn sort_texts(items: Vec<String>) -> (sorted: Vec<String>)
    ensures
        texts(sorted@) == texts(items@).sort_by(text_order()),
{
    let mut out: Vec<String> = Vec::new();
    let mut i: usize = 0;
    assert(texts(out@) =~= seq![]);
    assert(texts(items@).take(0) =~= seq![]);
    while i < items.len()
        invariant
            i <= items.len(),
            sorted_by(texts(out@), text_order()),
            texts(out@).to_multiset() == texts(items@).take(i as int).to_multiset(),
        decreases items.len() - i,
    {
        let item = items[i].clone();
        let mut k: usize = 0;
        while k < out.len() && text_le_exec(out[k].as_str(), item.as_str())
            invariant
                k <= out.len(),
                i < items.len(),
                item@ == items@[i as int]@,
                forall|m: int| 0 <= m < k ==> text_le(#[trigger] texts(out@)[m], item@),
            decreases out.len() - k,
        {
            k = k + 1;
        }
        let ghost before = texts(out@);
        proof {
            lemma_text_order_total();
            if k < out.len() {
                assert(!text_le(before[k as int], item@));
                lemma_text_le_total(before[k as int], item@);
            }
        }
        out.insert(k, item);
        proof {
            lemma_text_order_total();
            let after = texts(out@);
            assert(after =~= before.insert(k as int, items@[i as int]@));
            vstd::seq_lib::to_multiset_insert(before, k as int, items@[i as int]@);
            assert(texts(items@).take(i as int + 1) =~= texts(items@).take(i as int).push(items@[i as int]@));
            vstd::seq_lib::to_multiset_build(texts(items@).take(i as int), items@[i as int]@);
            assert forall|p: int, q: int| 0 <= p < q < after.len() implies #[trigger] text_order()(after[p], after[q]) by {
                let x = items@[i as int]@;
                if q < k {
                } else if q == k {
                    assert(text_le(before[p], x));
                } else if p == k {
                    // x < before[k] <= before[q - 1]
                    if k < q - 1 {
                        assert(text_order()(before[k as int], before[q - 1]));
                    } else {
                        lemma_text_le_reflexive(before[k as int]);
                    }
                    lemma_text_le_total(before[k as int], x);
                    lemma_text_le_transitive(x, before[k as int], before[q - 1]);
                } else if p < k {
                    assert(text_order()(before[p], before[q - 1]));
                } else {
                    assert(text_order()(before[p - 1], before[q - 1]));
                }
            }
        }
        i = i + 1;
    }
    proof {
        assert(texts(items@).take(items.len() as int) =~= texts(items@));
        lemma_text_order_total();
        texts(items@).lemma_sort_by_ensures(text_order());
        vstd::seq_lib::lemma_sorted_unique(texts(out@), texts(items@).sort_by(text_order()), text_order());
    }
    out
}

} // verus!
