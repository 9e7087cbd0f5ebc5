//! Text helpers shared by the library: decimal rendering, ASCII-aware
//! lower-casing and plain comparisons on character sequences.

use vstd::prelude::*;

verus! {

/// The character of a decimal digit.
pub open spec fn digit_char(d: nat) -> char {
    ((48 + d) as u32) as char
}

/// The decimal rendering of a natural number, most significant digit first.
pub open spec fn decimal_digits(n: nat) -> Seq<char>
    decreases n,
{
    if n < 10 {
        seq![digit_char(n)]
    } else {
        decimal_digits(n / 10) + seq![digit_char(n % 10)]
    }
}

fn digit_text(d: u64) -> (s: &'static str)
    requires
        d < 10,
    ensures
        s@ == seq![digit_char(d as nat)],
{
    proof {
        reveal_strlit("0");
        reveal_strlit("1");
        reveal_strlit("2");
        reveal_strlit("3");
        reveal_strlit("4");
        reveal_strlit("5");
        reveal_strlit("6");
        reveal_strlit("7");
        reveal_strlit("8");
        reveal_strlit("9");
    }
    if d == 0 {
        "0"
    } else if d == 1 {
        "1"
    } else if d == 2 {
        "2"
    } else if d == 3 {
        "3"
    } else if d == 4 {
        "4"
    } else if d == 5 {
        "5"
    } else if d == 6 {
        "6"
    } else if d == 7 {
        "7"
    } else if d == 8 {
        "8"
    } else {
        "9"
    }
}

/// Renders `n` in decimal, as `n.to_string()` does.
pub fn decimal_string(n: u64) -> (s: String)
    ensures
        s@ == decimal_digits(n as nat),
    decreases n,
{
    if n < 10 {
        digit_text(n).to_owned()
    } else {
        let mut s = decimal_string(n / 10);
        s.append(digit_text(n % 10));
        s
    }
}


/// `c` is an ASCII character.
pub open spec fn is_ascii_char(c: char) -> bool {
    (c as u32) < 128
}

/// ASCII lower-casing of one character: `A`..`Z` become `a`..`z`.
pub open spec fn ascii_lower_char(c: char) -> char {
    if 'A' <= c && c <= 'Z' {
        ((c as u32) + 32) as char
    } else {
        c
    }
}

/// ASCII lower-casing of a character sequence.
pub open spec fn ascii_lower(s: Seq<char>) -> Seq<char> {
    Seq::new(s.len(), |i: int| ascii_lower_char(s[i]))
}

/// Every character of `s` is ASCII.
pub open spec fn all_ascii(s: Seq<char>) -> bool {
    forall|i: int| 0 <= i < s.len() ==> is_ascii_char(#[trigger] s[i])
}

/// What `str::to_lowercase` returns for a text.
pub uninterp spec fn unicode_lowercase(s: Seq<char>) -> Seq<char>;

/// Calls `str::to_lowercase` of std. The contract names its result
/// `unicode_lowercase`, a function of the text alone, and states the part
/// that std's documentation makes plain: on an all-ASCII text the result
/// is the ASCII lower-casing (`A`..`Z` mapped to `a`..`z`, everything else
/// kept). What it does to other Unicode characters is left unsaid.
#[verifier::external_body]
pub(crate) fn to_lowercase(s: &str) -> (res: String)
    ensures
        res@ == unicode_lowercase(s@),
        all_ascii(s@) ==> res@ == ascii_lower(s@),
{
    s.to_lowercase()
}

/// Compares two texts character by character.
pub fn same_text(a: &str, b: &str) -> (r: bool)
    ensures
        r == (a@ == b@),
{
    let x: String = a.to_owned();
    let y: String = b.to_owned();
    x == y
}

/// `s` holds the character `c`.
pub fn has_char(s: &str, c: char) -> (r: bool)
    ensures
        r == s@.contains(c),
{
    let n = s.unicode_len();
    let mut i: usize = 0;
    while i < n
        invariant
            n == s@.len(),
            i <= n,
            forall|j: int| 0 <= j < i ==> s@[j] != c,
        decreases n - i,
    {
        if s.get_char(i) == c {
            assert(s@[i as int] == c);
            return true;
        }
        i = i + 1;
    }
    false
}

/// `p` occurs in `s` at position `at`.
pub open spec fn occurs_at(s: Seq<char>, p: Seq<char>, at: int) -> bool {
    0 <= at && at + p.len() <= s.len() && s.subrange(at, at + p.len()) == p
}

/// `p` occurs somewhere in `s`.
pub open spec fn contains_text(s: Seq<char>, p: Seq<char>) -> bool {
    exists|at: int| occurs_at(s, p, at)
}

fn matches_at(s: &str, n: usize, p: &str, m: usize, at: usize) -> (r: bool)
    requires
        n == s@.len(),
        m == p@.len(),
        at + m <= n,
    ensures
        r == (s@.subrange(at as int, at + m) == p@),
{
    let mut k: usize = 0;
    while k < m
        invariant
            n == s@.len(),
            m == p@.len(),
            at + m <= n,
            k <= m,
            forall|j: int| 0 <= j < k ==> s@[at + j] == p@[j],
        decreases m - k,
    {
        if s.get_char(at + k) != p.get_char(k) {
            assert(s@.subrange(at as int, at + m)[k as int] != p@[k as int]);
            return false;
        }
        k = k + 1;
    }
    assert(s@.subrange(at as int, at + m) =~= p@);
    true
}

/// `s` begins with `p`.
pub fn starts_with_text(s: &str, p: &str) -> (r: bool)
    ensures
        r == (p@.len() <= s@.len() && s@.subrange(0, p@.len() as int) == p@),
{
    let n = s.unicode_len();
    let m = p.unicode_len();
    if m > n {
        return false;
    }
    matches_at(s, n, p, m, 0)
}

/// `s` ends with `p`.
pub fn ends_with_text(s: &str, p: &str) -> (r: bool)
    ensures
        r == (p@.len() <= s@.len() && s@.subrange(s@.len() - p@.len(), s@.len() as int) == p@),
{
    let n = s.unicode_len();
    let m = p.unicode_len();
    if m > n {
        return false;
    }
    matches_at(s, n, p, m, n - m)
}

/// `p` occurs somewhere in `s`.
pub fn contains_substring(s: &str, p: &str) -> (r: bool)
    ensures
        r == contains_text(s@, p@),
{
    let n = s.unicode_len();
    let m = p.unicode_len();
    if m > n {
        assert forall|at: int| !occurs_at(s@, p@, at) by {}
        return false;
    }
    let mut at: usize = 0;
    loop
        invariant
            n == s@.len(),
            m == p@.len(),
            m <= n,
            at <= n - m,
            forall|j: int| 0 <= j < at ==> !occurs_at(s@, p@, j),
        ensures
            forall|j: int| 0 <= j <= n - m ==> !occurs_at(s@, p@, j),
        decreases n - m - at,
    {
        if matches_at(s, n, p, m, at) {
            assert(occurs_at(s@, p@, at as int));
            return true;
        }
        if at == n - m {
            break;
        }
        at = at + 1;
    }
    assert forall|j: int| !occurs_at(s@, p@, j) by {}
    false
}


/// Lexicographic order on texts by character code, the order `String`
/// comparison gives (UTF-8 byte order agrees with code point order).
pub open spec fn text_le(a: Seq<char>, b: Seq<char>) -> bool
    decreases a.len(),
{
    if a.len() == 0 {
        true
    } else if b.len() == 0 {
        false
    } else if a[0] != b[0] {
        (a[0] as int) < (b[0] as int)
    } else {
        text_le(a.drop_first(), b.drop_first())
    }
}

/// Every text is ordered before or equal to itself.
pub proof fn lemma_text_le_reflexive(a: Seq<char>)
    ensures
        text_le(a, a),
    decreases a.len(),
{
    if a.len() > 0 {
        lemma_text_le_reflexive(a.drop_first());
    }
}

/// Any two texts are ordered one way or the other.
pub proof fn lemma_text_le_total(a: Seq<char>, b: Seq<char>)
    ensures
        text_le(a, b) || text_le(b, a),
    decreases a.len(),
{
    if a.len() > 0 && b.len() > 0 {
        if a[0] == b[0] {
            lemma_text_le_total(a.drop_first(), b.drop_first());
        } else {
            assert((a[0] as int) != (b[0] as int));
        }
    }
}

/// Texts ordered both ways are equal.
pub proof fn lemma_text_le_antisymmetric(a: Seq<char>, b: Seq<char>)
    requires
        text_le(a, b),
        text_le(b, a),
    ensures
        a == b,
    decreases a.len(),
{
    if a.len() > 0 && b.len() > 0 {
        if a[0] == b[0] {
            lemma_text_le_antisymmetric(a.drop_first(), b.drop_first());
            assert(a =~= seq![a[0]] + a.drop_first());
            assert(b =~= seq![b[0]] + b.drop_first());
        } else {
            assert((a[0] as int) != (b[0] as int));
        }
    }
}

/// The text order is transitive.
pub proof fn lemma_text_le_transitive(a: Seq<char>, b: Seq<char>, c: Seq<char>)
    requires
        text_le(a, b),
        text_le(b, c),
    ensures
        text_le(a, c),
    decreases a.len(),
{
    if a.len() > 0 && b.len() > 0 && c.len() > 0 {
        if a[0] == b[0] && b[0] == c[0] {
            lemma_text_le_transitive(a.drop_first(), b.drop_first(), c.drop_first());
        } else if a[0] != b[0] && b[0] != c[0] && a[0] == c[0] {
            assert((a[0] as int) < (b[0] as int));
            assert((b[0] as int) < (c[0] as int));
            assert(false);
        }
    }
}

/// `a` comes no later than `b` in text order.
pub fn text_less_eq(a: &str, b: &str) -> (r: bool)
    ensures
        r == text_le(a@, b@),
{
    let n = a.unicode_len();
    let m = b.unicode_len();
    let mut i: usize = 0;
    assert(a@.skip(0) =~= a@);
    assert(b@.skip(0) =~= b@);
    while i < n && i < m
        invariant
            n == a@.len(),
            m == b@.len(),
            i <= n,
            i <= m,
            text_le(a@, b@) == text_le(a@.skip(i as int), b@.skip(i as int)),
        decreases n - i,
    {
        let x = a.get_char(i);
        let y = b.get_char(i);
        assert(a@.skip(i as int)[0] == x);
        assert(b@.skip(i as int)[0] == y);
        if x != y {
            return (x as u32) < (y as u32);
        }
        assert(a@.skip(i as int).drop_first() =~= a@.skip(i + 1));
        assert(b@.skip(i as int).drop_first() =~= b@.skip(i + 1));
        i = i + 1;
    }
    i == n
}

/// The texts held by a sequence of strings.
pub open spec fn text_views(v: Seq<String>) -> Seq<Seq<char>> {
    Seq::new(v.len(), |i: int| v[i]@)
}

/// The texts are in text order.
pub open spec fn texts_sorted(s: Seq<Seq<char>>) -> bool {
    forall|i: int, j: int| 0 <= i < j < s.len() ==> text_le(#[trigger] s[i], #[trigger] s[j])
}

/// The texts of `s` in text order: the one sequence in text order that
/// holds the same texts as `s`, as often (see `lemma_sorted_unique`).
pub open spec fn sorted_texts_of(s: Seq<Seq<char>>) -> Seq<Seq<char>> {
    choose|r: Seq<Seq<char>>| texts_sorted(r) && r.to_multiset() == s.to_multiset()
}

/// Two sequences in text order that hold the same texts, as often, are
/// the same sequence.
pub proof fn lemma_sorted_unique(a: Seq<Seq<char>>, b: Seq<Seq<char>>)
    requires
        texts_sorted(a),
        texts_sorted(b),
        a.to_multiset() == b.to_multiset(),
    ensures
        a == b,
    decreases a.len(),
{
    vstd::seq_lib::to_multiset_len(a);
    vstd::seq_lib::to_multiset_len(b);
    if a.len() == 0 {
        assert(a =~= b);
    } else {
        vstd::seq_lib::to_multiset_contains(a, a[0]);
        vstd::seq_lib::to_multiset_contains(b, a[0]);
        vstd::seq_lib::to_multiset_contains(a, b[0]);
        vstd::seq_lib::to_multiset_contains(b, b[0]);
        assert(a.contains(a[0]));
        assert(b.contains(b[0]));
        let j = choose|j: int| 0 <= j < b.len() && b[j] == a[0];
        let i = choose|i: int| 0 <= i < a.len() && a[i] == b[0];
        lemma_text_le_reflexive(a[0]);
        lemma_text_le_reflexive(b[0]);
        if j > 0 {
            assert(text_le(b[0], b[j]));
        }
        if i > 0 {
            assert(text_le(a[0], a[i]));
        }
        lemma_text_le_antisymmetric(a[0], b[0]);
        vstd::seq_lib::to_multiset_remove(a, 0);
        vstd::seq_lib::to_multiset_remove(b, 0);
        let a1 = a.remove(0);
        let b1 = b.remove(0);
        assert(texts_sorted(a1)) by {
            assert forall|x: int, y: int| 0 <= x < y < a1.len() implies text_le(#[trigger] a1[x], #[trigger] a1[y]) by {
                assert(a1[x] == a[x + 1] && a1[y] == a[y + 1]);
            }
        }
        assert(texts_sorted(b1)) by {
            assert forall|x: int, y: int| 0 <= x < y < b1.len() implies text_le(#[trigger] b1[x], #[trigger] b1[y]) by {
                assert(b1[x] == b[x + 1] && b1[y] == b[y + 1]);
            }
        }
        lemma_sorted_unique(a1, b1);
        assert forall|k: int| 0 <= k < a.len() implies a[k] == b[k] by {
            if k > 0 {
                assert(a[k] == a1[k - 1] && b[k] == b1[k - 1]);
            }
        }
        assert(a =~= b);
    }
}

/// Returns the texts of `v` in text order, as sorting a vector of strings
/// does.
pub fn sort_texts(v: &Vec<String>) -> (r: Vec<String>)
    ensures
        text_views(r@) == sorted_texts_of(text_views(v@)),
        texts_sorted(text_views(r@)),
        text_views(r@).to_multiset() == text_views(v@).to_multiset(),
{
    let ghost vs = text_views(v@);
    let mut out: Vec<String> = Vec::new();
    let mut i: usize = 0;
    assert(text_views(out@) =~= Seq::<Seq<char>>::empty());
    assert(vs.take(0) =~= Seq::<Seq<char>>::empty());
    while i < v.len()
        invariant
            vs == text_views(v@),
            i <= v@.len(),
            texts_sorted(text_views(out@)),
            text_views(out@).to_multiset() == vs.take(i as int).to_multiset(),
        decreases v@.len() - i,
    {
        let x = v[i].clone();
        let ghost os = text_views(out@);
        let mut pos: usize = 0;
        while pos < out.len() && text_less_eq(out[pos].as_str(), x.as_str())
            invariant
                os == text_views(out@),
                pos <= out@.len(),
                forall|k: int| 0 <= k < pos ==> text_le(#[trigger] os[k], x@),
            decreases out@.len() - pos,
        {
            pos = pos + 1;
        }
        proof {
            if pos < os.len() {
                lemma_text_le_total(os[pos as int], x@);
            }
        }
        out.insert(pos, x);
        let ghost ns = text_views(out@);
        assert(ns =~= os.insert(pos as int, v@[i as int]@));
        assert forall|a: int, b: int| 0 <= a < b < ns.len() implies text_le(#[trigger] ns[a], #[trigger] ns[b]) by {
            if b < pos {
            } else if b == pos {
            } else if a < pos {
                assert(ns[b] == os[b - 1]);
            } else if a == pos {
                assert(ns[b] == os[b - 1]);
                assert(text_le(x@, os[pos as int]));
                if b - 1 > pos {
                    assert(text_le(os[pos as int], os[b - 1]));
                }
                lemma_text_le_reflexive(os[pos as int]);
                lemma_text_le_transitive(x@, os[pos as int], os[b - 1]);
            } else {
                assert(ns[a] == os[a - 1]);
                assert(ns[b] == os[b - 1]);
            }
        }
        assert(vs.take(i + 1) =~= vs.take(i as int).push(vs[i as int]));
        assert(ns.to_multiset() == os.insert(pos as int, v@[i as int]@).to_multiset());
        proof {
            vstd::seq_lib::to_multiset_build(vs.take(i as int), vs[i as int]);
            vstd::seq_lib::to_multiset_insert(os, pos as int, vs[i as int]);
        }
        assert(x@ == vs[i as int]);
        i = i + 1;
    }
    assert(vs.take(v@.len() as int) =~= vs);
    proof {
        let os = text_views(out@);
        let c = sorted_texts_of(vs);
        assert(texts_sorted(c) && c.to_multiset() == vs.to_multiset());
        lemma_sorted_unique(os, c);
    }
    out
}

/// The decimal rendering of an integer, with a minus sign when negative.
pub open spec fn signed_digits(i: int) -> Seq<char> {
    if i < 0 {
        "-"@ + decimal_digits((-i) as nat)
    } else {
        decimal_digits(i as nat)
    }
}

/// Renders a signed integer in decimal, as `to_string` does.
pub fn signed_decimal_string(i: i64) -> (s: String)
    ensures
        s@ == signed_digits(i as int),
{
    if i < 0 {
        let magnitude: i128 = -(i as i128);
        let mut s = "-".to_owned();
        let d = decimal_string(magnitude as u64);
        s.append(d.as_str());
        s
    } else {
        decimal_string(i as u64)
    }
}

} // verus!
