//! Whitespace and quote stripping over character sequences.
//!
//! Every identifier source delivers raw text whose surrounding whitespace
//! (and, for the device-tree value, quote characters) must be removed.  The
//! model is `stripped`: peel matching characters off the front, then off the
//! back, of a `Seq<char>`.

use vstd::prelude::*;

verus! {

/// Whether `c` is a Unicode whitespace character, as the `White_Space`
/// property defines them.
pub open spec fn is_space(c: char) -> bool {
    ||| c == ' '
    ||| c == '\t'
    ||| c == '\n'
    ||| c == '\u{b}'
    ||| c == '\u{c}'
    ||| c == '\r'
    ||| c == '\u{85}'
    ||| c == '\u{a0}'
    ||| c == '\u{1680}'
    ||| c == '\u{2000}'
    ||| c == '\u{2001}'
    ||| c == '\u{2002}'
    ||| c == '\u{2003}'
    ||| c == '\u{2004}'
    ||| c == '\u{2005}'
    ||| c == '\u{2006}'
    ||| c == '\u{2007}'
    ||| c == '\u{2008}'
    ||| c == '\u{2009}'
    ||| c == '\u{200a}'
    ||| c == '\u{2028}'
    ||| c == '\u{2029}'
    ||| c == '\u{202f}'
    ||| c == '\u{205f}'
    ||| c == '\u{3000}'
}

/// Whether `c` is a double quote or whitespace: the characters stripped from
/// an extracted device-tree value.
pub open spec fn is_quote_or_space(c: char) -> bool {
    c == '"' || is_space(c)
}

/// The whitespace predicate as a value, shared by every spec and lemma so
/// that all of them speak of one and the same function.
pub open spec fn space_pred() -> spec_fn(char) -> bool {
    |c: char| is_space(c)
}

/// The quote-or-whitespace predicate as a value.
pub open spec fn quote_space_pred() -> spec_fn(char) -> bool {
    |c: char| is_quote_or_space(c)
}

/// `s` with its longest prefix of characters satisfying `p` removed.
pub open spec fn strip_front(s: Seq<char>, p: spec_fn(char) -> bool) -> Seq<char>
    decreases s.len(),
{
    if s.len() > 0 && p(s[0]) {
        strip_front(s.drop_first(), p)
    } else {
        s
    }
}

/// `s` with its longest suffix of characters satisfying `p` removed.
pub open spec fn strip_back(s: Seq<char>, p: spec_fn(char) -> bool) -> Seq<char>
    decreases s.len(),
{
    if s.len() > 0 && p(s.last()) {
        strip_back(s.drop_last(), p)
    } else {
        s
    }
}

/// `s` with matching characters removed from both ends.
pub open spec fn stripped(s: Seq<char>, p: spec_fn(char) -> bool) -> Seq<char> {
    strip_back(strip_front(s, p), p)
}

/// `s` with leading and trailing whitespace removed.
pub open spec fn trimmed(s: Seq<char>) -> Seq<char> {
    stripped(s, space_pred())
}

/// `s` with leading and trailing quotes and whitespace removed.
pub open spec fn unquoted(s: Seq<char>) -> Seq<char> {
    stripped(s, quote_space_pred())
}

proof fn lemma_strip_front_subrange(s: Seq<char>, p: spec_fn(char) -> bool, i: int)
    requires
        0 <= i <= s.len(),
        forall|k: int| 0 <= k < i ==> p(s[k]),
        i == s.len() || !p(s[i]),
    ensures
        strip_front(s, p) == s.subrange(i, s.len() as int),
    decreases i,
{
    if i == 0 {
        assert(s.subrange(0, s.len() as int) =~= s);
    } else {
        let t = s.drop_first();
        assert(p(s[0]));
        lemma_strip_front_subrange(t, p, i - 1);
        assert(t.subrange(i - 1, t.len() as int) =~= s.subrange(i, s.len() as int));
    }
}

proof fn lemma_strip_back_subrange(s: Seq<char>, p: spec_fn(char) -> bool, j: int)
    requires
        0 <= j <= s.len(),
        forall|k: int| j <= k < s.len() ==> p(s[k]),
        j == 0 || !p(s[j - 1]),
    ensures
        strip_back(s, p) == s.subrange(0, j),
    decreases s.len() - j,
{
    if j == s.len() {
        assert(s.subrange(0, j) =~= s);
    } else {
        let t = s.drop_last();
        assert(p(s.last()));
        lemma_strip_back_subrange(t, p, j);
        assert(t.subrange(0, j) =~= s.subrange(0, j));
    }
}

/// Stripping both ends yields exactly the subrange between the first and the
/// last character that the predicate does not match.
pub proof fn lemma_stripped_subrange(s: Seq<char>, p: spec_fn(char) -> bool, i: int, j: int)
    requires
        0 <= i <= j <= s.len(),
        forall|k: int| 0 <= k < i ==> p(s[k]),
        forall|k: int| j <= k < s.len() ==> p(s[k]),
        i == j || (!p(s[i]) && !p(s[j - 1])),
    ensures
        stripped(s, p) == s.subrange(i, j),
{
    if i == j {
        lemma_strip_front_subrange(s, p, s.len() as int);
        assert(strip_front(s, p).len() == 0);
        assert(stripped(s, p) =~= s.subrange(i, j));
    } else {
        lemma_strip_front_subrange(s, p, i);
        let t = s.subrange(i, s.len() as int);
        lemma_strip_back_subrange(t, p, j - i);
        assert(t.subrange(0, j - i) =~= s.subrange(i, j));
    }
}

proof fn lemma_strip_front_suffix(s: Seq<char>, p: spec_fn(char) -> bool)
    ensures
        strip_front(s, p).len() <= s.len(),
        strip_front(s, p) == s.subrange(
            s.len() - strip_front(s, p).len(),
            s.len() as int,
        ),
        strip_front(s, p).len() > 0 ==> !p(strip_front(s, p).first()),
    decreases s.len(),
{
    if s.len() > 0 && p(s[0]) {
        let t = s.drop_first();
        lemma_strip_front_suffix(t, p);
        let f = strip_front(t, p);
        assert(t.subrange(t.len() - f.len(), t.len() as int) =~= s.subrange(
            s.len() - f.len(),
            s.len() as int,
        ));
    } else {
        assert(s.subrange(0, s.len() as int) =~= s);
    }
}

proof fn lemma_strip_back_prefix(s: Seq<char>, p: spec_fn(char) -> bool)
    ensures
        strip_back(s, p).len() <= s.len(),
        strip_back(s, p) == s.subrange(0, strip_back(s, p).len() as int),
        strip_back(s, p).len() > 0 ==> !p(strip_back(s, p).last()),
    decreases s.len(),
{
    if s.len() > 0 && p(s.last()) {
        let t = s.drop_last();
        lemma_strip_back_prefix(t, p);
        let b = strip_back(t, p);
        assert(t.subrange(0, b.len() as int) =~= s.subrange(0, b.len() as int));
    } else {
        assert(s.subrange(0, s.len() as int) =~= s);
    }
}

/// A stripped sequence never begins or ends with a character the predicate
/// matches: once the edges are cleaned, they stay clean.
pub proof fn lemma_stripped_clean(s: Seq<char>, p: spec_fn(char) -> bool)
    ensures
        stripped(s, p).len() > 0 ==> !p(stripped(s, p).first()),
        stripped(s, p).len() > 0 ==> !p(stripped(s, p).last()),
{
    let f = strip_front(s, p);
    let r = strip_back(f, p);
    lemma_strip_front_suffix(s, p);
    lemma_strip_back_prefix(f, p);
    if r.len() > 0 {
        assert(r.first() == f.first());
    }
}

proof fn lemma_strip_front_nonempty(s: Seq<char>, p: spec_fn(char) -> bool)
    requires
        exists|k: int| 0 <= k < s.len() && !p(s[k]),
    ensures
        strip_front(s, p).len() > 0,
    decreases s.len(),
{
    if s.len() > 0 && p(s[0]) {
        let k = choose|k: int| 0 <= k < s.len() && !p(s[k]);
        let t = s.drop_first();
        assert(0 <= k - 1 < t.len() && !p(t[k - 1]));
        lemma_strip_front_nonempty(t, p);
    }
}

proof fn lemma_strip_back_nonempty(s: Seq<char>, p: spec_fn(char) -> bool)
    requires
        exists|k: int| 0 <= k < s.len() && !p(s[k]),
    ensures
        strip_back(s, p).len() > 0,
    decreases s.len(),
{
    if s.len() > 0 && p(s.last()) {
        let k = choose|k: int| 0 <= k < s.len() && !p(s[k]);
        let t = s.drop_last();
        assert(0 <= k < t.len() && !p(t[k]));
        lemma_strip_back_nonempty(t, p);
    }
}

/// Stripping leaves something behind exactly when some character of the
/// input is not matched by the predicate.
pub proof fn lemma_stripped_nonempty(s: Seq<char>, p: spec_fn(char) -> bool)
    ensures
        stripped(s, p).len() > 0 <==> exists|k: int| 0 <= k < s.len() && !p(s[k]),
{
    let f = strip_front(s, p);
    lemma_strip_front_suffix(s, p);
    if exists|k: int| 0 <= k < s.len() && !p(s[k]) {
        lemma_strip_front_nonempty(s, p);
        assert(0 <= 0 < f.len() && !p(f[0]));
        lemma_strip_back_nonempty(f, p);
    }
    if stripped(s, p).len() > 0 {
        lemma_strip_back_prefix(f, p);
        assert(!p(f.first()));
        assert(f.first() == s[s.len() - f.len()]);
        assert(0 <= s.len() - f.len() < s.len() && !p(s[s.len() - f.len()]));
    }
}

/// Whether `c` is Unicode whitespace.
pub fn is_space_char(c: char) -> (b: bool)
    ensures
        b == is_space(c),
{
    c == ' ' || c == '\t' || c == '\n' || c == '\u{b}' || c == '\u{c}' || c == '\r'
        || c == '\u{85}' || c == '\u{a0}' || c == '\u{1680}' || c == '\u{2000}' || c == '\u{2001}'
        || c == '\u{2002}' || c == '\u{2003}' || c == '\u{2004}' || c == '\u{2005}'
        || c == '\u{2006}' || c == '\u{2007}' || c == '\u{2008}' || c == '\u{2009}'
        || c == '\u{200a}' || c == '\u{2028}' || c == '\u{2029}' || c == '\u{202f}'
        || c == '\u{205f}' || c == '\u{3000}'
}

/// Whether `c` is a double quote or Unicode whitespace.
pub fn is_quote_or_space_char(c: char) -> (b: bool)
    ensures
        b == is_quote_or_space(c),
{
    c == '"' || is_space_char(c)
}

/// `s` with the characters the chosen predicate matches removed from both
/// ends: whitespace alone, or, for `quotes`, quotes and whitespace.
fn strip_edges(s: &str, quotes: bool) -> (r: String)
    ensures
        r@ == stripped(s@, if quotes { quote_space_pred() } else { space_pred() }),
{
    let ghost p = if quotes { quote_space_pred() } else { space_pred() };
    let n = s.unicode_len();
    let mut i: usize = 0;
    while i < n
        invariant
            0 <= i <= n,
            n == s@.len(),
            forall|k: int| 0 <= k < i ==> p(s@[k]),
            p == (if quotes { quote_space_pred() } else { space_pred() }),
        ensures
            0 <= i <= n,
            forall|k: int| 0 <= k < i ==> p(s@[k]),
            i == n || !p(s@[i as int]),
        decreases n - i,
    {
        let c = s.get_char(i);
        let matches_edge = if quotes { is_quote_or_space_char(c) } else { is_space_char(c) };
        if !matches_edge {
            break;
        }
        i = i + 1;
    }
    if i == n {
        proof {
            lemma_stripped_subrange(s@, p, n as int, n as int);
            assert(s@.subrange(n as int, n as int) =~= Seq::<char>::empty());
        }
        return String::new();
    }
    let mut j: usize = n;
    while j > i
        invariant
            i <= j <= n,
            n == s@.len(),
            forall|k: int| j <= k < n ==> p(s@[k]),
            p == (if quotes { quote_space_pred() } else { space_pred() }),
        ensures
            i <= j <= n,
            forall|k: int| j <= k < n ==> p(s@[k]),
            j == i || !p(s@[j - 1]),
        decreases j,
    {
        let c = s.get_char(j - 1);
        let matches_edge = if quotes { is_quote_or_space_char(c) } else { is_space_char(c) };
        if !matches_edge {
            break;
        }
        j = j - 1;
    }
    proof {
        assert(j > i);
        lemma_stripped_subrange(s@, p, i as int, j as int);
    }
    let sub = s.substring_char(i, j);
    String::from_str(sub)
}

/// `s` with leading and trailing whitespace removed, as an owned string.
pub fn trim(s: &str) -> (r: String)
    ensures
        r@ == trimmed(s@),
{
    strip_edges(s, false)
}

/// `s` with leading and trailing quotes and whitespace removed, as an owned
/// string.
pub fn trim_quotes(s: &str) -> (r: String)
    ensures
        r@ == unquoted(s@),
{
    strip_edges(s, true)
}

} // verus!
