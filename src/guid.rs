//! Turning a raw GUID token into the key under which the lookup table files it.

use vstd::prelude::*;
use vstd::string::StrSliceExecFns;
use vstd::string::StringExecFns;

verus! {

/// Whether `c` survives filtering: dashes always go, double quotes go when
/// `drop_quotes` is set.
pub open spec fn is_kept(c: char, drop_quotes: bool) -> bool {
    c != '-' && !(drop_quotes && c == '"')
}

/// The characters of `s` that survive filtering, in their original order.
pub open spec fn kept(s: Seq<char>, drop_quotes: bool) -> Seq<char>
    decreases s.len(),
{
    if s.len() == 0 {
        Seq::empty()
    } else if is_kept(s.last(), drop_quotes) {
        kept(s.drop_last(), drop_quotes).push(s.last())
    } else {
        kept(s.drop_last(), drop_quotes)
    }
}

/// The lookup key for a raw GUID token: dashes and double quotes removed.
pub open spec fn normalized(s: Seq<char>) -> Seq<char> {
    kept(s, true)
}

/// A GUID as the table loader files it: dashes removed.
pub open spec fn dashless(s: Seq<char>) -> Seq<char> {
    kept(s, false)
}

/// Copies the characters of `s` that survive filtering.
pub fn filter_chars(s: &str, drop_quotes: bool) -> (r: String)
    ensures
        r@ == kept(s@, drop_quotes),
{
    let n = s.unicode_len();
    let mut out = String::new();
    let mut i: usize = 0;
    while i < n
        invariant
            n == s@.len(),
            i <= n,
            out@ == kept(s@.take(i as int), drop_quotes),
        decreases n - i,
    {
        let c = s.get_char(i);
        assert(s@.take(i as int + 1).drop_last() =~= s@.take(i as int));
        if c != '-' && !(drop_quotes && c == '"') {
            let one = s.substring_char(i, i + 1);
            out.append(one);
            assert(one@ =~= seq![c]);
        }
        i = i + 1;
    }
    assert(s@.take(n as int) =~= s@);
    out
}

/// Removes every dash and every double quote from a raw GUID token.
pub fn normalize(g: &str) -> (r: String)
    ensures
        r@ == normalized(g@),
{
    filter_chars(g, true)
}

/// Removes every dash from a GUID, as the table loader does with its keys.
pub fn strip_dashes(g: &str) -> (r: String)
    ensures
        r@ == dashless(g@),
{
    filter_chars(g, false)
}

/// Everything that filtering keeps passes the filter.
pub proof fn lemma_kept_all_pass(s: Seq<char>, drop_quotes: bool)
    ensures
        forall|i: int| 0 <= i < kept(s, drop_quotes).len()
            ==> is_kept(#[trigger] kept(s, drop_quotes)[i], drop_quotes),
    decreases s.len(),
{
    if s.len() > 0 {
        let prev = kept(s.drop_last(), drop_quotes);
        lemma_kept_all_pass(s.drop_last(), drop_quotes);
        assert forall|i: int| 0 <= i < kept(s, drop_quotes).len() implies is_kept(
            #[trigger] kept(s, drop_quotes)[i],
            drop_quotes,
        ) by {
            if i < prev.len() {
                assert(kept(s, drop_quotes)[i] == prev[i]);
            }
        }
    }
}

/// Filtering a string whose characters all pass the filter leaves it as it is.
pub proof fn lemma_kept_identity(s: Seq<char>, drop_quotes: bool)
    requires
        forall|i: int| 0 <= i < s.len() ==> is_kept(#[trigger] s[i], drop_quotes),
    ensures
        kept(s, drop_quotes) == s,
    decreases s.len(),
{
    if s.len() > 0 {
        lemma_kept_identity(s.drop_last(), drop_quotes);
        assert(s.drop_last().push(s.last()) =~= s);
    }
}

/// A token with neither dashes nor double quotes is its own lookup key.
pub proof fn lemma_normalize_identity(g: Seq<char>)
    requires
        forall|i: int| 0 <= i < g.len() ==> g[i] != '-' && g[i] != '"',
    ensures
        normalized(g) == g,
{
    assert forall|i: int| 0 <= i < g.len() implies is_kept(#[trigger] g[i], true) by {}
    lemma_kept_identity(g, true);
}

/// Normalizing a token twice gives the same key as normalizing it once.
pub proof fn lemma_normalize_idempotent(g: Seq<char>)
    ensures
        normalized(normalized(g)) == normalized(g),
{
    lemma_kept_all_pass(g, true);
    lemma_kept_identity(normalized(g), true);
}

} // verus!
