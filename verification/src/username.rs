//! Usernames: what a name typed at the prompt, a name kept with the identity
//! key and a name taken from the network are reduced to. Only ASCII letters,
//! digits and `_` survive, which keeps `|` out of the pipe-delimited wire
//! format and path separators out of the identity file name.

use vstd::prelude::*;
use crate::text::{chars_of, string_of, trim, trim_chars};

verus! {

/// The longest username the network and the login prompt accept.
pub const MAX_USERNAME_LEN: usize = 32;

pub open spec fn is_username_char(c: char) -> bool {
    ||| 'a' <= c <= 'z'
    ||| 'A' <= c <= 'Z'
    ||| '0' <= c <= '9'
    ||| c == '_'
}

/// The characters of `s` that may stand in a username, in order.
pub open spec fn username_chars(s: Seq<char>) -> Seq<char>
    decreases s.len(),
{
    if s.len() == 0 {
        s
    } else if is_username_char(s.last()) {
        username_chars(s.drop_last()).push(s.last())
    } else {
        username_chars(s.drop_last())
    }
}

/// At most the first `n` elements of `s`.
pub open spec fn at_most(s: Seq<char>, n: nat) -> Seq<char> {
    if s.len() <= n {
        s
    } else {
        s.take(n as int)
    }
}

/// The name used when nothing of the typed one survives.
pub open spec fn anon() -> Seq<char> {
    seq!['a', 'n', 'o', 'n']
}

/// A name received from the network: its username characters, at most 32 of
/// them; `None` when none remain.
pub open spec fn spec_network_username(raw: Seq<char>) -> Option<Seq<char>> {
    let s = at_most(username_chars(raw), MAX_USERNAME_LEN as nat);
    if s.len() == 0 {
        None
    } else {
        Some(s)
    }
}

/// A name typed at the login prompt: trimmed, reduced to its username
/// characters, at most 32 of them, and `anon` when none remain.
pub open spec fn spec_login_username(line: Seq<char>) -> Seq<char> {
    let s = at_most(username_chars(trim(line)), MAX_USERNAME_LEN as nat);
    if s.len() == 0 {
        anon()
    } else {
        s
    }
}

/// The name an identity is kept under: reduced to its username characters
/// (no length limit), and `anon` when none remain.
pub open spec fn spec_identity_username(raw: Seq<char>) -> Seq<char> {
    let s = username_chars(raw);
    if s.len() == 0 {
        anon()
    } else {
        s
    }
}

pub fn is_username_char_exec(c: char) -> (b: bool)
    ensures
        b == is_username_char(c),
{
    (c >= 'a' && c <= 'z') || (c >= 'A' && c <= 'Z') || (c >= '0' && c <= '9') || c == '_'
}

/// The username characters of `v`, at most `limit` of them.
fn filter_username_chars(v: &[char], limit: usize) -> (r: Vec<char>)
    ensures
        r@ == at_most(username_chars(v@), limit as nat),
{
    let mut out: Vec<char> = Vec::new();
    let mut i: usize = 0;
    assert(v@.take(0) =~= Seq::<char>::empty());
    while i < v.len()
        invariant
            i <= v.len(),
            out@ == at_most(username_chars(v@.take(i as int)), limit as nat),
        decreases v.len() - i,
    {
        let c = v[i];
        let ghost prev = username_chars(v@.take(i as int));
        let ghost t = v@.take(i + 1);
        assert(t.drop_last() =~= v@.take(i as int));
        assert(t.last() == c);
        let keep = is_username_char_exec(c);
        if keep && out.len() < limit {
            out.push(c);
            proof {
                assert(username_chars(t) == prev.push(c));
            }
        } else {
            proof {
                if keep {
                    assert(username_chars(t) == prev.push(c));
                    assert(prev.push(c).take(limit as int) =~= prev.take(limit as int));
                } else {
                    assert(username_chars(t) == prev);
                }
            }
        }
        i = i + 1;
    }
    assert(v@.take(v.len() as int) =~= v@);
    out
}

fn anon_string() -> (r: String)
    ensures
        r@ == anon(),
{
    let mut s = String::new();
    s.push('a');
    s.push('n');
    s.push('o');
    s.push('n');
    assert(s@ =~= anon());
    s
}

/// Sanitizes a network-provided username by stripping every character but
/// ASCII letters, digits and `_` and keeping at most 32 characters.
/// Returns `None` if nothing remains.
pub fn sanitize_network_username(raw: &str) -> (r: Option<String>)
    ensures
        r matches Some(s) ==> spec_network_username(raw@) == Some(s@),
        r is None ==> spec_network_username(raw@) is None,
{
    let v = chars_of(raw);
    let kept = filter_username_chars(v.as_slice(), MAX_USERNAME_LEN);
    if kept.len() == 0 {
        None
    } else {
        Some(string_of(kept.as_slice()))
    }
}

/// Sanitizes the name typed at the login prompt: strictly letters, digits
/// and `_`, at most 32 characters, `anon` when nothing remains.
pub fn sanitize_login_username(line: &str) -> (r: String)
    ensures
        r@ == spec_login_username(line@),
{
    let v = chars_of(line);
    let t = trim_chars(v.as_slice());
    let kept = filter_username_chars(t.as_slice(), MAX_USERNAME_LEN);
    if kept.len() == 0 {
        anon_string()
    } else {
        string_of(kept.as_slice())
    }
}

/// Sanitizes the name an identity is stored under (no length limit),
/// `anon` when nothing remains.
pub fn sanitize_identity_username(raw: &str) -> (r: String)
    ensures
        r@ == spec_identity_username(raw@),
{
    let v = chars_of(raw);
    let kept = filter_username_chars(v.as_slice(), v.len());
    proof {
        lemma_filter_len_le(v@);
    }
    if kept.len() == 0 {
        anon_string()
    } else {
        string_of(kept.as_slice())
    }
}

pub proof fn lemma_filter_len_le(s: Seq<char>)
    ensures
        username_chars(s).len() <= s.len(),
    decreases s.len(),
{
    if s.len() > 0 {
        lemma_filter_len_le(s.drop_last());
    }
}

/// Every character of a sanitized name is a username character.
pub proof fn lemma_username_chars_only(s: Seq<char>)
    ensures
        forall|i: int|
            0 <= i < username_chars(s).len() ==> is_username_char(#[trigger] username_chars(s)[i]),
    decreases s.len(),
{
    if s.len() > 0 {
        let p = username_chars(s.drop_last());
        lemma_username_chars_only(s.drop_last());
        assert forall|i: int|
            0 <= i < username_chars(s).len() implies is_username_char(
            #[trigger] username_chars(s)[i],
        ) by {
            if i < p.len() {
                assert(username_chars(s)[i] == p[i]);
            }
        }
    }
}

/// A string made of username characters is its own username characters.
pub proof fn lemma_username_chars_fixed(s: Seq<char>)
    requires
        forall|i: int| 0 <= i < s.len() ==> is_username_char(#[trigger] s[i]),
    ensures
        username_chars(s) == s,
    decreases s.len(),
{
    if s.len() > 0 {
        let t = s.drop_last();
        assert forall|i: int| 0 <= i < t.len() implies is_username_char(#[trigger] t[i]) by {
            assert(t[i] == s[i]);
        }
        lemma_username_chars_fixed(t);
        assert(is_username_char(s[s.len() - 1]));
        assert(t.push(s.last()) =~= s);
    }
}

/// Sanitizing a name received from the network twice changes nothing more:
/// a sanitized name is accepted unchanged.
pub proof fn lemma_network_username_idempotent(raw: Seq<char>)
    requires
        spec_network_username(raw) is Some,
    ensures
        spec_network_username(spec_network_username(raw)->Some_0) == spec_network_username(raw),
{
    let s = spec_network_username(raw)->Some_0;
    lemma_username_chars_only(raw);
    assert forall|i: int| 0 <= i < s.len() implies is_username_char(#[trigger] s[i]) by {
        assert(s[i] == username_chars(raw)[i]);
    }
    lemma_username_chars_fixed(s);
}

/// Whether `s` is a subsequence of `t`: its characters occur in `t` in the
/// same order, possibly with others between them.
pub open spec fn is_subsequence(s: Seq<char>, t: Seq<char>) -> bool
    decreases t.len(),
{
    if s.len() == 0 {
        true
    } else if t.len() == 0 {
        false
    } else if s.last() == t.last() {
        is_subsequence(s.drop_last(), t.drop_last())
    } else {
        is_subsequence(s, t.drop_last())
    }
}

proof fn lemma_subsequence_drop_last(s: Seq<char>, t: Seq<char>)
    requires
        s.len() > 0,
        is_subsequence(s, t),
    ensures
        is_subsequence(s.drop_last(), t),
    decreases t.len(), 1int,
{
    if t.len() == 0 {
    } else if s.last() == t.last() {
        lemma_subsequence_extend(s.drop_last(), t);
    } else {
        lemma_subsequence_drop_last(s, t.drop_last());
        lemma_subsequence_extend(s.drop_last(), t);
    }
}

proof fn lemma_subsequence_extend(a: Seq<char>, t: Seq<char>)
    requires
        t.len() > 0,
        is_subsequence(a, t.drop_last()),
    ensures
        is_subsequence(a, t),
    decreases t.len(), 0int,
{
    if a.len() > 0 && a.last() == t.last() {
        lemma_subsequence_drop_last(a, t.drop_last());
    }
}

proof fn lemma_subsequence_take(s: Seq<char>, t: Seq<char>, k: int)
    requires
        0 <= k <= s.len(),
        is_subsequence(s, t),
    ensures
        is_subsequence(s.take(k), t),
    decreases s.len() - k,
{
    if k == s.len() {
        assert(s.take(k) =~= s);
    } else {
        lemma_subsequence_take(s, t, k + 1);
        lemma_subsequence_drop_last(s.take(k + 1), t);
        assert(s.take(k + 1).drop_last() =~= s.take(k));
    }
}

proof fn lemma_username_chars_subsequence(t: Seq<char>)
    ensures
        is_subsequence(username_chars(t), t),
    decreases t.len(),
{
    if t.len() > 0 {
        let u = username_chars(t.drop_last());
        lemma_username_chars_subsequence(t.drop_last());
        if is_username_char(t.last()) {
            assert(username_chars(t).drop_last() =~= u);
        } else if u.len() > 0 {
            lemma_username_chars_only(t.drop_last());
            assert(is_username_char(u[u.len() - 1]));
        }
    }
}

/// A name received from the network keeps only characters of the raw name,
/// in their order: it is a subsequence of it, of 1 to 32 username
/// characters.
pub proof fn lemma_network_username_subsequence(raw: Seq<char>)
    requires
        spec_network_username(raw) is Some,
    ensures
        is_subsequence(spec_network_username(raw)->Some_0, raw),
        1 <= spec_network_username(raw)->Some_0.len() <= MAX_USERNAME_LEN,
        forall|i: int|
            0 <= i < spec_network_username(raw)->Some_0.len() ==> is_username_char(
                #[trigger] spec_network_username(raw)->Some_0[i],
            ),
{
    let u = username_chars(raw);
    lemma_username_chars_subsequence(raw);
    lemma_username_chars_only(raw);
    let s = spec_network_username(raw)->Some_0;
    if u.len() > MAX_USERNAME_LEN {
        lemma_subsequence_take(u, raw, MAX_USERNAME_LEN as int);
    }
    assert forall|i: int| 0 <= i < s.len() implies is_username_char(#[trigger] s[i]) by {
        assert(s[i] == u[i]);
    }
}

} // verus!
