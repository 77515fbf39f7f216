//! Extracting the routing key from an HTTP request line.
//!
//! A request line has the shape `<METHOD> <PATH> <VERSION>`; the path is its
//! second whitespace-delimited token.  The specification mirrors splitting
//! on ASCII whitespace: skip whitespace, skip the first token, skip
//! whitespace again, and take what follows up to the next whitespace.

use vstd::prelude::*;

verus! {

/// ASCII whitespace, the separators that can occur in a request line.
pub open spec fn is_ws(c: char) -> bool {
    c == ' ' || c == '\t' || c == '\r' || c == '\n'
}

fn is_ws_char(c: char) -> (b: bool)
    ensures
        b == is_ws(c),
{
    c == ' ' || c == '\t' || c == '\r' || c == '\n'
}

/// `s` without its leading whitespace.
pub open spec fn skip_ws(s: Seq<char>) -> Seq<char>
    decreases s.len(),
{
    if s.len() == 0 {
        s
    } else if is_ws(s[0]) {
        skip_ws(s.drop_first())
    } else {
        s
    }
}

/// The leading maximal run of non-whitespace characters of `s`.
pub open spec fn take_tok(s: Seq<char>) -> Seq<char>
    decreases s.len(),
{
    if s.len() == 0 || is_ws(s[0]) {
        Seq::empty()
    } else {
        seq![s[0]] + take_tok(s.drop_first())
    }
}

/// `s` without its leading maximal run of non-whitespace characters.
pub open spec fn drop_tok(s: Seq<char>) -> Seq<char>
    decreases s.len(),
{
    if s.len() == 0 || is_ws(s[0]) {
        s
    } else {
        drop_tok(s.drop_first())
    }
}

/// The second whitespace-delimited token of `s`, if `s` has at least two.
pub open spec fn second_token(s: Seq<char>) -> Option<Seq<char>> {
    let rest = skip_ws(drop_tok(skip_ws(s)));
    if rest.len() == 0 {
        None
    } else {
        Some(take_tok(rest))
    }
}

/// A token is a nonempty sequence free of whitespace.
pub open spec fn is_token(s: Seq<char>) -> bool {
    s.len() > 0 && forall|i: int| 0 <= i < s.len() ==> !is_ws(s[i])
}

/// `take_tok` returns exactly the prefix up to the first whitespace.
proof fn lemma_take_tok_prefix(s: Seq<char>, k: int)
    requires
        0 <= k <= s.len(),
        forall|j: int| 0 <= j < k ==> !is_ws(s[j]),
        k == s.len() || is_ws(s[k]),
    ensures
        take_tok(s) == s.subrange(0, k),
    decreases k,
{
    if k == 0 {
        assert(take_tok(s) =~= s.subrange(0, 0));
    } else {
        lemma_take_tok_prefix(s.drop_first(), k - 1);
        assert(take_tok(s) =~= s.subrange(0, k));
    }
}

/// `drop_tok` drops exactly the prefix up to the first whitespace.
proof fn lemma_drop_tok_suffix(s: Seq<char>, k: int)
    requires
        0 <= k <= s.len(),
        forall|j: int| 0 <= j < k ==> !is_ws(s[j]),
        k == s.len() || is_ws(s[k]),
    ensures
        drop_tok(s) == s.subrange(k, s.len() as int),
    decreases k,
{
    if k == 0 {
        assert(drop_tok(s) =~= s.subrange(0, s.len() as int));
    } else {
        lemma_drop_tok_suffix(s.drop_first(), k - 1);
        assert(drop_tok(s) =~= s.subrange(k, s.len() as int));
    }
}

/// `skip_ws` skips exactly the leading whitespace.
proof fn lemma_skip_ws_suffix(s: Seq<char>, k: int)
    requires
        0 <= k <= s.len(),
        forall|j: int| 0 <= j < k ==> is_ws(s[j]),
        k == s.len() || !is_ws(s[k]),
    ensures
        skip_ws(s) == s.subrange(k, s.len() as int),
    decreases k,
{
    if k == 0 {
        assert(skip_ws(s) =~= s.subrange(0, s.len() as int));
    } else {
        lemma_skip_ws_suffix(s.drop_first(), k - 1);
        assert(skip_ws(s) =~= s.subrange(k, s.len() as int));
    }
}

/// On a sequence that starts with a token followed by whitespace (or by
/// nothing), `take_tok` yields the token and `drop_tok` the rest.
pub proof fn lemma_tok_of_concat(u: Seq<char>, v: Seq<char>)
    requires
        is_token(u),
        v.len() == 0 || is_ws(v[0]),
    ensures
        take_tok(u + v) == u,
        drop_tok(u + v) == v,
{
    let s = u + v;
    let k = u.len() as int;
    assert(forall|j: int| 0 <= j < k ==> !is_ws(s[j]));
    lemma_take_tok_prefix(s, k);
    lemma_drop_tok_suffix(s, k);
    assert(s.subrange(0, k) =~= u);
    assert(s.subrange(k, s.len() as int) =~= v);
}

/// `skip_ws` leaves a sequence with a non-whitespace head untouched.
pub proof fn lemma_skip_ws_noop(s: Seq<char>)
    requires
        s.len() == 0 || !is_ws(s[0]),
    ensures
        skip_ws(s) == s,
{
    lemma_skip_ws_suffix(s, 0);
    assert(s.subrange(0, s.len() as int) =~= s);
}

/// The second token of a well-formed request line `<METHOD> <PATH> <VERSION>`
/// is exactly the path.
pub proof fn lemma_second_token_of_request_line(
    method: Seq<char>,
    path: Seq<char>,
    version: Seq<char>,
)
    requires
        is_token(method),
        is_token(path),
        version.len() == 0 || !is_ws(version[0]),
    ensures
        second_token(method + seq![' '] + path + seq![' '] + version) == Some(path),
{
    let line = method + seq![' '] + path + seq![' '] + version;
    let tail = seq![' '] + path + seq![' '] + version;
    assert(line =~= method + tail);
    lemma_skip_ws_noop(line);
    lemma_tok_of_concat(method, tail);
    assert(drop_tok(skip_ws(line)) == tail);
    let after = path + seq![' '] + version;
    assert(tail.drop_first() =~= after);
    lemma_skip_ws_noop(after);
    assert(skip_ws(tail) == after);
    let tail2 = seq![' '] + version;
    assert(after =~= path + tail2);
    lemma_tok_of_concat(path, tail2);
    assert(second_token(line) == Some(path));
}

/// Extracts the second whitespace-delimited token of `line`: the request
/// path of an HTTP request line.  Returns `None` exactly when `line` has
/// fewer than two tokens.
pub fn parse_request_path(line: &str) -> (r: Option<String>)
    ensures
        match r {
            Some(p) => second_token(line@) == Some(p@),
            None => second_token(line@) is None,
        },
{
    let ghost s = line@;
    let n = line.unicode_len();
    let mut i: usize = 0;

    // Skip leading whitespace.
    while i < n && is_ws_char(line.get_char(i))
        invariant
            s == line@,
            n == s.len(),
            i <= n,
            forall|j: int| 0 <= j < i ==> is_ws(s[j]),
        decreases n - i,
    {
        i += 1;
    }
    proof {
        lemma_skip_ws_suffix(s, i as int);
    }
    let ghost at_tok1 = s.subrange(i as int, n as int);

    // Skip the first token.
    let start1 = i;
    while i < n && !is_ws_char(line.get_char(i))
        invariant
            s == line@,
            n == s.len(),
            start1 <= i <= n,
            forall|j: int| start1 <= j < i ==> !is_ws(s[j]),
        decreases n - i,
    {
        i += 1;
    }
    proof {
        assert(forall|j: int| 0 <= j < i - start1 ==> !is_ws(at_tok1[j]));
        lemma_drop_tok_suffix(at_tok1, i - start1);
        assert(at_tok1.subrange(i - start1, at_tok1.len() as int) =~= s.subrange(
            i as int,
            n as int,
        ));
    }
    let ghost at_gap = s.subrange(i as int, n as int);

    // Skip the whitespace before the second token.
    let start_gap = i;
    while i < n && is_ws_char(line.get_char(i))
        invariant
            s == line@,
            n == s.len(),
            start_gap <= i <= n,
            forall|j: int| start_gap <= j < i ==> is_ws(s[j]),
        decreases n - i,
    {
        i += 1;
    }
    proof {
        assert(forall|j: int| 0 <= j < i - start_gap ==> is_ws(at_gap[j]));
        lemma_skip_ws_suffix(at_gap, i - start_gap);
        assert(at_gap.subrange(i - start_gap, at_gap.len() as int) =~= s.subrange(
            i as int,
            n as int,
        ));
    }
    let ghost at_tok2 = s.subrange(i as int, n as int);
    assert(skip_ws(drop_tok(skip_ws(s))) == at_tok2);

    if i == n {
        assert(at_tok2.len() == 0);
        return None;
    }

    // Take the second token itself.
    let start2 = i;
    while i < n && !is_ws_char(line.get_char(i))
        invariant
            s == line@,
            n == s.len(),
            start2 <= i <= n,
            forall|j: int| start2 <= j < i ==> !is_ws(s[j]),
        decreases n - i,
    {
        i += 1;
    }
    proof {
        assert(forall|j: int| 0 <= j < i - start2 ==> !is_ws(at_tok2[j]));
        lemma_take_tok_prefix(at_tok2, i - start2);
        assert(at_tok2.subrange(0, i - start2) =~= s.subrange(start2 as int, i as int));
    }
    let tok = line.substring_char(start2, i);
    let p = tok.to_owned();
    proof {
        assert(second_token(s) == Some(p@));
    }
    Some(p)
}

} // verus!
