//! Small executable helpers over `String`, `&str` and `Vec<char>`.
//!
//! All text manipulation in this crate happens at the character level, so
//! that every function's result is pinned to a `Seq<char>` expression.

use vstd::prelude::*;

verus! {

/// Relies on `String::push`: appends the given character to the end of the
/// string.
#[verifier::external_body]
pub fn push_char(s: &mut String, c: char)
    ensures
        final(s)@ == old(s)@.push(c),
{
    s.push(c);
}

/// The characters of `s`, as a vector.
pub fn chars_of(s: &str) -> (r: Vec<char>)
    ensures
        r@ == s@,
{
    let n = s.unicode_len();
    let mut out: Vec<char> = Vec::new();
    let mut i: usize = 0;
    while i < n
        invariant
            n == s@.len(),
            i <= n,
            out@ == s@.subrange(0, i as int),
        decreases n - i,
    {
        out.push(s.get_char(i));
        i = i + 1;
        proof {
            assert(out@ =~= s@.subrange(0, i as int));
        }
    }
    proof {
        assert(out@ =~= s@);
    }
    out
}

/// A `String` holding exactly the characters of `cs`.
pub fn string_of(cs: &Vec<char>) -> (r: String)
    ensures
        r@ == cs@,
{
    let mut out = String::new();
    let mut i: usize = 0;
    while i < cs.len()
        invariant
            i <= cs@.len(),
            out@ == cs@.subrange(0, i as int),
        decreases cs@.len() - i,
    {
        push_char(&mut out, cs[i]);
        i = i + 1;
        proof {
            assert(out@ =~= cs@.subrange(0, i as int));
        }
    }
    proof {
        assert(out@ =~= cs@);
    }
    out
}

/// Whether two string slices hold the same characters.
pub fn str_eq(a: &str, b: &str) -> (r: bool)
    ensures
        r == (a@ == b@),
{
    let na = a.unicode_len();
    let nb = b.unicode_len();
    if na != nb {
        proof {
            assert(a@ != b@);
        }
        return false;
    }
    let mut i: usize = 0;
    while i < na
        invariant
            na == a@.len() && na == b@.len(),
            i <= na,
            forall|j: int| 0 <= j < i ==> a@[j] == b@[j],
        decreases na - i,
    {
        if a.get_char(i) != b.get_char(i) {
            return false;
        }
        i = i + 1;
    }
    proof {
        assert(a@ =~= b@);
    }
    true
}

/// Whether `s` starts with `prefix`.
pub open spec fn spec_starts_with(s: Seq<char>, prefix: Seq<char>) -> bool {
    prefix.len() <= s.len() && s.subrange(0, prefix.len() as int) == prefix
}

pub fn str_starts_with(s: &str, prefix: &str) -> (r: bool)
    ensures
        r == spec_starts_with(s@, prefix@),
{
    let n = s.unicode_len();
    let np = prefix.unicode_len();
    if np > n {
        return false;
    }
    let mut i: usize = 0;
    while i < np
        invariant
            n == s@.len() && np == prefix@.len(),
            np <= n,
            i <= np,
            forall|j: int| 0 <= j < i ==> s@[j] == prefix@[j],
        decreases np - i,
    {
        if s.get_char(i) != prefix.get_char(i) {
            proof {
                assert(s@.subrange(0, np as int)[i as int] != prefix@[i as int]);
            }
            return false;
        }
        i = i + 1;
    }
    proof {
        assert(s@.subrange(0, np as int) =~= prefix@);
    }
    true
}

/// Whether `s` ends with `suffix`.
pub open spec fn spec_ends_with(s: Seq<char>, suffix: Seq<char>) -> bool {
    suffix.len() <= s.len() && s.subrange(s.len() - suffix.len(), s.len() as int) == suffix
}

pub fn str_ends_with(s: &str, suffix: &str) -> (r: bool)
    ensures
        r == spec_ends_with(s@, suffix@),
{
    let n = s.unicode_len();
    let np = suffix.unicode_len();
    if np > n {
        return false;
    }
    let off = n - np;
    let mut i: usize = 0;
    while i < np
        invariant
            n == s@.len() && np == suffix@.len(),
            np <= n,
            off == n - np,
            i <= np,
            forall|j: int| 0 <= j < i ==> s@[off + j] == suffix@[j],
        decreases np - i,
    {
        if s.get_char(off + i) != suffix.get_char(i) {
            proof {
                assert(s@.subrange(n - np, n as int)[i as int] != suffix@[i as int]);
            }
            return false;
        }
        i = i + 1;
    }
    proof {
        assert(s@.subrange(n - np, n as int) =~= suffix@);
    }
    true
}

/// `s` with its first occurrence of `pat` (if any) replaced by `rep`.
pub open spec fn spec_replace_first(s: Seq<char>, pat: Seq<char>, rep: Seq<char>) -> Seq<char>
    decreases s.len(),
{
    if pat.len() == 0 || s.len() < pat.len() {
        s
    } else if s.subrange(0, pat.len() as int) == pat {
        rep + s.skip(pat.len() as int)
    } else {
        seq![s[0]] + spec_replace_first(s.drop_first(), pat, rep)
    }
}

/// Replacing at the first match site splices the replacement in.
proof fn lemma_replace_at(s: Seq<char>, pat: Seq<char>, rep: Seq<char>, i: int)
    requires
        pat.len() > 0,
        0 <= i <= s.len() - pat.len(),
        s.subrange(i, i + pat.len()) == pat,
        forall|j: int| 0 <= j < i ==> #[trigger] s.subrange(j, j + pat.len()) != pat,
    ensures
        spec_replace_first(s, pat, rep) == s.subrange(0, i) + rep + s.skip(i + pat.len()),
    decreases i,
{
    if i == 0 {
        assert(spec_replace_first(s, pat, rep) == rep + s.skip(pat.len() as int));
        assert(s.subrange(0, 0) + rep + s.skip(pat.len() as int) =~= rep + s.skip(
            pat.len() as int,
        ));
    } else {
        assert(s.subrange(0, 0 + pat.len() as int) != pat);
        assert(s.subrange(0, pat.len() as int) =~= s.subrange(0, 0 + pat.len() as int));
        let t = s.drop_first();
        assert(t.subrange(i - 1, i - 1 + pat.len()) =~= s.subrange(i, i + pat.len()));
        assert forall|j: int| 0 <= j < i - 1 implies #[trigger] t.subrange(j, j + pat.len())
            != pat by {
            assert(t.subrange(j, j + pat.len()) =~= s.subrange(j + 1, j + 1 + pat.len()));
        }
        lemma_replace_at(t, pat, rep, i - 1);
        assert(spec_replace_first(s, pat, rep) == seq![s[0]] + (t.subrange(0, i - 1) + rep
            + t.skip(i - 1 + pat.len())));
        assert(seq![s[0]] + (t.subrange(0, i - 1) + rep + t.skip(i - 1 + pat.len())) =~= s.subrange(
            0,
            i,
        ) + rep + s.skip(i + pat.len()));
    }
}

/// Without a match site, replacement leaves the text as it is.
proof fn lemma_replace_none(s: Seq<char>, pat: Seq<char>, rep: Seq<char>)
    requires
        pat.len() > 0,
        forall|j: int|
            0 <= j <= s.len() - pat.len() ==> #[trigger] s.subrange(j, j + pat.len()) != pat,
    ensures
        spec_replace_first(s, pat, rep) == s,
    decreases s.len(),
{
    if s.len() < pat.len() {
    } else {
        assert(s.subrange(0, 0 + pat.len() as int) != pat);
        assert(s.subrange(0, pat.len() as int) =~= s.subrange(0, 0 + pat.len() as int));
        let t = s.drop_first();
        assert forall|j: int|
            0 <= j <= t.len() - pat.len() implies #[trigger] t.subrange(j, j + pat.len())
            != pat by {
            assert(t.subrange(j, j + pat.len()) =~= s.subrange(j + 1, j + 1 + pat.len()));
        }
        lemma_replace_none(t, pat, rep);
        assert(seq![s[0]] + t =~= s);
    }
}

/// Whether `pat` stands in `cs` at position `i`.
fn match_at(cs: &Vec<char>, pat: &Vec<char>, i: usize) -> (r: bool)
    requires
        i + pat@.len() <= cs@.len(),
    ensures
        r == (cs@.subrange(i as int, i + pat@.len()) == pat@),
{
    let cn = cs.len();
    let mut k: usize = 0;
    while k < pat.len()
        invariant
            cn == cs@.len(),
            i + pat@.len() <= cs@.len(),
            k <= pat@.len(),
            forall|j: int| 0 <= j < k ==> cs@[i + j] == pat@[j],
        decreases pat@.len() - k,
    {
        if cs[i + k] != pat[k] {
            proof {
                assert(cs@.subrange(i as int, i + pat@.len())[k as int] != pat@[k as int]);
            }
            return false;
        }
        k = k + 1;
    }
    proof {
        assert(cs@.subrange(i as int, i + pat@.len()) =~= pat@);
    }
    true
}

/// `s` with its first occurrence of `pat` (if any) replaced by `rep`.
pub fn str_replace_first(s: &str, pat: &str, rep: &str) -> (r: String)
    ensures
        r@ == spec_replace_first(s@, pat@, rep@),
{
    let cs = chars_of(s);
    let pc = chars_of(pat);
    let n = cs.len();
    let pn = pc.len();
    if pn == 0 || n < pn {
        return s.to_owned();
    }
    let mut i: usize = 0;
    while i <= n - pn
        invariant
            cs@ == s@,
            pc@ == pat@,
            n == cs@.len(),
            pn == pc@.len(),
            0 < pn <= n,
            i <= n - pn + 1,
            forall|j: int| 0 <= j < i ==> #[trigger] s@.subrange(j, j + pn) != pat@,
        decreases n - i,
    {
        if match_at(&cs, &pc, i) {
            let mut out: Vec<char> = Vec::new();
            let mut j: usize = 0;
            while j < i
                invariant
                    cs@ == s@,
                    j <= i <= cs@.len(),
                    out@ == cs@.subrange(0, j as int),
                decreases i - j,
            {
                out.push(cs[j]);
                j = j + 1;
                proof {
                    assert(out@ =~= cs@.subrange(0, j as int));
                }
            }
            let mut res = string_of(&out);
            res.append(rep);
            let mut k: usize = i + pn;
            proof {
                assert(cs@.subrange(i + pn, k as int) =~= Seq::<char>::empty());
                assert(res@ =~= cs@.subrange(0, i as int) + rep@ + cs@.subrange(
                    i + pn,
                    k as int,
                ));
            }
            while k < n
                invariant
                    cs@ == s@,
                    i + pn <= k <= n,
                    n == cs@.len(),
                    res@ == cs@.subrange(0, i as int) + rep@ + cs@.subrange(i + pn, k as int),
                decreases n - k,
            {
                push_char(&mut res, cs[k]);
                k = k + 1;
                proof {
                    assert(res@ =~= cs@.subrange(0, i as int) + rep@ + cs@.subrange(
                        i + pn,
                        k as int,
                    ));
                }
            }
            proof {
                lemma_replace_at(s@, pat@, rep@, i as int);
                assert(cs@.subrange(i + pn, n as int) =~= s@.skip(i + pn));
                assert(res@ =~= spec_replace_first(s@, pat@, rep@));
            }
            return res;
        }
        i = i + 1;
    }
    proof {
        lemma_replace_none(s@, pat@, rep@);
    }
    s.to_owned()
}

/// ASCII whitespace, as trimming understands it.
pub open spec fn spec_is_ws(c: char) -> bool {
    c == ' ' || c == '\t' || c == '\r' || c == '\n'
}

pub fn is_ws(c: char) -> (r: bool)
    ensures
        r == spec_is_ws(c),
{
    c == ' ' || c == '\t' || c == '\r' || c == '\n'
}

/// `s` without leading whitespace.
pub open spec fn spec_trim_start(s: Seq<char>) -> Seq<char>
    decreases s.len(),
{
    if s.len() > 0 && spec_is_ws(s[0]) {
        spec_trim_start(s.drop_first())
    } else {
        s
    }
}

/// `s` without trailing whitespace.
pub open spec fn spec_trim_end(s: Seq<char>) -> Seq<char>
    decreases s.len(),
{
    if s.len() > 0 && spec_is_ws(s.last()) {
        spec_trim_end(s.drop_last())
    } else {
        s
    }
}

/// `s` without leading and trailing whitespace.
pub open spec fn spec_trim(s: Seq<char>) -> Seq<char> {
    spec_trim_end(spec_trim_start(s))
}

pub fn trim_start_str(s: &str) -> (r: String)
    ensures
        r@ == spec_trim_start(s@),
{
    let cs = chars_of(s);
    let n = cs.len();
    let mut i: usize = 0;
    proof {
        assert(cs@.subrange(0, n as int) =~= s@);
    }
    while i < n && is_ws(cs[i])
        invariant
            cs@ == s@,
            n == cs@.len(),
            i <= n,
            spec_trim_start(s@) == spec_trim_start(cs@.subrange(i as int, n as int)),
        decreases n - i,
    {
        let ghost rest = cs@.subrange(i as int, n as int);
        let ghost rest2 = cs@.subrange(i as int + 1, n as int);
        proof {
            assert(rest[0] == cs@[i as int]);
            assert(rest.drop_first() =~= rest2);
        }
        i = i + 1;
    }
    proof {
        let rest = cs@.subrange(i as int, n as int);
        if rest.len() > 0 {
            assert(rest[0] == cs@[i as int]);
        }
        assert(spec_trim_start(rest) == rest);
    }
    let mut out: Vec<char> = Vec::new();
    let mut j: usize = i;
    while j < n
        invariant
            cs@ == s@,
            n == cs@.len(),
            i <= j <= n,
            out@ == cs@.subrange(i as int, j as int),
        decreases n - j,
    {
        out.push(cs[j]);
        j = j + 1;
        proof {
            assert(out@ =~= cs@.subrange(i as int, j as int));
        }
    }
    string_of(&out)
}

pub fn trim_str(s: &str) -> (r: String)
    ensures
        r@ == spec_trim(s@),
{
    let st = trim_start_str(s);
    let cs = chars_of(st.as_str());
    let mut n = cs.len();
    proof {
        assert(cs@.subrange(0, n as int) =~= st@);
    }
    while n > 0 && is_ws(cs[n - 1])
        invariant
            cs@ == st@,
            n <= cs@.len(),
            spec_trim_end(st@) == spec_trim_end(cs@.subrange(0, n as int)),
        decreases n,
    {
        let ghost rest = cs@.subrange(0, n as int);
        let ghost rest2 = cs@.subrange(0, n as int - 1);
        proof {
            assert(rest.last() == cs@[n - 1]);
            assert(rest.drop_last() =~= rest2);
        }
        n = n - 1;
    }
    proof {
        let rest = cs@.subrange(0, n as int);
        if rest.len() > 0 {
            assert(rest.last() == cs@[n - 1]);
        }
        assert(spec_trim_end(rest) == rest);
    }
    let mut out: Vec<char> = Vec::new();
    let mut j: usize = 0;
    while j < n
        invariant
            cs@ == st@,
            n <= cs@.len(),
            j <= n,
            out@ == cs@.subrange(0, j as int),
        decreases n - j,
    {
        out.push(cs[j]);
        j = j + 1;
        proof {
            assert(out@ =~= cs@.subrange(0, j as int));
        }
    }
    string_of(&out)
}

/// The segments of `s` split at `sep`, empty segments kept.
pub open spec fn spec_split_rec(s: Seq<char>, sep: char, cur: Seq<char>) -> Seq<Seq<char>>
    decreases s.len(),
{
    if s.len() == 0 {
        seq![cur]
    } else if s[0] == sep {
        seq![cur] + spec_split_rec(s.drop_first(), sep, Seq::empty())
    } else {
        spec_split_rec(s.drop_first(), sep, cur.push(s[0]))
    }
}

pub open spec fn spec_split(s: Seq<char>, sep: char) -> Seq<Seq<char>> {
    spec_split_rec(s, sep, Seq::empty())
}

pub fn split_on(s: &str, sep: char) -> (r: Vec<String>)
    ensures
        crate::names::names_of(r@) == spec_split(s@, sep),
{
    let cs = chars_of(s);
    let n = cs.len();
    let mut out: Vec<String> = Vec::new();
    let mut cur: Vec<char> = Vec::new();
    let mut i: usize = 0;
    proof {
        assert(cs@.subrange(0, n as int) =~= s@);
        assert(crate::names::names_of(out@) =~= Seq::<Seq<char>>::empty());
        assert(cur@ =~= Seq::<char>::empty());
        assert(crate::names::names_of(out@) + spec_split_rec(s@, sep, cur@) =~= spec_split(
            s@,
            sep,
        ));
    }
    while i < n
        invariant
            cs@ == s@,
            n == cs@.len(),
            i <= n,
            crate::names::names_of(out@) + spec_split_rec(
                cs@.subrange(i as int, n as int),
                sep,
                cur@,
            ) == spec_split(s@, sep),
        decreases n - i,
    {
        let ghost rest = cs@.subrange(i as int, n as int);
        let ghost rest2 = cs@.subrange(i as int + 1, n as int);
        proof {
            assert(rest[0] == cs@[i as int]);
            assert(rest.drop_first() =~= rest2);
        }
        if cs[i] == sep {
            let seg = string_of(&cur);
            let ghost out0 = out@;
            let ghost curv = cur@;
            out.push(seg);
            cur = Vec::new();
            proof {
                assert(cur@ =~= Seq::<char>::empty());
                assert(crate::names::names_of(out@) =~= crate::names::names_of(out0).push(curv));
                assert(crate::names::names_of(out@) + spec_split_rec(rest2, sep, cur@)
                    =~= crate::names::names_of(out0) + (seq![curv] + spec_split_rec(
                    rest2,
                    sep,
                    Seq::empty(),
                )));
            }
        } else {
            cur.push(cs[i]);
        }
        i = i + 1;
    }
    let seg = string_of(&cur);
    let ghost out0 = out@;
    let ghost curv = cur@;
    out.push(seg);
    proof {
        assert(cs@.subrange(n as int, n as int) =~= Seq::<char>::empty());
        assert(crate::names::names_of(out@) =~= crate::names::names_of(out0).push(curv));
        assert(crate::names::names_of(out0) + spec_split_rec(Seq::empty(), sep, curv)
            =~= crate::names::names_of(out0) + seq![curv]);
        assert(crate::names::names_of(out0).push(curv) =~= crate::names::names_of(out0) + seq![
            curv,
        ]);
    }
    out
}

/// A path split at its last `/`: the directory part (nothing when the path
/// holds no `/`) and the file name after it.
pub open spec fn spec_split_path(s: Seq<char>) -> (Option<Seq<char>>, Seq<char>)
    decreases s.len(),
{
    if s.len() == 0 {
        (None, s)
    } else if s.last() == '/' {
        (Some(s.drop_last()), Seq::empty())
    } else {
        let rest = spec_split_path(s.drop_last());
        (rest.0, rest.1.push(s.last()))
    }
}

/// Splitting at the last `/` takes what stands before and after it.
proof fn lemma_split_path_at(s: Seq<char>, pos: int)
    requires
        0 <= pos < s.len(),
        s[pos] == '/',
        forall|k: int| pos < k < s.len() ==> s[k] != '/',
    ensures
        spec_split_path(s) == (
            Some(s.subrange(0, pos)),
            s.subrange(pos + 1, s.len() as int),
        ),
    decreases s.len() - pos,
{
    if pos == s.len() - 1 {
        assert(s.last() == '/');
        assert(s.drop_last() =~= s.subrange(0, pos));
        assert(Seq::<char>::empty() =~= s.subrange(pos + 1, s.len() as int));
    } else {
        assert(s.last() != '/');
        let t = s.drop_last();
        assert(t[pos] == '/');
        assert forall|k: int| pos < k < t.len() implies t[k] != '/' by {
            assert(t[k] == s[k]);
        }
        lemma_split_path_at(t, pos);
        assert(t.subrange(0, pos) =~= s.subrange(0, pos));
        assert(t.subrange(pos + 1, t.len() as int).push(s.last()) =~= s.subrange(
            pos + 1,
            s.len() as int,
        ));
    }
}

/// Without a `/`, the whole path is the file name.
proof fn lemma_split_path_none(s: Seq<char>)
    requires
        forall|k: int| 0 <= k < s.len() ==> s[k] != '/',
    ensures
        spec_split_path(s) == (None::<Seq<char>>, s),
    decreases s.len(),
{
    if s.len() > 0 {
        lemma_split_path_none(s.drop_last());
        assert(s.drop_last().push(s.last()) =~= s);
    }
}

/// Splits a path at its last `/` into its directory part, if any, and the
/// file name.
pub fn split_path(path: &str) -> (r: (Option<String>, String))
    ensures
        (crate::ir::opt_str_view(r.0), r.1@) == spec_split_path(path@),
{
    let cs = chars_of(path);
    let n = cs.len();
    let mut j: usize = n;
    while j > 0
        invariant
            cs@ == path@,
            n == cs@.len(),
            j <= n,
            forall|k: int| j <= k < n ==> cs@[k] != '/',
        decreases j,
    {
        if cs[j - 1] == '/' {
            let pos = j - 1;
            let dir = path.substring_char(0, pos).to_owned();
            let file = path.substring_char(pos + 1, n).to_owned();
            proof {
                lemma_split_path_at(path@, pos as int);
            }
            return (Some(dir), file);
        }
        j = j - 1;
    }
    proof {
        lemma_split_path_none(path@);
    }
    (None, path.to_owned())
}

/// A copy of an optional string.
pub fn opt_string_copy(s: &Option<String>) -> (r: Option<String>)
    ensures
        crate::ir::opt_str_view(r) == crate::ir::opt_str_view(*s),
{
    match s {
        Some(x) => Some(x.clone()),
        None => None,
    }
}

/// A fresh `String` holding `a + b`.
pub fn concat2(a: &str, b: &str) -> (r: String)
    ensures
        r@ == a@ + b@,
{
    let mut out = a.to_owned();
    out.append(b);
    out
}

} // verus!
