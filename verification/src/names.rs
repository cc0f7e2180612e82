//! Naming policy: sanitizing paths (lower-cased, for tool names) and wire
//! names (case kept, for property names) into identifier-safe tokens, and
//! disambiguating colliding property names with the smallest unused numeric
//! suffix.

use vstd::prelude::*;

use crate::ir::HttpMethod;
use crate::text::{chars_of, push_char, string_of};

verus! {

/// More properties than one tool can ever hold: the bound only keeps the
/// suffix search's candidate numbers within the machine's integer range.
pub const MAX_PROPERTIES: usize = usize::MAX - 2;

/// Characters kept by sanitization: ASCII letters and digits.
pub open spec fn spec_is_alnum(c: char) -> bool {
    ('a' <= c && c <= 'z') || ('A' <= c && c <= 'Z') || ('0' <= c && c <= '9')
}

pub fn is_alnum(c: char) -> (r: bool)
    ensures
        r == spec_is_alnum(c),
{
    ('a' <= c && c <= 'z') || ('A' <= c && c <= 'Z') || ('0' <= c && c <= '9')
}

/// ASCII upper-case letters folded to lower case; everything else unchanged.
pub open spec fn spec_lower_char(c: char) -> char {
    if 'A' <= c && c <= 'Z' {
        (((c as u32) + 32) as u8) as char
    } else {
        c
    }
}

pub fn lower_char(c: char) -> (r: char)
    ensures
        r == spec_lower_char(c),
{
    if 'A' <= c && c <= 'Z' {
        let u: u32 = c as u32;
        let b: u8 = (u + 32) as u8;
        b as char
    } else {
        c
    }
}

/// One pass over the text: brace markers vanish outright, letters and digits
/// are kept (lower-cased when `fold` is set), and any other characters become
/// at most one `_` between tokens. `emitted` records whether a token
/// character has been produced already, `gap` whether a separator was seen
/// since.
pub open spec fn spec_collapse(s: Seq<char>, emitted: bool, gap: bool, fold: bool) -> Seq<char>
    decreases s.len(),
{
    if s.len() == 0 {
        Seq::empty()
    } else if s[0] == '{' || s[0] == '}' {
        spec_collapse(s.drop_first(), emitted, gap, fold)
    } else if spec_is_alnum(s[0]) {
        (if emitted && gap {
            seq!['_']
        } else {
            Seq::empty()
        }) + seq![
            if fold {
                spec_lower_char(s[0])
            } else {
                s[0]
            },
        ] + spec_collapse(s.drop_first(), true, false, fold)
    } else {
        spec_collapse(s.drop_first(), emitted, true, fold)
    }
}

/// Tool-name sanitization: braces stripped, runs of other non-alphanumeric
/// characters collapsed to a single `_` between tokens, tokens lower-cased,
/// no leading or trailing `_`.
pub open spec fn spec_sanitize(s: Seq<char>) -> Seq<char> {
    spec_collapse(s, false, false, true)
}

/// Property-name sanitization: as for tool names, but the wire spelling's
/// letter case is kept.
pub open spec fn spec_sanitize_name(s: Seq<char>) -> Seq<char> {
    spec_collapse(s, false, false, false)
}

fn collapse(s: &str, fold: bool) -> (r: String)
    ensures
        r@ == spec_collapse(s@, false, false, fold),
{
    let cs = chars_of(s);
    let n = cs.len();
    let mut out: Vec<char> = Vec::new();
    let mut emitted = false;
    let mut gap = false;
    let mut i: usize = 0;
    proof {
        assert(cs@.subrange(0, n as int) =~= s@);
        assert(Seq::<char>::empty() + spec_collapse(s@, false, false, fold) =~= spec_collapse(
            s@,
            false,
            false,
            fold,
        ));
    }
    while i < n
        invariant
            cs@ == s@,
            n == cs@.len(),
            i <= n,
            out@ + spec_collapse(cs@.subrange(i as int, n as int), emitted, gap, fold)
                == spec_collapse(s@, false, false, fold),
        decreases n - i,
    {
        let c = cs[i];
        let ghost rest = cs@.subrange(i as int, n as int);
        let ghost rest2 = cs@.subrange(i as int + 1, n as int);
        proof {
            assert(rest[0] == c);
            assert(rest.drop_first() =~= rest2);
        }
        if c == '{' || c == '}' {
            // stripped without acting as a separator
        } else if is_alnum(c) {
            let kept = if fold {
                lower_char(c)
            } else {
                c
            };
            if emitted && gap {
                out.push('_');
                out.push(kept);
                proof {
                    assert(out@ + spec_collapse(rest2, true, false, fold) =~= spec_collapse(
                        s@,
                        false,
                        false,
                        fold,
                    ));
                }
            } else {
                out.push(kept);
                proof {
                    assert(out@ + spec_collapse(rest2, true, false, fold) =~= spec_collapse(
                        s@,
                        false,
                        false,
                        fold,
                    ));
                }
            }
            emitted = true;
            gap = false;
        } else {
            gap = true;
        }
        i = i + 1;
    }
    proof {
        assert(cs@.subrange(n as int, n as int) =~= Seq::<char>::empty());
        assert(out@ + Seq::<char>::empty() =~= out@);
    }
    string_of(&out)
}

pub fn sanitize(s: &str) -> (r: String)
    ensures
        r@ == spec_sanitize(s@),
{
    collapse(s, true)
}

pub fn sanitize_name(s: &str) -> (r: String)
    ensures
        r@ == spec_sanitize_name(s@),
{
    collapse(s, false)
}

/// The derived name of a tool: lower-case method, `_`, sanitized path.
pub open spec fn spec_tool_name(method: HttpMethod, path: Seq<char>) -> Seq<char> {
    method.spec_lower_name() + seq!['_'] + spec_sanitize(path)
}

pub fn tool_name(method: HttpMethod, path: &str) -> (r: String)
    ensures
        r@ == spec_tool_name(method, path@),
{
    let mut out = method.lower_name().to_owned();
    let sane = sanitize(path);
    push_char(&mut out, '_');
    out.append(sane.as_str());
    proof {
        assert(out@ =~= spec_tool_name(method, path@));
    }
    out
}

/// Decimal rendering of a number.
pub open spec fn spec_dec(n: nat) -> Seq<char>
    decreases n,
{
    let digit = (((n % 10) + 48) as u8) as char;
    if n < 10 {
        seq![digit]
    } else {
        spec_dec(n / 10) + seq![digit]
    }
}

pub fn dec_u64(n: u64) -> (r: String)
    ensures
        r@ == spec_dec(n as nat),
    decreases n,
{
    let d: u8 = ((n % 10) + 48) as u8;
    if n < 10 {
        let mut out = String::new();
        push_char(&mut out, d as char);
        proof {
            assert(out@ =~= spec_dec(n as nat));
        }
        out
    } else {
        let mut out = dec_u64(n / 10);
        push_char(&mut out, d as char);
        proof {
            assert((n / 10) as nat == (n as nat) / 10);
            assert(out@ =~= spec_dec(n as nat));
        }
        out
    }
}

/// Whether some entry of `used` holds exactly the characters `n`.
pub open spec fn spec_contains_name(used: Seq<String>, n: Seq<char>) -> bool {
    exists|i: int| 0 <= i < used.len() && used[i]@ == n
}

/// The character sequences of a list of strings.
pub open spec fn names_of(s: Seq<String>) -> Seq<Seq<char>> {
    s.map_values(|x: String| x@)
}

/// Whether `n` is among `used`.
pub open spec fn spec_name_taken(used: Seq<Seq<char>>, n: Seq<char>) -> bool {
    exists|i: int| 0 <= i < used.len() && used[i] == n
}

pub fn contains_name(used: &Vec<String>, n: &str) -> (r: bool)
    ensures
        r == spec_contains_name(used@, n@),
{
    let mut i: usize = 0;
    while i < used.len()
        invariant
            i <= used@.len(),
            forall|j: int| 0 <= j < i ==> used@[j]@ != n@,
        decreases used@.len() - i,
    {
        if crate::text::str_eq(used[i].as_str(), n) {
            return true;
        }
        i = i + 1;
    }
    false
}

pub fn name_taken(used: &Vec<String>, n: &str) -> (r: bool)
    ensures
        r == spec_name_taken(names_of(used@), n@),
{
    let mut i: usize = 0;
    while i < used.len()
        invariant
            i <= used@.len(),
            forall|j: int| 0 <= j < i ==> names_of(used@)[j] != n@,
        decreases used@.len() - i,
    {
        proof {
            assert(names_of(used@)[i as int] == used@[i as int]@);
        }
        if crate::text::str_eq(used[i].as_str(), n) {
            return true;
        }
        i = i + 1;
    }
    false
}

/// `base` with the suffix `_k`.
pub open spec fn spec_suffixed(base: Seq<char>, k: nat) -> Seq<char> {
    base + seq!['_'] + spec_dec(k)
}

/// The first `k` at or after `k0` whose suffixed name is unused, checking
/// `fuel + 1` candidates; when all of them are taken the last one is
/// returned as it is.
pub open spec fn spec_free_suffix(used: Seq<Seq<char>>, base: Seq<char>, k0: nat, fuel: nat) -> nat
    decreases fuel,
{
    if fuel == 0 || !spec_name_taken(used, spec_suffixed(base, k0)) {
        k0
    } else {
        spec_free_suffix(used, base, (k0 + 1) as nat, (fuel - 1) as nat)
    }
}

/// The collision policy: a name that is not yet used stands as it is; a used
/// one gets the smallest unused numeric suffix, starting at `_2`.
pub open spec fn spec_unique_name(used: Seq<Seq<char>>, base: Seq<char>) -> Seq<char> {
    if !spec_name_taken(used, base) {
        base
    } else {
        spec_suffixed(base, spec_free_suffix(used, base, 2, used.len() + 1))
    }
}

/// A decimal rendering is never empty.
proof fn lemma_dec_nonempty(n: nat)
    ensures
        spec_dec(n).len() >= 1,
    decreases n,
{
}

/// Distinct numbers render to distinct decimal texts.
proof fn lemma_dec_injective(a: nat, b: nat)
    requires
        spec_dec(a) == spec_dec(b),
    ensures
        a == b,
    decreases a,
{
    lemma_dec_nonempty(a / 10);
    lemma_dec_nonempty(b / 10);
    if a < 10 && b < 10 {
        assert(spec_dec(a)[0] == spec_dec(b)[0]);
        assert(spec_dec(a)[0] == ((((a % 10) + 48) as u8) as char));
        assert(spec_dec(b)[0] == ((((b % 10) + 48) as u8) as char));
        assert(((((a % 10) + 48) as u8) as char) as u32 == ((a % 10) + 48) as u8 as u32);
        assert(((((b % 10) + 48) as u8) as char) as u32 == ((b % 10) + 48) as u8 as u32);
        assert(a % 10 == b % 10);
        assert(a == a % 10 && b == b % 10);
    } else if a < 10 {
        assert(spec_dec(a).len() == 1);
        assert(spec_dec(b).len() >= 2);
    } else if b < 10 {
        assert(spec_dec(b).len() == 1);
        assert(spec_dec(a).len() >= 2);
    } else {
        assert(spec_dec(a).last() == spec_dec(b).last());
        assert(spec_dec(a).last() == ((((a % 10) + 48) as u8) as char));
        assert(spec_dec(b).last() == ((((b % 10) + 48) as u8) as char));
        assert(((((a % 10) + 48) as u8) as char) as u32 == ((a % 10) + 48) as u8 as u32);
        assert(((((b % 10) + 48) as u8) as char) as u32 == ((b % 10) + 48) as u8 as u32);
        assert(a % 10 == b % 10);
        assert(spec_dec(a).drop_last() =~= spec_dec(a / 10));
        assert(spec_dec(b).drop_last() =~= spec_dec(b / 10));
        lemma_dec_injective(a / 10, b / 10);
        assert(a == (a / 10) * 10 + a % 10) by {
            vstd::arithmetic::div_mod::lemma_fundamental_div_mod(a as int, 10);
        }
        assert(b == (b / 10) * 10 + b % 10) by {
            vstd::arithmetic::div_mod::lemma_fundamental_div_mod(b as int, 10);
        }
    }
}

/// Distinct suffixes make distinct suffixed names.
proof fn lemma_suffixed_injective(base: Seq<char>, k1: nat, k2: nat)
    requires
        spec_suffixed(base, k1) == spec_suffixed(base, k2),
    ensures
        k1 == k2,
{
    let s1 = spec_suffixed(base, k1);
    let s2 = spec_suffixed(base, k2);
    assert(s1.subrange(base.len() as int + 1, s1.len() as int) =~= spec_dec(k1));
    assert(s2.subrange(base.len() as int + 1, s2.len() as int) =~= spec_dec(k2));
    lemma_dec_injective(k1, k2);
}

/// How many entries of `used` carry a suffix of `base` at or after `k0`.
spec fn num_suffixed(used: Seq<Seq<char>>, base: Seq<char>, k0: nat) -> nat
    decreases used.len(),
{
    if used.len() == 0 {
        0
    } else {
        (if exists|k: nat| k >= k0 && used[0] == spec_suffixed(base, k) {
            1nat
        } else {
            0nat
        }) + num_suffixed(used.drop_first(), base, k0)
    }
}

/// No more entries can carry suffixes than there are entries.
proof fn lemma_num_suffixed_bound(used: Seq<Seq<char>>, base: Seq<char>, k0: nat)
    ensures
        num_suffixed(used, base, k0) <= used.len(),
    decreases used.len(),
{
    if used.len() > 0 {
        lemma_num_suffixed_bound(used.drop_first(), base, k0);
    }
}

/// Ruling out the smallest suffix drops the count by one when some entry
/// carries exactly that suffix.
proof fn lemma_num_suffixed_step(used: Seq<Seq<char>>, base: Seq<char>, k0: nat)
    requires
        spec_name_taken(used, spec_suffixed(base, k0)),
    ensures
        num_suffixed(used, base, (k0 + 1) as nat) < num_suffixed(used, base, k0),
    decreases used.len(),
{
    lemma_num_suffixed_mono(used.drop_first(), base, k0);
    if used[0] == spec_suffixed(base, k0) {
        assert forall|k: nat| k >= k0 + 1 implies used[0] != spec_suffixed(base, k) by {
            if used[0] == spec_suffixed(base, k) {
                lemma_suffixed_injective(base, k0, k);
            }
        }
        assert(exists|k: nat| k >= k0 && used[0] == spec_suffixed(base, k));
    } else {
        let i = choose|i: int| 0 <= i < used.len() && used[i] == spec_suffixed(base, k0);
        assert(used.drop_first()[i - 1] == spec_suffixed(base, k0));
        assert(spec_name_taken(used.drop_first(), spec_suffixed(base, k0)));
        lemma_num_suffixed_step(used.drop_first(), base, k0);
    }
}

/// The count can only shrink as the smallest admitted suffix grows.
proof fn lemma_num_suffixed_mono(used: Seq<Seq<char>>, base: Seq<char>, k0: nat)
    ensures
        num_suffixed(used, base, (k0 + 1) as nat) <= num_suffixed(used, base, k0),
    decreases used.len(),
{
    if used.len() > 0 {
        lemma_num_suffixed_mono(used.drop_first(), base, k0);
        if exists|k: nat| k >= k0 + 1 && used[0] == spec_suffixed(base, k) {
            let k = choose|k: nat| k >= k0 + 1 && used[0] == spec_suffixed(base, k);
            assert(k >= k0 && used[0] == spec_suffixed(base, k));
        }
    }
}

/// The bounded search finds a free suffix whenever the fuel covers the number
/// of suffixes still taken.
proof fn lemma_free_suffix_fresh(used: Seq<Seq<char>>, base: Seq<char>, k0: nat, fuel: nat)
    requires
        fuel >= num_suffixed(used, base, k0),
    ensures
        !spec_name_taken(used, spec_suffixed(base, spec_free_suffix(used, base, k0, fuel))),
    decreases fuel,
{
    if spec_name_taken(used, spec_suffixed(base, k0)) {
        lemma_num_suffixed_step(used, base, k0);
        if fuel == 0 {
            // impossible: some entry carries a suffix at or after `k0`
            let i = choose|i: int| 0 <= i < used.len() && used[i] == spec_suffixed(base, k0);
            lemma_num_suffixed_at(used, base, k0, i);
        } else {
            lemma_free_suffix_fresh(used, base, (k0 + 1) as nat, (fuel - 1) as nat);
        }
    }
}

/// An entry carrying a suffix at or after `k0` makes the count positive.
proof fn lemma_num_suffixed_at(used: Seq<Seq<char>>, base: Seq<char>, k0: nat, i: int)
    requires
        0 <= i < used.len(),
        used[i] == spec_suffixed(base, k0),
    ensures
        num_suffixed(used, base, k0) >= 1,
    decreases used.len(),
{
    if i == 0 {
        assert(exists|k: nat| k >= k0 && used[0] == spec_suffixed(base, k));
    } else {
        assert(used.drop_first()[i - 1] == spec_suffixed(base, k0));
        lemma_num_suffixed_at(used.drop_first(), base, k0, i - 1);
    }
}

/// Freshness: the collision policy never hands out a name that is already
/// taken.
pub proof fn lemma_unique_name_fresh(used: Seq<Seq<char>>, base: Seq<char>)
    ensures
        !spec_name_taken(used, spec_unique_name(used, base)),
{
    if spec_name_taken(used, base) {
        lemma_num_suffixed_bound(used, base, 2);
        lemma_free_suffix_fresh(used, base, 2, used.len() + 1);
    }
}

pub fn unique_name(used: &Vec<String>, base: &str) -> (r: String)
    requires
        used@.len() < MAX_PROPERTIES,
    ensures
        r@ == spec_unique_name(names_of(used@), base@),
{
    if !name_taken(used, base) {
        return base.to_owned();
    }
    let mut k: usize = 2;
    let mut fuel: usize = used.len() + 1;
    proof {
        assert(names_of(used@).len() == used@.len());
    }
    loop
        invariant
            used@.len() < MAX_PROPERTIES,
            1 <= fuel <= used@.len() + 1,
            k == 2 + (used@.len() + 1 - fuel),
            names_of(used@).len() == used@.len(),
            spec_name_taken(names_of(used@), base@),
            spec_free_suffix(names_of(used@), base@, 2, names_of(used@).len() + 1)
                == spec_free_suffix(names_of(used@), base@, k as nat, fuel as nat),
        decreases fuel,
    {
        let mut cand = base.to_owned();
        push_char(&mut cand, '_');
        let digits = dec_u64(k as u64);
        cand.append(digits.as_str());
        proof {
            assert(cand@ =~= spec_suffixed(base@, k as nat));
        }
        let taken = name_taken(used, cand.as_str());
        if fuel == 1 || !taken {
            proof {
                if !taken {
                    assert(spec_free_suffix(names_of(used@), base@, k as nat, fuel as nat)
                        == k as nat);
                } else {
                    assert(fuel == 1);
                    assert(spec_free_suffix(names_of(used@), base@, k as nat, 1)
                        == spec_free_suffix(names_of(used@), base@, (k + 1) as nat, 0));
                    assert(spec_free_suffix(names_of(used@), base@, (k + 1) as nat, 0) == (k
                        + 1) as nat);
                }
            }
            if taken {
                // the bounded search is exhausted: take the next candidate
                let mut last = base.to_owned();
                push_char(&mut last, '_');
                let digits2 = dec_u64(k as u64 + 1);
                last.append(digits2.as_str());
                proof {
                    assert(last@ =~= spec_suffixed(base@, (k + 1) as nat));
                    assert(last@ =~= spec_unique_name(names_of(used@), base@));
                }
                return last;
            }
            proof {
                assert(cand@ =~= spec_unique_name(names_of(used@), base@));
            }
            return cand;
        }
        k = k + 1;
        fuel = fuel - 1;
    }
}

} // verus!
