//! Ignore-file pattern handling for the directory lister: parsed lines,
//! pattern matching (exact names, simple `*` globs via a regular expression,
//! directory-only patterns, per-component matches), and the last-match-wins
//! rule with `!` negation.
//!
//! Paths are handled as `/`-separated strings relative to the walk root.

use vstd::prelude::*;

use crate::patterns::{regex_accepts, regex_is_match, regex_ok};
use crate::text::{
    chars_of, push_char, spec_ends_with, spec_split, spec_starts_with, spec_trim, split_on,
    str_ends_with, str_eq, string_of, trim_str,
};

verus! {

/// A parsed ignore line: the pattern and whether it is negated. Blank lines,
/// comments, and bare `!` parse to nothing.
pub open spec fn spec_parse_gitignore_line(s: Seq<char>) -> Option<(Seq<char>, bool)> {
    let t = spec_trim(s);
    if t.len() == 0 || t[0] == '#' {
        None
    } else {
        let stripped = if t[0] == '!' && t.len() > 1 {
            (spec_trim(t.drop_first()), true)
        } else {
            (t, false)
        };
        if stripped.0.len() == 0 || stripped.0 == "!"@ {
            None
        } else {
            Some(stripped)
        }
    }
}

/// Parses one ignore-file line into its pattern and negation flag.
pub fn parse_gitignore_line(line: &str) -> (r: Option<(String, bool)>)
    ensures
        match r {
            Some(p) => spec_parse_gitignore_line(line@) == Some((p.0@, p.1)),
            None => spec_parse_gitignore_line(line@) is None,
        },
{
    let t = trim_str(line);
    let n = t.as_str().unicode_len();
    if n == 0 {
        return None;
    }
    if t.as_str().get_char(0) == '#' {
        return None;
    }
    let (pattern, negated): (String, bool) = if t.as_str().get_char(0) == '!' && n > 1 {
        let rest = t.as_str().substring_char(1, n);
        proof {
            assert(rest@ =~= t@.drop_first());
        }
        (trim_str(rest), true)
    } else {
        (t, false)
    };
    if pattern.as_str().unicode_len() == 0 {
        return None;
    }
    if str_eq(pattern.as_str(), "!") {
        return None;
    }
    Some((pattern, negated))
}

/// The glob pattern as a regular expression body: `.` escaped, `*` widened.
pub open spec fn spec_glob_map(s: Seq<char>) -> Seq<char>
    decreases s.len(),
{
    if s.len() == 0 {
        Seq::empty()
    } else {
        (if s[0] == '.' {
            seq!['\\', '.']
        } else if s[0] == '*' {
            seq!['.', '*']
        } else {
            seq![s[0]]
        }) + spec_glob_map(s.drop_first())
    }
}

/// The anchored regular expression a glob pattern turns into.
pub open spec fn spec_glob_regex(s: Seq<char>) -> Seq<char> {
    seq!['^'] + spec_glob_map(s) + seq!['$']
}

fn glob_regex(s: &str) -> (r: String)
    ensures
        r@ == spec_glob_regex(s@),
{
    let cs = chars_of(s);
    let n = cs.len();
    let mut out: Vec<char> = Vec::new();
    out.push('^');
    let mut i: usize = 0;
    proof {
        assert(cs@.subrange(0, n as int) =~= s@);
        assert(out@ =~= seq!['^']);
    }
    while i < n
        invariant
            cs@ == s@,
            n == cs@.len(),
            i <= n,
            out@ + spec_glob_map(cs@.subrange(i as int, n as int)) == seq!['^'] + spec_glob_map(
                s@,
            ),
        decreases n - i,
    {
        let ghost rest = cs@.subrange(i as int, n as int);
        let ghost rest2 = cs@.subrange(i as int + 1, n as int);
        proof {
            assert(rest[0] == cs@[i as int]);
            assert(rest.drop_first() =~= rest2);
        }
        let c = cs[i];
        if c == '.' {
            out.push('\\');
            out.push('.');
        } else if c == '*' {
            out.push('.');
            out.push('*');
        } else {
            out.push(c);
        }
        proof {
            assert(out@ + spec_glob_map(rest2) =~= seq!['^'] + spec_glob_map(s@));
        }
        i = i + 1;
    }
    proof {
        assert(cs@.subrange(n as int, n as int) =~= Seq::<char>::empty());
        assert(out@ + Seq::<char>::empty() =~= out@);
        assert(out@.push('$') =~= spec_glob_regex(s@));
    }
    out.push('$');
    string_of(&out)
}

/// Whether the pattern holds a `*`.
pub open spec fn spec_has_star(s: Seq<char>) -> bool {
    exists|i: int| 0 <= i < s.len() && s[i] == '*'
}

fn has_star(s: &str) -> (r: bool)
    ensures
        r == spec_has_star(s@),
{
    let cs = chars_of(s);
    let mut i: usize = 0;
    while i < cs.len()
        invariant
            cs@ == s@,
            i <= cs@.len(),
            forall|j: int| 0 <= j < i ==> cs@[j] != '*',
        decreases cs@.len() - i,
    {
        if cs[i] == '*' {
            return true;
        }
        i = i + 1;
    }
    false
}

/// `s` without leading slashes.
pub open spec fn spec_trim_slashes(s: Seq<char>) -> Seq<char>
    decreases s.len(),
{
    if s.len() > 0 && s[0] == '/' {
        spec_trim_slashes(s.drop_first())
    } else {
        s
    }
}

fn trim_slashes(s: &str) -> (r: String)
    ensures
        r@ == spec_trim_slashes(s@),
{
    let cs = chars_of(s);
    let n = cs.len();
    let mut i: usize = 0;
    proof {
        assert(cs@.subrange(0, n as int) =~= s@);
    }
    while i < n && cs[i] == '/'
        invariant
            cs@ == s@,
            n == cs@.len(),
            i <= n,
            spec_trim_slashes(s@) == spec_trim_slashes(cs@.subrange(i as int, n as int)),
        decreases n - i,
    {
        let ghost rest = cs@.subrange(i as int, n as int);
        let ghost rest2 = cs@.subrange(i as int + 1, n as int);
        proof {
            assert(rest[0] == cs@[i as int]);
            assert(rest.drop_first() =~= rest2);
        }
        i = i + 1;
    }
    proof {
        let rest = cs@.subrange(i as int, n as int);
        if rest.len() > 0 {
            assert(rest[0] == cs@[i as int]);
        }
        assert(spec_trim_slashes(rest) == rest);
    }
    let mut out: Vec<char> = Vec::new();
    let mut j: usize = i;
    while j < n
        invariant
            cs@ == s@,
            n == cs@.len(),
            i <= j <= n,
            out@ == cs@.subrange(i as int, j as int),
        decreases n - j,
    {
        out.push(cs[j]);
        j = j + 1;
        proof {
            assert(out@ =~= cs@.subrange(i as int, j as int));
        }
    }
    string_of(&out)
}

/// Whether one path component matches the pattern: equal outright, or the
/// pattern is `*`-prefixed and the component ends with the remainder.
pub open spec fn spec_component_match(c: Seq<char>, p: Seq<char>) -> bool {
    c == p || (p.len() > 0 && p[0] == '*' && spec_ends_with(c, p.drop_first()))
}

/// Whether a pattern matches a path: a trailing `/` restricts the pattern to
/// directories; otherwise the path matches exactly, or through the glob's
/// regular expression (when the pattern holds a `*` and the expression
/// compiles), or by one of its `/`-components.
pub open spec fn spec_matches_gitignore(path: Seq<char>, pattern: Seq<char>, is_dir: bool) -> bool
    decreases pattern.len(),
{
    if pattern.len() > 0 && pattern.last() == '/' {
        is_dir && spec_matches_gitignore(path, pattern.drop_last(), true)
    } else {
        let stripped = if pattern.len() > 0 && pattern[0] == '/' {
            pattern.drop_first()
        } else {
            pattern
        };
        let exact = pattern == path || pattern == spec_trim_slashes(path);
        let rx = spec_glob_regex(stripped);
        let wild = spec_has_star(stripped) && regex_ok(rx) && regex_accepts(rx, path);
        let comps = spec_split(path, '/');
        let comp = exists|i: int|
            0 <= i < comps.len() && spec_component_match(comps[i], stripped);
        exact || wild || comp
    }
}

/// Decides whether a pattern matches a path.
pub fn matches_gitignore_pattern(path: &str, pattern: &str, is_dir: bool) -> (r: bool)
    ensures
        r == spec_matches_gitignore(path@, pattern@, is_dir),
    decreases pattern@.len(),
{
    let n = pattern.unicode_len();
    if n > 0 && pattern.get_char(n - 1) == '/' {
        if !is_dir {
            return false;
        }
        let head = pattern.substring_char(0, n - 1);
        proof {
            assert(head@ =~= pattern@.drop_last());
        }
        return matches_gitignore_pattern(path, head, true);
    }
    if str_eq(pattern, path) {
        return true;
    }
    let trimmed = trim_slashes(path);
    if str_eq(pattern, trimmed.as_str()) {
        return true;
    }
    let stripped: String = if n > 0 && pattern.get_char(0) == '/' {
        let t = pattern.substring_char(1, n);
        proof {
            assert(t@ =~= pattern@.drop_first());
        }
        t.to_owned()
    } else {
        pattern.to_owned()
    };
    if has_star(stripped.as_str()) {
        let rx = glob_regex(stripped.as_str());
        match regex_is_match(rx.as_str(), path) {
            Some(true) => {
                return true;
            },
            _ => {},
        }
    }
    let comps = split_on(path, '/');
    let ghost compv = spec_split(path@, '/');
    let mut i: usize = 0;
    while i < comps.len()
        invariant
            compv == spec_split(path@, '/'),
            compv == crate::names::names_of(comps@),
            i <= comps@.len(),
            !(pattern@.len() > 0 && pattern@.last() == '/'),
            stripped@ == (if pattern@.len() > 0 && pattern@[0] == '/' {
                pattern@.drop_first()
            } else {
                pattern@
            }),
            pattern@ != path@ && pattern@ != spec_trim_slashes(path@),
            !(spec_has_star(stripped@) && regex_ok(spec_glob_regex(stripped@)) && regex_accepts(
                spec_glob_regex(stripped@),
                path@,
            )),
            forall|j: int| 0 <= j < i ==> !spec_component_match(compv[j], stripped@),
        decreases comps@.len() - i,
    {
        proof {
            assert(compv[i as int] == comps@[i as int]@);
        }
        if str_eq(comps[i].as_str(), stripped.as_str()) {
            return true;
        }
        let sn = stripped.as_str().unicode_len();
        if sn > 0 && stripped.as_str().get_char(0) == '*' {
            let tail = stripped.as_str().substring_char(1, sn);
            proof {
                assert(tail@ =~= stripped@.drop_first());
            }
            if str_ends_with(comps[i].as_str(), tail) {
                return true;
            }
        }
        i = i + 1;
    }
    false
}

/// The path relative to a group's directory: the path itself for the root
/// group, the remainder after `dir/` when the path lies under `dir`, nothing
/// otherwise.
pub open spec fn spec_rel_path(path: Seq<char>, dir: Seq<char>) -> Option<Seq<char>> {
    if dir.len() == 0 {
        Some(path)
    } else if spec_starts_with(path, dir + seq!['/']) {
        Some(path.skip(dir.len() + 1 as int))
    } else {
        None
    }
}

/// One group's patterns applied in order: the last matching one decides,
/// negated matches un-ignoring.
pub open spec fn spec_group_fold(
    rel: Seq<char>,
    is_dir: bool,
    pats: Seq<(String, bool)>,
    acc: bool,
) -> bool
    decreases pats.len(),
{
    if pats.len() == 0 {
        acc
    } else {
        let acc2 = if spec_matches_gitignore(rel, pats[0].0@, is_dir) {
            !pats[0].1
        } else {
            acc
        };
        spec_group_fold(rel, is_dir, pats.drop_first(), acc2)
    }
}

/// All groups applied in order; a group whose directory does not enclose the
/// path is passed over.
pub open spec fn spec_is_ignored(
    path: Seq<char>,
    is_dir: bool,
    groups: Seq<(String, Vec<(String, bool)>)>,
    acc: bool,
) -> bool
    decreases groups.len(),
{
    if groups.len() == 0 {
        acc
    } else {
        let acc2 = match spec_rel_path(path, groups[0].0@) {
            None => acc,
            Some(rel) => spec_group_fold(rel, is_dir, groups[0].1@, acc),
        };
        spec_is_ignored(path, is_dir, groups.drop_first(), acc2)
    }
}

/// Decides whether a path is ignored under the collected pattern groups
/// (each a directory and its parsed ignore lines, outermost first). The last
/// matching pattern wins; a negated one un-ignores.
pub fn is_ignored(
    path: &str,
    is_dir: bool,
    groups: &Vec<(String, Vec<(String, bool)>)>,
) -> (r: bool)
    ensures
        r == spec_is_ignored(path@, is_dir, groups@, false),
{
    let mut acc = false;
    let mut i: usize = 0;
    proof {
        assert(groups@.subrange(0, groups@.len() as int) =~= groups@);
    }
    while i < groups.len()
        invariant
            i <= groups@.len(),
            spec_is_ignored(path@, is_dir, groups@, false) == spec_is_ignored(
                path@,
                is_dir,
                groups@.subrange(i as int, groups@.len() as int),
                acc,
            ),
        decreases groups@.len() - i,
    {
        let ghost rest = groups@.subrange(i as int, groups@.len() as int);
        let ghost rest2 = groups@.subrange(i as int + 1, groups@.len() as int);
        let ghost acc_entry = acc;
        proof {
            assert(rest[0] == groups@[i as int]);
            assert(rest.drop_first() =~= rest2);
        }
        let dir = &groups[i].0;
        let dn = dir.as_str().unicode_len();
        let rel: Option<String> = if dn == 0 {
            Some(path.to_owned())
        } else {
            let mut prefix = dir.clone();
            push_char(&mut prefix, '/');
            proof {
                assert(prefix@ =~= groups@[i as int].0@ + seq!['/']);
            }
            if crate::text::str_starts_with(path, prefix.as_str()) {
                let pn = path.unicode_len();
                proof {
                    assert(prefix@.len() == dn + 1);
                }
                let r = path.substring_char(dn + 1, pn);
                proof {
                    assert(r@ =~= path@.skip(dn + 1));
                }
                Some(r.to_owned())
            } else {
                None
            }
        };
        proof {
            match &rel {
                Some(rl) => {
                    assert(spec_rel_path(path@, groups@[i as int].0@) == Some(rl@));
                },
                None => {
                    assert(spec_rel_path(path@, groups@[i as int].0@) is None);
                },
            }
        }
        match rel {
            None => {
                proof {
                    assert(spec_is_ignored(path@, is_dir, rest, acc_entry) == spec_is_ignored(
                        path@,
                        is_dir,
                        rest2,
                        acc,
                    ));
                }
            },
            Some(rel) => {
                let ghost relv = rel@;
                let pats = &groups[i].1;
                let mut j: usize = 0;
                let ghost acc0 = acc;
                proof {
                    assert(pats@.subrange(0, pats@.len() as int) =~= pats@);
                }
                while j < pats.len()
                    invariant
                        j <= pats@.len(),
                        spec_group_fold(rel@, is_dir, pats@, acc0) == spec_group_fold(
                            rel@,
                            is_dir,
                            pats@.subrange(j as int, pats@.len() as int),
                            acc,
                        ),
                    decreases pats@.len() - j,
                {
                    let ghost prest = pats@.subrange(j as int, pats@.len() as int);
                    let ghost prest2 = pats@.subrange(j as int + 1, pats@.len() as int);
                    proof {
                        assert(prest[0] == pats@[j as int]);
                        assert(prest.drop_first() =~= prest2);
                    }
                    if matches_gitignore_pattern(rel.as_str(), pats[j].0.as_str(), is_dir) {
                        acc = !pats[j].1;
                    }
                    j = j + 1;
                }
                proof {
                    assert(pats@.subrange(pats@.len() as int, pats@.len() as int) =~= Seq::<
                        (String, bool),
                    >::empty());
                    assert(spec_group_fold(relv, is_dir, groups@[i as int].1@, acc0) == acc);
                    assert(spec_rel_path(path@, rest[0].0@) == Some(relv));
                    assert(spec_is_ignored(path@, is_dir, rest, acc_entry) == spec_is_ignored(
                        path@,
                        is_dir,
                        rest2,
                        acc,
                    ));
                }
            },
        }
        i = i + 1;
    }
    proof {
        assert(groups@.subrange(groups@.len() as int, groups@.len() as int) =~= Seq::<
            (String, Vec<(String, bool)>),
        >::empty());
    }
    acc
}

} // verus!
