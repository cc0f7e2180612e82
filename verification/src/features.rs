//! The conditional-block preprocessor for copied template text: paired
//! start/end marker lines delimit a feature's block; the markers are dropped,
//! and the block's lines are uncommented when the feature is wanted and
//! removed when it is not. Lines outside any block pass through unchanged.

use vstd::prelude::*;

use crate::error::{Error, ErrorV};
use crate::names::names_of;
use crate::text::{
    spec_replace_first, spec_starts_with, spec_trim, spec_trim_start, str_replace_first,
    str_starts_with, string_of, trim_start_str, trim_str,
};

verus! {

/// The feature flags the preprocessor knows.
#[derive(Clone, Debug, PartialEq, Eq, Structural)]
pub struct Features {
    pub auth: bool,
}

impl Features {
    /// A flag set with everything off.
    pub fn new() -> (r: Self)
        ensures
            !r.auth,
    {
        Features { auth: false }
    }
}

impl Default for Features {
    fn default() -> (r: Self)
        ensures
            !r.auth,
    {
        Features { auth: false }
    }
}

/// The feature a marker line names: the start and end tokens are stripped
/// once each and the remainder trimmed.
pub open spec fn spec_marker_name(line: Seq<char>) -> Seq<char> {
    spec_trim(
        spec_replace_first(
            spec_replace_first(line, "// START_OF"@, Seq::empty()),
            "// END_OF"@,
            Seq::empty(),
        ),
    )
}

/// The known feature names.
pub open spec fn spec_known_feature(name: Seq<char>) -> bool {
    name == "Features.Auth"@
}

fn marker_name(line: &str) -> (r: String)
    ensures
        r@ == spec_marker_name(line@),
{
    let a = str_replace_first(line, "// START_OF", "");
    proof {
        reveal_strlit("");
        assert(""@ =~= Seq::<char>::empty());
    }
    let b = str_replace_first(a.as_str(), "// END_OF", "");
    trim_str(b.as_str())
}

impl Features {
    /// Turns on the feature a start-marker line names; an unknown name is an
    /// error.
    pub fn enable_feature(&mut self, line: &str) -> (r: Result<(), Error>)
        ensures
            match r {
                Ok(()) => spec_known_feature(spec_marker_name(line@)) && *final(self)
                    == (Features { auth: true }),
                Err(e) => {
                    &&& !spec_known_feature(spec_marker_name(line@))
                    &&& e@ == ErrorV::Template("Unknown feature: "@ + spec_marker_name(line@))
                    &&& *final(self) == *old(self)
                },
            },
    {
        let name = marker_name(line);
        if crate::text::str_eq(name.as_str(), "Features.Auth") {
            self.auth = true;
            Ok(())
        } else {
            Err(Error::Template(crate::text::concat2("Unknown feature: ", name.as_str())))
        }
    }

    /// Turns off the feature an end-marker line names; an unknown name is an
    /// error.
    pub fn disable_feature(&mut self, line: &str) -> (r: Result<(), Error>)
        ensures
            match r {
                Ok(()) => spec_known_feature(spec_marker_name(line@)) && *final(self)
                    == (Features { auth: false }),
                Err(e) => {
                    &&& !spec_known_feature(spec_marker_name(line@))
                    &&& e@ == ErrorV::Template("Unknown feature: "@ + spec_marker_name(line@))
                    &&& *final(self) == *old(self)
                },
            },
    {
        let name = marker_name(line);
        if crate::text::str_eq(name.as_str(), "Features.Auth") {
            self.auth = false;
            Ok(())
        } else {
            Err(Error::Template(crate::text::concat2("Unknown feature: ", name.as_str())))
        }
    }
}

/// The lines of a text: each `\n` ends a line (a preceding `\r` is dropped);
/// a final unterminated segment is a line unless empty.
pub open spec fn spec_lines_rec(s: Seq<char>, cur: Seq<char>) -> Seq<Seq<char>>
    decreases s.len(),
{
    if s.len() == 0 {
        if cur.len() == 0 {
            Seq::empty()
        } else {
            seq![cur]
        }
    } else if s[0] == '\n' {
        seq![
            if cur.len() > 0 && cur.last() == '\r' {
                cur.drop_last()
            } else {
                cur
            },
        ] + spec_lines_rec(s.drop_first(), Seq::empty())
    } else {
        spec_lines_rec(s.drop_first(), cur.push(s[0]))
    }
}

pub open spec fn spec_lines(s: Seq<char>) -> Seq<Seq<char>> {
    spec_lines_rec(s, Seq::empty())
}

/// Splits a text into its lines.
pub fn split_lines(s: &str) -> (r: Vec<String>)
    ensures
        names_of(r@) == spec_lines(s@),
{
    let cs = crate::text::chars_of(s);
    let n = cs.len();
    let mut out: Vec<String> = Vec::new();
    let mut cur: Vec<char> = Vec::new();
    let mut i: usize = 0;
    proof {
        assert(cs@.subrange(0, n as int) =~= s@);
        assert(names_of(out@) =~= Seq::<Seq<char>>::empty());
        assert(cur@ =~= Seq::<char>::empty());
        assert(names_of(out@) + spec_lines_rec(s@, cur@) =~= spec_lines(s@));
    }
    while i < n
        invariant
            cs@ == s@,
            n == cs@.len(),
            i <= n,
            names_of(out@) + spec_lines_rec(cs@.subrange(i as int, n as int), cur@) == spec_lines(
                s@,
            ),
        decreases n - i,
    {
        let ghost rest = cs@.subrange(i as int, n as int);
        let ghost rest2 = cs@.subrange(i as int + 1, n as int);
        proof {
            assert(rest[0] == cs@[i as int]);
            assert(rest.drop_first() =~= rest2);
        }
        if cs[i] == '\n' {
            if cur.len() > 0 && cur[cur.len() - 1] == '\r' {
                cur.pop();
            }
            let seg = string_of(&cur);
            let ghost out0 = out@;
            let ghost curv = cur@;
            out.push(seg);
            cur = Vec::new();
            proof {
                assert(cur@ =~= Seq::<char>::empty());
                assert(names_of(out@) =~= names_of(out0).push(curv));
                assert(names_of(out@) + spec_lines_rec(rest2, cur@) =~= names_of(out0) + (seq![
                    curv,
                ] + spec_lines_rec(rest2, Seq::empty())));
            }
        } else {
            cur.push(cs[i]);
        }
        i = i + 1;
    }
    proof {
        assert(cs@.subrange(n as int, n as int) =~= Seq::<char>::empty());
    }
    if cur.len() > 0 {
        let seg = string_of(&cur);
        let ghost out0 = out@;
        let ghost curv = cur@;
        out.push(seg);
        proof {
            assert(names_of(out@) =~= names_of(out0).push(curv));
            assert(names_of(out0) + seq![curv] =~= names_of(out0).push(curv));
        }
    } else {
        proof {
            assert(names_of(out@) + Seq::<Seq<char>>::empty() =~= names_of(out@));
        }
    }
    out
}

/// The lines joined back with `\n`, no trailing newline.
pub open spec fn spec_join(lines: Seq<Seq<char>>) -> Seq<char>
    decreases lines.len(),
{
    if lines.len() == 0 {
        Seq::empty()
    } else if lines.len() == 1 {
        lines[0]
    } else {
        lines[0] + seq!['\n'] + spec_join(lines.drop_first())
    }
}

/// Joins lines with `\n`.
pub fn join_lines(lines: &Vec<String>) -> (r: String)
    ensures
        r@ == spec_join(names_of(lines@)),
{
    let mut out = String::new();
    let mut i: usize = 0;
    proof {
        assert(names_of(lines@).subrange(0, names_of(lines@).len() as int) =~= names_of(lines@));
        assert(out@ =~= Seq::<char>::empty());
    }
    if lines.len() == 0 {
        return out;
    }
    out.append(lines[0].as_str());
    proof {
        assert(names_of(lines@)[0] == lines@[0]@);
    }
    let mut i: usize = 1;
    while i < lines.len()
        invariant
            1 <= i <= lines@.len(),
            out@ == spec_join(names_of(lines@).subrange(0, i as int)),
        decreases lines@.len() - i,
    {
        crate::text::push_char(&mut out, '\n');
        out.append(lines[i].as_str());
        proof {
            assert(names_of(lines@)[i as int] == lines@[i as int]@);
            lemma_join_snoc(names_of(lines@).subrange(0, i as int), lines@[i as int]@);
            assert(names_of(lines@).subrange(0, i as int).push(lines@[i as int]@)
                =~= names_of(lines@).subrange(0, i + 1));
        }
        i = i + 1;
    }
    proof {
        assert(names_of(lines@).subrange(0, lines@.len() as int) =~= names_of(lines@));
    }
    out
}

/// Joining one more line appends a newline and the line.
proof fn lemma_join_snoc(lines: Seq<Seq<char>>, last: Seq<char>)
    requires
        lines.len() >= 1,
    ensures
        spec_join(lines.push(last)) == spec_join(lines) + seq!['\n'] + last,
    decreases lines.len(),
{
    let whole = lines.push(last);
    if lines.len() == 1 {
        assert(whole.drop_first() =~= seq![last]);
        assert(spec_join(whole) == whole[0] + seq!['\n'] + spec_join(whole.drop_first()));
    } else {
        lemma_join_snoc(lines.drop_first(), last);
        assert(whole.drop_first() =~= lines.drop_first().push(last));
        assert(spec_join(whole) == whole[0] + seq!['\n'] + spec_join(lines.drop_first().push(last)));
        assert(lines[0] + seq!['\n'] + (spec_join(lines.drop_first()) + seq!['\n'] + last)
            =~= (lines[0] + seq!['\n'] + spec_join(lines.drop_first())) + seq!['\n'] + last);
    }
}

/// Outcome of preprocessing a line list.
pub enum LinesOutcome {
    Lines(Seq<Seq<char>>),
    Fail(ErrorV),
}

/// One pass over the lines: marker lines switch the active block and are
/// dropped; inside an active block a wanted feature's lines lose their first
/// `// ` and an unwanted feature's lines are dropped; other lines pass
/// through; an unknown feature name fails.
pub open spec fn spec_process(lines: Seq<Seq<char>>, want_auth: bool, active: bool) -> LinesOutcome
    decreases lines.len(),
{
    if lines.len() == 0 {
        LinesOutcome::Lines(Seq::empty())
    } else {
        let line = lines[0];
        let t = spec_trim_start(line);
        if spec_starts_with(t, "// START_OF"@) {
            if spec_known_feature(spec_marker_name(line)) {
                spec_process(lines.drop_first(), want_auth, true)
            } else {
                LinesOutcome::Fail(
                    ErrorV::Template("Unknown feature: "@ + spec_marker_name(line)),
                )
            }
        } else if spec_starts_with(t, "// END_OF"@) {
            if spec_known_feature(spec_marker_name(line)) {
                spec_process(lines.drop_first(), want_auth, false)
            } else {
                LinesOutcome::Fail(
                    ErrorV::Template("Unknown feature: "@ + spec_marker_name(line)),
                )
            }
        } else if active {
            if want_auth {
                match spec_process(lines.drop_first(), want_auth, active) {
                    LinesOutcome::Lines(rest) => LinesOutcome::Lines(
                        seq![spec_replace_first(line, "// "@, Seq::empty())] + rest,
                    ),
                    fail => fail,
                }
            } else {
                spec_process(lines.drop_first(), want_auth, active)
            }
        } else {
            match spec_process(lines.drop_first(), want_auth, active) {
                LinesOutcome::Lines(rest) => LinesOutcome::Lines(seq![line] + rest),
                fail => fail,
            }
        }
    }
}

/// The preprocessor's result on a whole text.
pub open spec fn spec_handle_features(want_auth: bool, input: Seq<char>) -> LinesOutcome {
    spec_process(spec_lines(input), want_auth, false)
}

/// Applies the feature blocks of `input`: markers are dropped, a wanted
/// block's lines are uncommented once, an unwanted block's lines are removed,
/// and the result is the remaining lines joined with newlines. An unknown
/// feature name in a marker is an error.
pub fn handle_template_features(needed: &Features, input: &str) -> (r: Result<String, Error>)
    ensures
        match r {
            Ok(s) => spec_handle_features(needed.auth, input@) matches LinesOutcome::Lines(ls)
                && s@ == spec_join(ls),
            Err(e) => spec_handle_features(needed.auth, input@) == LinesOutcome::Fail(e@),
        },
{
    let lines = split_lines(input);
    let ghost all = names_of(lines@);
    let mut active = Features::new();
    let mut out: Vec<String> = Vec::new();
    let mut i: usize = 0;
    proof {
        assert(all.subrange(0, all.len() as int) =~= all);
        assert(names_of(out@) =~= Seq::<Seq<char>>::empty());
    }
    while i < lines.len()
        invariant
            i <= lines@.len(),
            all == names_of(lines@),
            all == spec_lines(input@),
            match spec_process(all.subrange(i as int, all.len() as int), needed.auth, active.auth) {
                LinesOutcome::Lines(rest) => spec_process(all, needed.auth, false)
                    == LinesOutcome::Lines(names_of(out@) + rest),
                LinesOutcome::Fail(e) => spec_process(all, needed.auth, false)
                    == LinesOutcome::Fail(e),
            },
        decreases lines@.len() - i,
    {
        let ghost rest = all.subrange(i as int, all.len() as int);
        let ghost rest2 = all.subrange(i as int + 1, all.len() as int);
        proof {
            assert(rest[0] == all[i as int]);
            assert(all[i as int] == lines@[i as int]@);
            assert(rest.drop_first() =~= rest2);
        }
        let line = &lines[i];
        let t = trim_start_str(line.as_str());
        if str_starts_with(t.as_str(), "// START_OF") {
            match active.enable_feature(line.as_str()) {
                Ok(()) => {},
                Err(e) => {
                    return Err(e);
                },
            }
        } else if str_starts_with(t.as_str(), "// END_OF") {
            match active.disable_feature(line.as_str()) {
                Ok(()) => {},
                Err(e) => {
                    return Err(e);
                },
            }
        } else if active.auth {
            if needed.auth {
                proof {
                    reveal_strlit("");
                    assert(""@ =~= Seq::<char>::empty());
                }
                let replaced = str_replace_first(line.as_str(), "// ", "");
                let ghost out0 = out@;
                let ghost rv = replaced@;
                out.push(replaced);
                proof {
                    assert(names_of(out@) =~= names_of(out0).push(rv));
                    match spec_process(rest2, needed.auth, active.auth) {
                        LinesOutcome::Lines(tail) => {
                            assert(names_of(out@) + tail =~= names_of(out0) + (seq![rv] + tail));
                        },
                        LinesOutcome::Fail(_) => {},
                    }
                }
            }
        } else {
            let ghost out0 = out@;
            let ghost lv = line@;
            out.push(line.clone());
            proof {
                assert(names_of(out@) =~= names_of(out0).push(lv));
                match spec_process(rest2, needed.auth, active.auth) {
                    LinesOutcome::Lines(tail) => {
                        assert(names_of(out@) + tail =~= names_of(out0) + (seq![lv] + tail));
                    },
                    LinesOutcome::Fail(_) => {},
                }
            }
        }
        i = i + 1;
    }
    proof {
        assert(all.subrange(all.len() as int, all.len() as int) =~= Seq::<Seq<char>>::empty());
        assert(names_of(out@) + Seq::<Seq<char>>::empty() =~= names_of(out@));
    }
    Ok(join_lines(&out))
}

} // verus!
