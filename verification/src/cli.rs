//! Run configuration: the values a command line supplies, and the checks and
//! defaults that turn raw option values into a `Config`.

use vstd::prelude::*;

use crate::error::{Error, ErrorV};
use crate::names::spec_lower_char;
use crate::text::{chars_of, string_of};

verus! {

/// The language a run generates code for.
#[derive(Clone, Copy, Debug, PartialEq, Eq, Structural)]
pub enum Target {
    TypeScript,
    Rust,
}

/// A complete run configuration.
#[derive(Clone, Debug)]
pub struct Config {
    pub input_file: String,
    pub output_dir: String,
    pub server_name: Option<String>,
    pub language: Target,
    pub template_dir: Option<String>,
}

/// `s` lower-cased, ASCII letter by letter.
pub open spec fn spec_lower(s: Seq<char>) -> Seq<char>
    decreases s.len(),
{
    if s.len() == 0 {
        Seq::empty()
    } else {
        seq![spec_lower_char(s[0])] + spec_lower(s.drop_first())
    }
}

pub fn lower_str(s: &str) -> (r: String)
    ensures
        r@ == spec_lower(s@),
{
    let cs = chars_of(s);
    let n = cs.len();
    let mut out: Vec<char> = Vec::new();
    let mut i: usize = 0;
    proof {
        assert(cs@.subrange(0, n as int) =~= s@);
        assert(out@ + spec_lower(s@) =~= spec_lower(s@));
    }
    while i < n
        invariant
            cs@ == s@,
            n == cs@.len(),
            i <= n,
            out@ + spec_lower(cs@.subrange(i as int, n as int)) == spec_lower(s@),
        decreases n - i,
    {
        let ghost rest = cs@.subrange(i as int, n as int);
        let ghost rest2 = cs@.subrange(i as int + 1, n as int);
        proof {
            assert(rest[0] == cs@[i as int]);
            assert(rest.drop_first() =~= rest2);
        }
        out.push(crate::names::lower_char(cs[i]));
        proof {
            assert(out@ + spec_lower(rest2) =~= spec_lower(s@));
        }
        i = i + 1;
    }
    proof {
        assert(cs@.subrange(n as int, n as int) =~= Seq::<char>::empty());
        assert(out@ + Seq::<char>::empty() =~= out@);
    }
    string_of(&out)
}

/// The target a name denotes, case-insensitively: `typescript` or `ts`, or
/// `rust`.
pub open spec fn spec_parse_target(s: Seq<char>) -> Option<Target> {
    let l = spec_lower(s);
    if l == "typescript"@ || l == "ts"@ {
        Some(Target::TypeScript)
    } else if l == "rust"@ {
        Some(Target::Rust)
    } else {
        None
    }
}

/// Parses a target-language name.
pub fn parse_target(s: &str) -> (r: Option<Target>)
    ensures
        r == spec_parse_target(s@),
{
    let l = lower_str(s);
    if crate::text::str_eq(l.as_str(), "typescript") || crate::text::str_eq(l.as_str(), "ts") {
        Some(Target::TypeScript)
    } else if crate::text::str_eq(l.as_str(), "rust") {
        Some(Target::Rust)
    } else {
        None
    }
}

impl core::str::FromStr for Target {
    type Err = String;

    fn from_str(s: &str) -> Result<Self, String> {
        match parse_target(s) {
            Some(t) => Ok(t),
            None => Err(crate::text::concat2("Unknown target: ", s)),
        }
    }
}

/// What `parse_args` decides for given raw option values.
pub open spec fn spec_parse_args(
    input_file: Seq<char>,
    output_dir: Option<Seq<char>>,
    language: Option<Seq<char>>,
) -> Result<(Seq<char>, Seq<char>, Target), ErrorV> {
    let out = match output_dir {
        Some(o) => o,
        None => "./output"@,
    };
    let lang_text = match language {
        Some(l) => l,
        None => "typescript"@,
    };
    match spec_parse_target(lang_text) {
        Some(t) => Ok((input_file, out, t)),
        None => Err(ErrorV::Parse("Unknown target: "@ + lang_text)),
    }
}

/// Builds a run configuration from raw option values: the output directory
/// defaults to `./output`, the language to `typescript`; an unknown language
/// name is a parse error.
pub fn parse_args(
    input_file: String,
    output_dir: Option<String>,
    server_name: Option<String>,
    language: Option<String>,
    template_dir: Option<String>,
) -> (r: Result<Config, Error>)
    ensures
        match r {
            Ok(c) => {
                &&& spec_parse_args(
                    input_file@,
                    crate::ir::opt_str_view(output_dir),
                    crate::ir::opt_str_view(language),
                ) == Ok::<_, ErrorV>((c.input_file@, c.output_dir@, c.language))
                &&& crate::ir::opt_str_view(c.server_name) == crate::ir::opt_str_view(server_name)
                &&& crate::ir::opt_str_view(c.template_dir) == crate::ir::opt_str_view(
                    template_dir,
                )
            },
            Err(e) => spec_parse_args(
                input_file@,
                crate::ir::opt_str_view(output_dir),
                crate::ir::opt_str_view(language),
            ) == Err::<(Seq<char>, Seq<char>, Target), _>(e@),
        },
{
    let out = match output_dir {
        Some(o) => o,
        None => "./output".to_owned(),
    };
    let lang_text = match language {
        Some(l) => l,
        None => "typescript".to_owned(),
    };
    match parse_target(lang_text.as_str()) {
        Some(t) => Ok(
            Config {
                input_file,
                output_dir: out,
                server_name,
                language: t,
                template_dir,
            },
        ),
        None => Err(
            Error::Parse(crate::text::concat2("Unknown target: ", lang_text.as_str())),
        ),
    }
}

} // verus!
