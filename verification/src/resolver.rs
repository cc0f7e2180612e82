//! Reference resolution: a `#/components/...` pointer names a component-table
//! entry by its last path segment; an entry may itself be a reference. The
//! chase is bounded by the table's size, so a reference cycle is reported as
//! an error instead of recursing without end.

use vstd::prelude::*;

use crate::document::{ApiParameter, ApiRequestBody, PathItem, RefOr, Schema, SecurityScheme};
use crate::error::{Error, ErrorV};
use crate::text::{chars_of, string_of};

verus! {

/// Outcome of chasing one reference chain.
pub enum Resolved<T> {
    /// The chain ends at this item.
    Found(T),
    /// Some link names a component that is not in the table; the link's full
    /// reference string is carried.
    NotFound(Seq<char>),
    /// The chain is longer than the table, so it must revisit an entry; the
    /// last reference string followed is carried.
    Cycle(Seq<char>),
}

/// What stands after the last `/` of a reference string (the whole string if
/// it holds no `/`): the component name the reference points at.
pub open spec fn spec_seg_after(s: Seq<char>, cur: Seq<char>) -> Seq<char>
    decreases s.len(),
{
    if s.len() == 0 {
        cur
    } else if s[0] == '/' {
        spec_seg_after(s.drop_first(), Seq::empty())
    } else {
        spec_seg_after(s.drop_first(), cur.push(s[0]))
    }
}

pub open spec fn spec_last_segment(s: Seq<char>) -> Seq<char> {
    spec_seg_after(s, Seq::empty())
}

pub fn last_segment(s: &str) -> (r: String)
    ensures
        r@ == spec_last_segment(s@),
{
    let cs = chars_of(s);
    let n = cs.len();
    let mut cur: Vec<char> = Vec::new();
    let mut i: usize = 0;
    proof {
        assert(cs@.subrange(0, n as int) =~= s@);
        assert(cur@ =~= Seq::<char>::empty());
    }
    while i < n
        invariant
            cs@ == s@,
            n == cs@.len(),
            i <= n,
            spec_seg_after(cs@.subrange(i as int, n as int), cur@) == spec_last_segment(s@),
        decreases n - i,
    {
        let ghost rest = cs@.subrange(i as int, n as int);
        let ghost rest2 = cs@.subrange(i as int + 1, n as int);
        proof {
            assert(rest[0] == cs@[i as int]);
            assert(rest.drop_first() =~= rest2);
        }
        if cs[i] == '/' {
            cur = Vec::new();
            proof {
                assert(cur@ =~= Seq::<char>::empty());
            }
        } else {
            cur.push(cs[i]);
        }
        i = i + 1;
    }
    proof {
        assert(cs@.subrange(n as int, n as int) =~= Seq::<char>::empty());
    }
    string_of(&cur)
}

/// The first table entry named `name`, if any.
pub open spec fn spec_lookup<T>(table: Seq<(String, T)>, name: Seq<char>) -> Option<T>
    decreases table.len(),
{
    if table.len() == 0 {
        None
    } else if table[0].0@ == name {
        Some(table[0].1)
    } else {
        spec_lookup(table.drop_first(), name)
    }
}

/// Chasing `r` through `table` with at most `fuel` dereferences.
pub open spec fn spec_resolve<T>(table: Seq<(String, RefOr<T>)>, r: RefOr<T>, fuel: nat) -> Resolved<
    T,
>
    decreases fuel,
{
    match r {
        RefOr::Item(t) => Resolved::Found(t),
        RefOr::Ref(s) => match spec_lookup(table, spec_last_segment(s@)) {
            None => Resolved::NotFound(s@),
            Some(next) => if fuel == 0 {
                Resolved::Cycle(s@)
            } else {
                spec_resolve(table, next, (fuel - 1) as nat)
            },
        },
    }
}

/// The error a failed resolution maps to.
pub open spec fn spec_resolve_err<T>(o: Resolved<T>) -> ErrorV {
    match o {
        Resolved::Found(_) => ErrorV::Resolution(Seq::empty()),
        Resolved::NotFound(s) => ErrorV::Resolution("Reference not found: "@ + s),
        Resolved::Cycle(s) => ErrorV::ReferenceCycle(s),
    }
}

fn lookup<'a, T>(table: &'a Vec<(String, T)>, name: &str) -> (r: Option<&'a T>)
    ensures
        match r {
            Some(t) => spec_lookup(table@, name@) == Some(*t),
            None => spec_lookup(table@, name@) is None,
        },
{
    let mut i: usize = 0;
    proof {
        assert(table@.subrange(0, table@.len() as int) =~= table@);
    }
    while i < table.len()
        invariant
            i <= table@.len(),
            spec_lookup(table@, name@) == spec_lookup(
                table@.subrange(i as int, table@.len() as int),
                name@,
            ),
        decreases table@.len() - i,
    {
        let ghost rest = table@.subrange(i as int, table@.len() as int);
        let ghost rest2 = table@.subrange(i as int + 1, table@.len() as int);
        proof {
            assert(rest[0] == table@[i as int]);
            assert(rest.drop_first() =~= rest2);
        }
        if crate::text::str_eq(table[i].0.as_str(), name) {
            return Some(&table[i].1);
        }
        i = i + 1;
    }
    proof {
        assert(table@.subrange(table@.len() as int, table@.len() as int) =~= Seq::<
            (String, T),
        >::empty());
    }
    None
}

/// Chases `r` through `table`; a chain longer than the table is a cycle.
fn resolve_ref<'a, T>(table: &'a Vec<(String, RefOr<T>)>, r: &'a RefOr<T>) -> (res: Result<
    &'a T,
    Error,
>)
    ensures
        match res {
            Ok(t) => spec_resolve(table@, *r, table@.len() as nat) == Resolved::Found(*t),
            Err(e) => {
                &&& !(spec_resolve(table@, *r, table@.len() as nat) is Found)
                &&& e@ == spec_resolve_err(spec_resolve(table@, *r, table@.len() as nat))
            },
        },
{
    let mut cur: &'a RefOr<T> = r;
    let mut fuel: usize = table.len();
    loop
        invariant
            fuel <= table@.len(),
            spec_resolve(table@, *r, table@.len() as nat) == spec_resolve(
                table@,
                *cur,
                fuel as nat,
            ),
        decreases fuel,
    {
        match cur {
            RefOr::Item(t) => {
                return Ok(t);
            },
            RefOr::Ref(s) => {
                let seg = last_segment(s.as_str());
                match lookup(table, seg.as_str()) {
                    None => {
                        let msg = crate::text::concat2("Reference not found: ", s.as_str());
                        return Err(Error::Resolution(msg));
                    },
                    Some(next) => {
                        if fuel == 0 {
                            let msg = s.clone();
                            return Err(Error::ReferenceCycle(msg));
                        }
                        cur = next;
                        fuel = fuel - 1;
                    },
                }
            },
        }
    }
}

/// Resolves a parameter reference against the parameter components.
pub fn resolve_parameter<'a>(
    table: &'a Vec<(String, RefOr<ApiParameter>)>,
    r: &'a RefOr<ApiParameter>,
) -> (res: Result<&'a ApiParameter, Error>)
    ensures
        match res {
            Ok(t) => spec_resolve(table@, *r, table@.len() as nat) == Resolved::Found(*t),
            Err(e) => {
                &&& !(spec_resolve(table@, *r, table@.len() as nat) is Found)
                &&& e@ == spec_resolve_err(spec_resolve(table@, *r, table@.len() as nat))
            },
        },
{
    resolve_ref(table, r)
}

/// Resolves a request-body reference against the request-body components.
pub fn resolve_request_body<'a>(
    table: &'a Vec<(String, RefOr<ApiRequestBody>)>,
    r: &'a RefOr<ApiRequestBody>,
) -> (res: Result<&'a ApiRequestBody, Error>)
    ensures
        match res {
            Ok(t) => spec_resolve(table@, *r, table@.len() as nat) == Resolved::Found(*t),
            Err(e) => {
                &&& !(spec_resolve(table@, *r, table@.len() as nat) is Found)
                &&& e@ == spec_resolve_err(spec_resolve(table@, *r, table@.len() as nat))
            },
        },
{
    resolve_ref(table, r)
}

/// Resolves a schema reference against the schema components.
pub fn resolve_schema<'a>(table: &'a Vec<(String, RefOr<Schema>)>, r: &'a RefOr<Schema>) -> (res:
    Result<&'a Schema, Error>)
    ensures
        match res {
            Ok(t) => spec_resolve(table@, *r, table@.len() as nat) == Resolved::Found(*t),
            Err(e) => {
                &&& !(spec_resolve(table@, *r, table@.len() as nat) is Found)
                &&& e@ == spec_resolve_err(spec_resolve(table@, *r, table@.len() as nat))
            },
        },
{
    resolve_ref(table, r)
}

/// Resolves a security-scheme reference against the security-scheme
/// components.
pub fn resolve_security_scheme<'a>(
    table: &'a Vec<(String, RefOr<SecurityScheme>)>,
    r: &'a RefOr<SecurityScheme>,
) -> (res: Result<&'a SecurityScheme, Error>)
    ensures
        match res {
            Ok(t) => spec_resolve(table@, *r, table@.len() as nat) == Resolved::Found(*t),
            Err(e) => {
                &&& !(spec_resolve(table@, *r, table@.len() as nat) is Found)
                &&& e@ == spec_resolve_err(spec_resolve(table@, *r, table@.len() as nat))
            },
        },
{
    resolve_ref(table, r)
}

/// Resolves a path-item reference against the path table itself.
pub fn resolve_path_item<'a>(table: &'a Vec<(String, RefOr<PathItem>)>, r: &'a RefOr<PathItem>) -> (
    res: Result<&'a PathItem, Error>)
    ensures
        match res {
            Ok(t) => spec_resolve(table@, *r, table@.len() as nat) == Resolved::Found(*t),
            Err(e) => {
                &&& !(spec_resolve(table@, *r, table@.len() as nat) is Found)
                &&& e@ == spec_resolve_err(spec_resolve(table@, *r, table@.len() as nat))
            },
        },
{
    resolve_ref(table, r)
}

} // verus!
