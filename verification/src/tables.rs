//! The function and constant tables collected by the structural parser.
//!
//! Both are association lists with the lookup reading the most recent entry,
//! so a later definition of the same name shadows an earlier one.

use vstd::prelude::*;

use crate::strings::eq_str;
use crate::type_checker::Typ;

verus! {

/// One function: the token range of its body (exclusive of the header and
/// the `end`), its declared argument and return unions, and whether the
/// return check is suppressed.
#[derive(Debug)]
pub struct FnEntry {
    pub body_start: usize,
    pub body_end: usize,
    pub args: Vec<Vec<Typ>>,
    pub returns: Vec<Vec<Typ>>,
    pub ignore_return: bool,
}

/// The views of nested type lists.
pub open spec fn typss(v: Seq<Vec<Typ>>) -> Seq<Seq<Typ>> {
    v.map_values(|x: Vec<Typ>| x@)
}

/// The most recent constant bound to `name`, if any.
pub open spec fn const_lookup(m: Seq<(String, i64)>, name: Seq<char>) -> Option<i64>
    decreases m.len(),
{
    if m.len() == 0 {
        None
    } else if m.last().0@ == name {
        Some(m.last().1)
    } else {
        const_lookup(m.drop_last(), name)
    }
}

/// The position of the most recent function entry for `name`, if any.
pub open spec fn fn_position(m: Seq<(String, FnEntry)>, name: Seq<char>) -> Option<int>
    decreases m.len(),
{
    if m.len() == 0 {
        None
    } else if m.last().0@ == name {
        Some(m.len() - 1)
    } else {
        fn_position(m.drop_last(), name)
    }
}

/// The most recent macro body range recorded for `name`, if any.
pub open spec fn macro_lookup(m: Seq<(String, (usize, usize))>, name: Seq<char>) -> Option<
    (usize, usize),
>
    decreases m.len(),
{
    if m.len() == 0 {
        None
    } else if m.last().0@ == name {
        Some(m.last().1)
    } else {
        macro_lookup(m.drop_last(), name)
    }
}

/// Looks a constant up, most recent binding first.
pub fn find_const(consts: &Vec<(String, i64)>, name: &str) -> (r: Option<i64>)
    ensures
        r == const_lookup(consts@, name@),
{
    let n = consts.len();
    let mut i: usize = n;
    proof {
        assert(consts@.take(n as int) =~= consts@);
    }
    while i > 0
        invariant
            0 <= i <= n,
            n == consts@.len(),
            const_lookup(consts@, name@) == const_lookup(consts@.take(i as int), name@),
        decreases i,
    {
        proof {
            assert(consts@.take(i as int).last() == consts@[i - 1]);
            assert(consts@.take(i as int).drop_last() =~= consts@.take(i - 1));
        }
        if eq_str(consts[i - 1].0.as_str(), name) {
            return Some(consts[i - 1].1);
        }
        i -= 1;
    }
    proof {
        assert(consts@.take(0) =~= Seq::<(String, i64)>::empty());
    }
    None
}

/// Looks a function up, most recent definition first.
pub fn find_fn<'a>(fns: &'a Vec<(String, FnEntry)>, name: &str) -> (r: Option<&'a FnEntry>)
    ensures
        (match r {
            Some(e) => fn_position(fns@, name@) matches Some(p) && *e == fns@[p].1,
            None => fn_position(fns@, name@) is None,
        }),
{
    let n = fns.len();
    let mut i: usize = n;
    proof {
        assert(fns@.take(n as int) =~= fns@);
    }
    while i > 0
        invariant
            0 <= i <= n,
            n == fns@.len(),
            fn_position(fns@, name@) == fn_position(fns@.take(i as int), name@),
        decreases i,
    {
        proof {
            assert(fns@.take(i as int).last() == fns@[i - 1]);
            assert(fns@.take(i as int).drop_last() =~= fns@.take(i - 1));
        }
        if eq_str(fns[i - 1].0.as_str(), name) {
            return Some(&fns[i - 1].1);
        }
        i -= 1;
    }
    proof {
        assert(fns@.take(0) =~= Seq::<(String, FnEntry)>::empty());
    }
    None
}

/// Is entry `p` the one its name resolves to — not shadowed by a later
/// definition of the same name?
pub open spec fn fn_active(fns: Seq<(String, FnEntry)>, p: int) -> bool {
    fn_position(fns, fns[p].0@) == Some(p)
}

/// The position the name of entry `p` resolves to, as the executable lookup.
pub fn find_fn_position(fns: &Vec<(String, FnEntry)>, name: &str) -> (r: Option<usize>)
    ensures
        (match r {
            Some(p) => fn_position(fns@, name@) == Some(p as int),
            None => fn_position(fns@, name@) is None,
        }),
{
    let n = fns.len();
    let mut i: usize = n;
    proof {
        assert(fns@.take(n as int) =~= fns@);
    }
    while i > 0
        invariant
            0 <= i <= n,
            n == fns@.len(),
            fn_position(fns@, name@) == fn_position(fns@.take(i as int), name@),
        decreases i,
    {
        proof {
            assert(fns@.take(i as int).last() == fns@[i - 1]);
            assert(fns@.take(i as int).drop_last() =~= fns@.take(i - 1));
        }
        if eq_str(fns[i - 1].0.as_str(), name) {
            return Some(i - 1);
        }
        i -= 1;
    }
    proof {
        assert(fns@.take(0) =~= Seq::<(String, FnEntry)>::empty());
    }
    None
}

/// Copies a nested type list.
pub fn clone_typss(v: &Vec<Vec<Typ>>) -> (r: Vec<Vec<Typ>>)
    ensures
        typss(r@) == typss(v@),
{
    let mut out: Vec<Vec<Typ>> = Vec::new();
    let mut i: usize = 0;
    while i < v.len()
        invariant
            0 <= i <= v@.len(),
            out@.len() == i,
            forall|j: int| 0 <= j < i ==> (#[trigger] out@[j])@ == v@[j]@,
        decreases v@.len() - i,
    {
        let inner = &v[i];
        let mut row: Vec<Typ> = Vec::new();
        let mut k: usize = 0;
        while k < inner.len()
            invariant
                0 <= k <= inner@.len(),
                row@ == inner@.take(k as int),
            decreases inner@.len() - k,
        {
            row.push(inner[k]);
            proof {
                assert(inner@.take(k + 1) =~= inner@.take(k as int).push(inner@[k as int]));
            }
            k += 1;
        }
        proof {
            assert(inner@.take(inner@.len() as int) =~= inner@);
        }
        out.push(row);
        i += 1;
    }
    proof {
        assert(typss(out@) =~= typss(v@));
    }
    out
}

} // verus!
