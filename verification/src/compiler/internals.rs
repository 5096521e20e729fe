//! Mutable state carried through one code-generation walk: the string pool,
//! the variable slots, the pending identifier, and the per-index usage counts
//! that drive control-flow label naming.

use vstd::prelude::*;

use crate::strings::{spec_nat_string, str_views, usize_string};

verus! {

/// The usage count recorded for token index `idx`, if any.
pub open spec fn usage_count(m: Seq<(usize, usize)>, idx: usize) -> Option<usize>
    decreases m.len(),
{
    if m.len() == 0 {
        None
    } else if m.first().0 == idx {
        Some(m.first().1)
    } else {
        usage_count(m.drop_first(), idx)
    }
}

/// The usage counts as a finite map over token indices.
pub open spec fn usage_map(m: Seq<(usize, usize)>) -> Map<usize, usize> {
    Map::new(|k: usize| usage_count(m, k) is Some, |k: usize| usage_count(m, k)->0)
}

/// The usage count a call to `compute_address` leaves behind: a fresh index
/// starts at zero, a seen one counts up (the count saturates at the machine
/// limit, where the label suffix no longer changes).
pub open spec fn next_of(m: Map<usize, usize>, idx: usize) -> usize {
    if m.dom().contains(idx) {
        if m[idx] == usize::MAX {
            m[idx]
        } else {
            (m[idx] + 1) as usize
        }
    } else {
        0usize
    }
}

/// The first slot bound to `name` in the variable list, if any.
pub open spec fn slot_of(vars: Seq<String>, name: Seq<char>) -> Option<int>
    decreases vars.len(),
{
    if vars.len() == 0 {
        None
    } else if vars.first()@ == name {
        Some(0)
    } else {
        match slot_of(vars.drop_first(), name) {
            None => None,
            Some(i) => Some(i + 1),
        }
    }
}

/// `slot_of` over name views.
pub open spec fn vslot(vars: Seq<Seq<char>>, name: Seq<char>) -> Option<int>
    decreases vars.len(),
{
    if vars.len() == 0 {
        None
    } else if vars.first() == name {
        Some(0)
    } else {
        match vslot(vars.drop_first(), name) {
            None => None,
            Some(i) => Some(i + 1),
        }
    }
}

/// The slot lookup agrees with its view-level form.
pub proof fn lemma_vslot_agree(vars: Seq<String>, name: Seq<char>)
    ensures
        slot_of(vars, name) == vslot(crate::strings::str_views(vars), name),
    decreases vars.len(),
{
    if vars.len() > 0 {
        assert(crate::strings::str_views(vars).first() == vars.first()@);
        assert(crate::strings::str_views(vars).drop_first() =~= crate::strings::str_views(
            vars.drop_first(),
        ));
        lemma_vslot_agree(vars.drop_first(), name);
    }
}

/// The first matching position is the slot.
pub proof fn lemma_slot_of_first(vars: Seq<String>, name: Seq<char>, p: int)
    requires
        0 <= p < vars.len(),
        vars[p]@ == name,
        forall|j: int| 0 <= j < p ==> (#[trigger] vars[j])@ != name,
    ensures
        slot_of(vars, name) == Some(p),
    decreases vars.len(),
{
    if p > 0 {
        lemma_slot_of_first(vars.drop_first(), name, p - 1);
    }
}

/// With no matching entry there is no slot.
pub proof fn lemma_slot_of_absent(vars: Seq<String>, name: Seq<char>)
    requires
        forall|j: int| 0 <= j < vars.len() ==> (#[trigger] vars[j])@ != name,
    ensures
        slot_of(vars, name) is None,
    decreases vars.len(),
{
    if vars.len() > 0 {
        lemma_slot_of_absent(vars.drop_first(), name);
    }
}

/// The label for token index `idx` at usage count `usage`: the two calls of a
/// jump/label pair share `usage / 2`.
pub open spec fn address_label(idx: usize, usage: usize) -> Seq<char> {
    "ADDR_"@ + spec_nat_string(idx as int) + "_"@ + spec_nat_string(usage as int / 2)
}

/// Internal variables used during one code-generation walk.
pub struct Internals {
    pub strings: Vec<String>,
    pub idx: usize,
    pub addresses_usage: Vec<(usize, usize)>,
    pub should_increment: bool,
    pub current_variable: Option<String>,
    pub variables: Vec<String>,
    pub location: (usize, usize, String),
}

/// The `db` line of one pooled string: `\tstr_<i> db "<text>",0\n`.
pub open spec fn string_entry(text: Seq<char>, i: int) -> Seq<char> {
    "\tstr_"@ + spec_nat_string(i) + " db \""@ + text + "\",0\n"@
}

/// The whole read-only string pool, entry `i0` first.
pub open spec fn strings_text(strs: Seq<Seq<char>>, i0: int) -> Seq<char>
    decreases strs.len(),
{
    if strs.len() == 0 {
        Seq::empty()
    } else {
        string_entry(strs.first(), i0) + strings_text(strs.drop_first(), i0 + 1)
    }
}

impl Internals {
    /// A fresh walk state: empty pool, no variables, no pending identifier.
    pub fn new() -> (r: Internals)
        ensures
            r.strings@ == Seq::<String>::empty(),
            r.idx == 0,
            r.addresses_usage@ == Seq::<(usize, usize)>::empty(),
            r.should_increment == false,
            r.current_variable is None,
            r.variables@ == Seq::<String>::empty(),
            r.location.0 == 0 && r.location.1 == 0 && r.location.2@ == Seq::<char>::empty(),
    {
        Internals {
            strings: Vec::new(),
            idx: 0,
            addresses_usage: Vec::new(),
            should_increment: false,
            current_variable: None,
            variables: Vec::new(),
            location: (0, 0, String::new()),
        }
    }

    /// Interns a string literal and returns its pool index.
    pub fn push_string(&mut self, string: String) -> (r: usize)
        ensures
            final(self).strings@ == old(self).strings@.push(string),
            r == old(self).strings@.len(),
            final(self).idx == old(self).idx,
            final(self).addresses_usage == old(self).addresses_usage,
            final(self).should_increment == old(self).should_increment,
            final(self).current_variable == old(self).current_variable,
            final(self).variables == old(self).variables,
            final(self).location == old(self).location,
    {
        self.strings.push(string);
        self.strings.len() - 1
    }

    /// Renders the read-only data section entries for the pooled strings.
    pub fn compile_strings(&mut self) -> (r: String)
        ensures
            r@ == strings_text(str_views(old(self).strings@), 0),
            *final(self) == *old(self),
    {
        let mut output = String::new();
        let mut i: usize = 0;
        let n = self.strings.len();
        proof {
            assert(str_views(self.strings@).skip(0) =~= str_views(self.strings@));
            assert(output@ + strings_text(str_views(self.strings@), 0) =~= strings_text(
                str_views(self.strings@),
                0,
            ));
        }
        while i < n
            invariant
                0 <= i <= n,
                n == self.strings@.len(),
                self == old(self),
                output@ + strings_text(str_views(self.strings@).skip(i as int), i as int)
                    == strings_text(str_views(self.strings@), 0),
            decreases n - i,
        {
            let ghost pre = output@;
            let ghost tail = str_views(self.strings@).skip(i as int);
            output.append("\tstr_");
            output.append(usize_string(i).as_str());
            output.append(" db \"");
            output.append(self.strings[i].as_str());
            output.append("\",0\n");
            proof {
                assert(tail.first() == self.strings@[i as int]@);
                assert(output@ =~= pre + string_entry(tail.first(), i as int));
                assert(tail.drop_first() =~= str_views(self.strings@).skip(i + 1));
                assert(strings_text(tail, i as int) == string_entry(tail.first(), i as int)
                    + strings_text(tail.drop_first(), i + 1));
                assert(output@ + strings_text(str_views(self.strings@).skip(i + 1), i + 1)
                    =~= strings_text(str_views(self.strings@), 0));
            }
            i += 1;
        }
        proof {
            assert(str_views(self.strings@).skip(n as int) =~= Seq::<Seq<char>>::empty());
            assert(output@ =~= strings_text(str_views(self.strings@), 0));
        }
        output
    }

    /// Computes the label name for a jump target. An address is a token
    /// index; every call counts that index up, and the label carries half the
    /// count, so the two calls a jump/label pair makes yield the same name.
    pub fn compute_address(&mut self, idx: usize) -> (r: String)
        ensures
            r@ == address_label(idx, next_of(usage_map(old(self).addresses_usage@), idx)),
            usage_map(final(self).addresses_usage@) == usage_map(
                old(self).addresses_usage@,
            ).insert(idx, next_of(usage_map(old(self).addresses_usage@), idx)),
            final(self).strings == old(self).strings,
            final(self).idx == old(self).idx,
            final(self).should_increment == old(self).should_increment,
            final(self).current_variable == old(self).current_variable,
            final(self).variables == old(self).variables,
            final(self).location == old(self).location,
    {
        let n = self.addresses_usage.len();
        let mut i: usize = 0;
        let mut found: Option<usize> = None;
        while i < n
            invariant
                0 <= i <= n,
                n == self.addresses_usage@.len(),
                self == old(self),
                found is None ==> forall|j: int|
                    0 <= j < i ==> (#[trigger] self.addresses_usage@[j]).0 != idx,
                found matches Some(p) ==> p < n && self.addresses_usage@[p as int].0 == idx
                    && forall|j: int| 0 <= j < p ==> (#[trigger] self.addresses_usage@[j]).0 != idx,
            decreases n - i,
        {
            if found.is_none() && self.addresses_usage[i].0 == idx {
                found = Some(i);
            }
            i += 1;
        }
        let usage: usize = match found {
            Some(p) => {
                let u = self.addresses_usage[p].1;
                let nu = if u == usize::MAX {
                    u
                } else {
                    u + 1
                };
                self.addresses_usage[p] = (idx, nu);
                proof {
                    lemma_usage_count_first(old(self).addresses_usage@, idx, p as int);
                    lemma_usage_count_update(old(self).addresses_usage@, idx, p as int, nu);
                    assert(usage_map(self.addresses_usage@) =~= usage_map(
                        old(self).addresses_usage@,
                    ).insert(idx, nu));
                }
                nu
            },
            None => {
                self.addresses_usage.push((idx, 0));
                proof {
                    lemma_usage_count_absent(old(self).addresses_usage@, idx);
                    lemma_usage_count_append(old(self).addresses_usage@, idx, 0);
                    assert(usage_map(self.addresses_usage@) =~= usage_map(
                        old(self).addresses_usage@,
                    ).insert(idx, 0));
                }
                0
            },
        };
        let mut label = String::from_str("ADDR_");
        label.append(usize_string(idx).as_str());
        label.append("_");
        label.append(usize_string(usage / 2).as_str());
        proof {
            assert(label@ =~= address_label(idx, usage));
        }
        label
    }
}

/// The label scheme pairs up: a control-flow pair makes two consecutive
/// `compute_address` calls on the closer's index, and both yield the same
/// label. Before the pair, the index is fresh or holds an odd count — what
/// every completed pair of calls leaves behind — and then the first call's
/// label equals the second call's.
pub proof fn lemma_paired_labels(m: Map<usize, usize>, idx: usize)
    requires
        !m.dom().contains(idx) || m[idx] % 2 == 1,
    ensures
        address_label(idx, next_of(m, idx)) == address_label(
            idx,
            next_of(m.insert(idx, next_of(m, idx)), idx),
        ),
{
    let u1 = next_of(m, idx);
    let u2 = next_of(m.insert(idx, u1), idx);
    assert(u1 as int / 2 == u2 as int / 2);
}

/// When the first matching entry sits at position `p`, `usage_count` reads it.
proof fn lemma_usage_count_first(m: Seq<(usize, usize)>, idx: usize, p: int)
    requires
        0 <= p < m.len(),
        m[p].0 == idx,
        forall|j: int| 0 <= j < p ==> (#[trigger] m[j]).0 != idx,
    ensures
        usage_count(m, idx) == Some(m[p].1),
    decreases m.len(),
{
    if p > 0 {
        lemma_usage_count_first(m.drop_first(), idx, p - 1);
    }
}

/// Updating the first matching entry updates the count and nothing else.
proof fn lemma_usage_count_update(m: Seq<(usize, usize)>, idx: usize, p: int, nu: usize)
    requires
        0 <= p < m.len(),
        m[p].0 == idx,
        forall|j: int| 0 <= j < p ==> (#[trigger] m[j]).0 != idx,
    ensures
        usage_count(m.update(p, (idx, nu)), idx) == Some(nu),
        forall|k: usize|
            k != idx ==> #[trigger] usage_count(m.update(p, (idx, nu)), k) == usage_count(m, k),
    decreases m.len(),
{
    let m2 = m.update(p, (idx, nu));
    if p > 0 {
        lemma_usage_count_update(m.drop_first(), idx, p - 1, nu);
        assert(m2.drop_first() =~= m.drop_first().update(p - 1, (idx, nu)));
        assert forall|k: usize| k != idx implies #[trigger] usage_count(m2, k) == usage_count(
            m,
            k,
        ) by {
            assert(usage_count(m.drop_first().update(p - 1, (idx, nu)), k) == usage_count(
                m.drop_first(),
                k,
            ));
        }
    } else {
        assert(m2.drop_first() =~= m.drop_first());
    }
}

/// When no entry matches, the count is absent.
proof fn lemma_usage_count_absent(m: Seq<(usize, usize)>, idx: usize)
    requires
        forall|j: int| 0 <= j < m.len() ==> (#[trigger] m[j]).0 != idx,
    ensures
        usage_count(m, idx) is None,
    decreases m.len(),
{
    if m.len() > 0 {
        lemma_usage_count_absent(m.drop_first(), idx);
    }
}

/// Appending a fresh entry makes its count readable and leaves others alone.
proof fn lemma_usage_count_append(m: Seq<(usize, usize)>, idx: usize, u: usize)
    requires
        usage_count(m, idx) is None,
    ensures
        usage_count(m.push((idx, u)), idx) == Some(u),
        forall|k: usize|
            k != idx ==> #[trigger] usage_count(m.push((idx, u)), k) == usage_count(m, k),
    decreases m.len(),
{
    if m.len() > 0 {
        lemma_usage_count_append(m.drop_first(), idx, u);
        assert(m.push((idx, u)).drop_first() =~= m.drop_first().push((idx, u)));
        assert forall|k: usize| k != idx implies #[trigger] usage_count(m.push((idx, u)), k)
            == usage_count(m, k) by {
            assert(usage_count(m.drop_first().push((idx, u)), k) == usage_count(
                m.drop_first(),
                k,
            ));
        }
    } else {
        assert(m.push((idx, u)).drop_first() =~= Seq::<(usize, usize)>::empty());
        assert forall|k: usize| k != idx implies #[trigger] usage_count(m.push((idx, u)), k)
            == usage_count(m, k) by {
            assert(usage_count(Seq::<(usize, usize)>::empty(), k) is None);
        }
    }
}

} // verus!
