//! The user's list of turned-off agent skills (part of the saved session).

use vstd::prelude::*;

use crate::order::str_views;
use crate::provider::types::str_eq;

verus! {

/// `v` without the entries equal to `name`, in order.
pub open spec fn without(v: Seq<Seq<char>>, name: Seq<char>) -> Seq<Seq<char>>
    decreases v.len(),
{
    if v.len() == 0 {
        Seq::empty()
    } else if v.last() == name {
        without(v.drop_last(), name)
    } else {
        without(v.drop_last(), name).push(v.last())
    }
}

/// The disabled list after `set_skill_enabled(name, enabled)`.
pub open spec fn skills_after(v: Seq<Seq<char>>, name: Seq<char>, enabled: bool) -> Seq<Seq<char>> {
    if enabled {
        without(v, name)
    } else if v.contains(name) {
        v
    } else {
        v.push(name)
    }
}

pub open spec fn no_duplicates(v: Seq<Seq<char>>) -> bool {
    forall|i: int, j: int| 0 <= i < j < v.len() ==> v[i] != v[j]
}

proof fn lemma_without_members(v: Seq<Seq<char>>, name: Seq<char>)
    ensures
        forall|x: Seq<char>| #[trigger] without(v, name).contains(x) <==> (v.contains(x) && x != name),
        no_duplicates(v) ==> no_duplicates(without(v, name)),
    decreases v.len(),
{
    if v.len() > 0 {
        lemma_without_members(v.drop_last(), name);
        let w = without(v.drop_last(), name);
        assert forall|x: Seq<char>| without(v, name).contains(x) <==> (v.contains(x) && x != name) by {
            if v.contains(x) {
                let k = choose|k: int| 0 <= k < v.len() && v[k] == x;
                if k < v.len() - 1 {
                    assert(v.drop_last()[k] == x);
                }
            }
            if v.drop_last().contains(x) {
                let k = choose|k: int| 0 <= k < v.drop_last().len() && v.drop_last()[k] == x;
                assert(v[k] == x);
            }
            if v.last() != name {
                if w.push(v.last()).contains(x) {
                    let k = choose|k: int| 0 <= k < w.push(v.last()).len() && w.push(v.last())[k] == x;
                    if k < w.len() {
                        assert(w[k] == x);
                    }
                }
                if w.contains(x) {
                    let k = choose|k: int| 0 <= k < w.len() && w[k] == x;
                    assert(w.push(v.last())[k] == x);
                }
                if x == v.last() {
                    assert(w.push(v.last())[w.len() as int] == x);
                }
            }
        }
        if no_duplicates(v) {
            assert(no_duplicates(v.drop_last())) by {
                assert forall|i: int, j: int| 0 <= i < j < v.drop_last().len() implies v.drop_last()[i]
                    != v.drop_last()[j] by {
                    assert(v[i] == v.drop_last()[i] && v[j] == v.drop_last()[j]);
                }
            }
            if v.last() != name {
                assert(!w.contains(v.last())) by {
                    if w.contains(v.last()) {
                        assert(v.drop_last().contains(v.last()));
                        let k = choose|k: int| 0 <= k < v.drop_last().len() && v.drop_last()[k] == v.last();
                        assert(v[k] == v.drop_last()[k]);
                        assert(v[k] == v[v.len() - 1]);
                    }
                }
                assert forall|i: int, j: int| 0 <= i < j < w.push(v.last()).len() implies w.push(
                    v.last(),
                )[i] != w.push(v.last())[j] by {
                    if j == w.len() {
                        assert(w[i] == w.push(v.last())[i]);
                    }
                }
            }
        }
    }
}

/// Enables or disables a skill by id in the disabled list `disabled`:
/// enabling removes every entry of it, disabling adds it once.
pub fn set_skill_enabled(disabled: &mut Vec<String>, name: &str, enabled: bool)
    ensures
        str_views(final(disabled)@) == skills_after(str_views(old(disabled)@), name@, enabled),
{
    let ghost v = str_views(disabled@);
    if enabled {
        let mut kept: Vec<String> = Vec::new();
        let mut i: usize = 0;
        while i < disabled.len()
            invariant
                0 <= i <= disabled@.len(),
                v == str_views(disabled@),
                str_views(kept@) == without(v.subrange(0, i as int), name@),
            decreases disabled@.len() - i,
        {
            let ghost pre = str_views(kept@);
            assert(v.subrange(0, i + 1).drop_last() =~= v.subrange(0, i as int));
            assert(v.subrange(0, i + 1).last() == disabled@[i as int]@);
            if !str_eq(disabled[i].as_str(), name) {
                kept.push(disabled[i].clone());
                assert(str_views(kept@) =~= pre.push(disabled@[i as int]@));
            }
            i = i + 1;
        }
        assert(v.subrange(0, v.len() as int) =~= v);
        *disabled = kept;
    } else {
        let mut found = false;
        let mut i: usize = 0;
        while i < disabled.len()
            invariant
                0 <= i <= disabled@.len(),
                v == str_views(disabled@),
                found == exists|k: int| 0 <= k < i && v[k] == name@,
            decreases disabled@.len() - i,
        {
            if str_eq(disabled[i].as_str(), name) {
                found = true;
                assert(v[i as int] == name@);
            }
            i = i + 1;
        }
        if !found {
            disabled.push(name.to_owned());
            assert(str_views(disabled@) =~= v.push(name@));
        }
    }
}

/// Setting a skill's state never repeats an id in the disabled list, and
/// leaves the skill disabled exactly when it was switched off.
pub proof fn law_skill_list_stays_a_set(v: Seq<Seq<char>>, name: Seq<char>, enabled: bool)
    requires
        no_duplicates(v),
    ensures
        no_duplicates(skills_after(v, name, enabled)),
        skills_after(v, name, enabled).contains(name) == !enabled,
{
    lemma_without_members(v, name);
    if enabled {
        assert(!without(v, name).contains(name));
    }
    if !enabled && !v.contains(name) {
        let w = v.push(name);
        assert(w[v.len() as int] == name);
        assert(w.contains(name));
        assert forall|i: int, j: int| 0 <= i < j < w.len() implies w[i] != w[j] by {
            if j == v.len() {
                assert(w[i] == v[i]);
            }
        }
    }
}

} // verus!
