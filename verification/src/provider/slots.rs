//! Tool calls being assembled from a stream, in a map keyed by the
//! stream's block index and handed out in ascending key order.

use std::collections::BTreeMap;
use vstd::prelude::*;

use crate::provider::key_order::sorted_keys;

verus! {

/// A tool call under assembly: its id, name and the argument text received
/// so far.
pub struct SlotView {
    pub key: u64,
    pub id: Seq<char>,
    pub name: Seq<char>,
    pub args: Seq<char>,
}

pub open spec fn empty_slot(key: u64) -> SlotView {
    SlotView { key, id: Seq::empty(), name: Seq::empty(), args: Seq::empty() }
}

/// Keys strictly ascending.
pub open spec fn slots_sorted(s: Seq<SlotView>) -> bool {
    forall|i: int, j: int| 0 <= i < j < s.len() ==> s[i].key < s[j].key
}

/// The slot for `key` updated by `f` (a fresh empty slot for `key` when there
/// is none), keeping the keys ascending.
pub open spec fn upsert(s: Seq<SlotView>, key: u64, f: spec_fn(SlotView) -> SlotView) -> Seq<
    SlotView,
>
    decreases s.len(),
{
    if s.len() == 0 {
        seq![f(empty_slot(key))]
    } else if s[0].key == key {
        seq![f(s[0])] + s.drop_first()
    } else if s[0].key > key {
        seq![f(empty_slot(key))] + s
    } else {
        seq![s[0]] + upsert(s.drop_first(), key, f)
    }
}

/// The slot for `key`, if any.
pub open spec fn lookup(s: Seq<SlotView>, key: u64) -> Option<SlotView>
    decreases s.len(),
{
    if s.len() == 0 {
        None
    } else if s[0].key == key {
        Some(s[0])
    } else {
        lookup(s.drop_first(), key)
    }
}

/// `s` without the slot for `key`.
pub open spec fn remove_key(s: Seq<SlotView>, key: u64) -> Seq<SlotView>
    decreases s.len(),
{
    if s.len() == 0 {
        s
    } else if s[0].key == key {
        remove_key(s.drop_first(), key)
    } else {
        seq![s[0]] + remove_key(s.drop_first(), key)
    }
}

/// Exec form of a slot.
pub struct ToolSlot {
    pub key: u64,
    pub id: String,
    pub name: String,
    pub args: String,
}

impl View for ToolSlot {
    type V = SlotView;

    open spec fn view(&self) -> SlotView {
        SlotView { key: self.key, id: self.id@, name: self.name@, args: self.args@ }
    }
}

pub open spec fn slots_view(v: Seq<ToolSlot>) -> Seq<SlotView> {
    v.map_values(|t: ToolSlot| t@)
}

/// The slot for `key`, or a fresh empty one.
pub open spec fn slot_or_empty(s: Seq<SlotView>, key: u64) -> SlotView {
    match lookup(s, key) {
        Some(x) => x,
        None => empty_slot(key),
    }
}

/// The map holds exactly the slots of `s`, each under its key.
pub open spec fn agrees(m: Map<u64, ToolSlot>, s: Seq<SlotView>) -> bool {
    forall|k: u64|
        (#[trigger] m.contains_key(k) <==> lookup(s, k) is Some) && (m.contains_key(k) ==> lookup(s, k)
            == Some(m[k]@))
}

/// A slot found for `key` carries that key, and stands in the sequence.
pub proof fn lemma_lookup_some(s: Seq<SlotView>, key: u64)
    ensures
        lookup(s, key) matches Some(x) ==> x.key == key && exists|i: int| 0 <= i < s.len() && s[i] == x,
    decreases s.len(),
{
    if s.len() > 0 && s[0].key != key {
        lemma_lookup_some(s.drop_first(), key);
        if lookup(s, key) is Some {
            let i = choose|i: int| 0 <= i < s.drop_first().len() && s.drop_first()[i] == lookup(s, key)->0;
            assert(s[i + 1] == s.drop_first()[i]);
        }
    }
}

/// No slot has a key that is absent from the lookup.
proof fn lemma_lookup_none(s: Seq<SlotView>, key: u64)
    ensures
        lookup(s, key) is None <==> forall|i: int| 0 <= i < s.len() ==> s[i].key != key,
    decreases s.len(),
{
    if s.len() > 0 {
        let t = s.drop_first();
        lemma_lookup_none(t, key);
        assert forall|i: int| 0 <= i < t.len() implies t[i] == s[i + 1] by {}
        if s[0].key != key && lookup(s, key) is None {
            assert forall|i: int| 0 <= i < s.len() implies s[i].key != key by {
                if i > 0 {
                    assert(s[i] == t[i - 1]);
                }
            }
        }
    }
}

/// In a sorted sequence, the slot at position `i` is what the lookup of its
/// key finds.
proof fn lemma_lookup_position(s: Seq<SlotView>, i: int)
    requires
        slots_sorted(s),
        0 <= i < s.len(),
    ensures
        lookup(s, s[i].key) == Some(s[i]),
    decreases i,
{
    if i > 0 {
        let t = s.drop_first();
        assert(slots_sorted(t)) by {
            assert forall|a: int, b: int| 0 <= a < b < t.len() implies t[a].key < t[b].key by {
                assert(t[a] == s[a + 1] && t[b] == s[b + 1]);
            }
        }
        assert(s[0].key < s[i].key);
        assert(t[i - 1] == s[i]);
        lemma_lookup_position(t, i - 1);
    }
}

/// `upsert` keeps the keys ascending and above any bound below `key` and
/// the old keys; the lookup of `key` finds the updated slot, and the other
/// lookups are as before.
pub proof fn lemma_upsert(s: Seq<SlotView>, key: u64, f: spec_fn(SlotView) -> SlotView, lo: int, j: u64)
    requires
        slots_sorted(s),
        forall|x: SlotView| #[trigger] f(x).key == x.key,
        forall|i: int| 0 <= i < s.len() ==> s[i].key > lo,
        key > lo,
    ensures
        slots_sorted(upsert(s, key, f)),
        forall|i: int| 0 <= i < upsert(s, key, f).len() ==> upsert(s, key, f)[i].key > lo,
        lookup(upsert(s, key, f), j) == if j == key {
            Some(f(slot_or_empty(s, key)))
        } else {
            lookup(s, j)
        },
    decreases s.len(),
{
    let r = upsert(s, key, f);
    if s.len() == 0 {
        assert(r[0] == f(empty_slot(key)));
        assert(r.drop_first().len() == 0);
        assert(lookup(r.drop_first(), j) is None);
    } else {
        let t = s.drop_first();
        assert forall|i: int| 0 <= i < t.len() implies t[i] == s[i + 1] by {}
        assert(slots_sorted(t)) by {
            assert forall|a: int, b: int| 0 <= a < b < t.len() implies t[a].key < t[b].key by {
                assert(s[a + 1].key < s[b + 1].key);
            }
        }
        if s[0].key == key {
            assert(r[0] == f(s[0]));
            assert(r.drop_first() =~= t);
            assert(f(s[0]).key == s[0].key);
            assert forall|a: int, b: int| 0 <= a < b < r.len() implies r[a].key < r[b].key by {
                if a > 0 {
                    assert(r[a] == s[a] && r[b] == s[b]);
                } else {
                    assert(r[b] == s[b]);
                }
            }
            assert forall|i: int| 0 <= i < r.len() implies r[i].key > lo by {
                if i > 0 {
                    assert(r[i] == s[i]);
                }
            }
            if j != key {
                assert(lookup(r, j) == lookup(t, j));
            } else {
                assert(lookup(r, j) == Some(f(s[0])));
            }
        } else if s[0].key > key {
            assert(r[0] == f(empty_slot(key)));
            assert(r.drop_first() =~= s);
            assert(f(empty_slot(key)).key == key);
            assert forall|a: int, b: int| 0 <= a < b < r.len() implies r[a].key < r[b].key by {
                if a > 0 {
                    assert(r[a] == s[a - 1] && r[b] == s[b - 1]);
                } else {
                    assert(r[b] == s[b - 1]);
                    if b - 1 > 0 {
                        assert(s[0].key < s[b - 1].key);
                    }
                }
            }
            assert forall|i: int| 0 <= i < r.len() implies r[i].key > lo by {
                if i > 0 {
                    assert(r[i] == s[i - 1]);
                }
            }
            if j != key {
                assert(lookup(r, j) == lookup(s, j));
            } else {
                assert(lookup(r, j) == Some(f(empty_slot(key))));
            }
            assert(lookup(s, key) is None) by {
                lemma_lookup_none(s, key);
                assert forall|i: int| 0 <= i < s.len() implies s[i].key != key by {
                    if i > 0 {
                        assert(s[0].key < s[i].key);
                    }
                }
            }
        } else {
            assert forall|i: int| 0 <= i < t.len() implies t[i].key > s[0].key by {
                assert(s[0].key < s[i + 1].key);
            }
            lemma_upsert(t, key, f, s[0].key as int, j);
            let u = upsert(t, key, f);
            assert(r[0] == s[0]);
            assert(r.drop_first() =~= u);
            assert(lookup(s, key) == lookup(t, key));
            assert(slot_or_empty(s, key) == slot_or_empty(t, key));
            if s[0].key != j {
                assert(lookup(r, j) == lookup(u, j));
                assert(lookup(s, j) == lookup(t, j));
            }
            assert forall|a: int, b: int| 0 <= a < b < r.len() implies r[a].key < r[b].key by {
                if a > 0 {
                    assert(r[a] == u[a - 1] && r[b] == u[b - 1]);
                } else {
                    assert(r[b] == u[b - 1]);
                }
            }
            assert forall|i: int| 0 <= i < r.len() implies r[i].key > lo by {
                if i > 0 {
                    assert(r[i] == u[i - 1]);
                }
            }
        }
    }
}

/// Removing `key` keeps the keys ascending and above any bound of the old
/// keys; its lookup finds nothing, the others are as before.
pub proof fn lemma_remove(s: Seq<SlotView>, key: u64, lo: int, j: u64)
    requires
        slots_sorted(s),
        forall|i: int| 0 <= i < s.len() ==> s[i].key > lo,
    ensures
        slots_sorted(remove_key(s, key)),
        forall|i: int| 0 <= i < remove_key(s, key).len() ==> remove_key(s, key)[i].key > lo,
        lookup(remove_key(s, key), j) == if j == key { None } else { lookup(s, j) },
    decreases s.len(),
{
    if s.len() > 0 {
        let t = s.drop_first();
        assert forall|i: int| 0 <= i < t.len() implies t[i] == s[i + 1] by {}
        assert(slots_sorted(t)) by {
            assert forall|a: int, b: int| 0 <= a < b < t.len() implies t[a].key < t[b].key by {
                assert(s[a + 1].key < s[b + 1].key);
            }
        }
        assert forall|i: int| 0 <= i < t.len() implies t[i].key > s[0].key by {
            assert(s[0].key < s[i + 1].key);
        }
        lemma_remove(t, key, s[0].key as int, j);
        let u = remove_key(t, key);
        if s[0].key != key {
            let r = remove_key(s, key);
            assert(r[0] == s[0]);
            assert(r.drop_first() =~= u);
            assert forall|a: int, b: int| 0 <= a < b < r.len() implies r[a].key < r[b].key by {
                if a > 0 {
                    assert(r[a] == u[a - 1] && r[b] == u[b - 1]);
                } else {
                    assert(r[b] == u[b - 1]);
                }
            }
            assert forall|i: int| 0 <= i < r.len() implies r[i].key > lo by {
                if i > 0 {
                    assert(r[i] == u[i - 1]);
                }
            }
        } else {
            lemma_remove(t, key, lo, j);
            if j == key {
                lemma_lookup_none(u, key);
            }
        }
    }
}

/// Two ascending sequences with the same lookups are equal.
proof fn lemma_sorted_unique(s: Seq<SlotView>, t: Seq<SlotView>)
    requires
        slots_sorted(s),
        slots_sorted(t),
        forall|k: u64| #[trigger] lookup(s, k) == lookup(t, k),
    ensures
        s == t,
    decreases s.len() + t.len(),
{
    if s.len() == 0 && t.len() > 0 {
        assert(lookup(t, t[0].key) == Some(t[0]));
        assert(lookup(s, t[0].key) is None);
    } else if s.len() > 0 && t.len() == 0 {
        assert(lookup(s, s[0].key) == Some(s[0]));
        assert(lookup(t, s[0].key) is None);
    } else if s.len() > 0 {
        let k0 = s[0].key;
        assert(lookup(s, k0) == Some(s[0]));
        assert(lookup(t, t[0].key) == Some(t[0]));
        lemma_lookup_some(t, k0);
        lemma_lookup_some(s, t[0].key);
        let i = choose|i: int| 0 <= i < t.len() && t[i] == s[0];
        let i2 = choose|i: int| 0 <= i < s.len() && s[i] == t[0];
        if i > 0 {
            assert(t[0].key < t[i].key);
        }
        if i2 > 0 {
            assert(s[0].key < s[i2].key);
        }
        assert(t[0].key == k0);
        assert(s[0] == t[0]);
        let s1 = s.drop_first();
        let t1 = t.drop_first();
        assert(slots_sorted(s1)) by {
            assert forall|a: int, b: int| 0 <= a < b < s1.len() implies s1[a].key < s1[b].key by {
                assert(s1[a] == s[a + 1] && s1[b] == s[b + 1]);
            }
        }
        assert(slots_sorted(t1)) by {
            assert forall|a: int, b: int| 0 <= a < b < t1.len() implies t1[a].key < t1[b].key by {
                assert(t1[a] == t[a + 1] && t1[b] == t[b + 1]);
            }
        }
        assert forall|k: u64| #[trigger] lookup(s1, k) == lookup(t1, k) by {
            if k == k0 {
                lemma_lookup_none(s1, k);
                lemma_lookup_none(t1, k);
                assert forall|a: int| 0 <= a < s1.len() implies s1[a].key != k by {
                    assert(s[0].key < s[a + 1].key);
                }
                assert forall|a: int| 0 <= a < t1.len() implies t1[a].key != k by {
                    assert(t[0].key < t[a + 1].key);
                }
            } else {
                assert(lookup(s, k) == lookup(s1, k));
                assert(lookup(t, k) == lookup(t1, k));
            }
        }
        lemma_sorted_unique(s1, t1);
        assert(s =~= seq![s[0]] + s1);
        assert(t =~= seq![t[0]] + t1);
    }
}

/// Ascending store of tool calls under assembly, keyed by block index.
pub struct ToolSlots {
    map: BTreeMap<u64, ToolSlot>,
    order: Ghost<Seq<SlotView>>,
}

impl View for ToolSlots {
    type V = Seq<SlotView>;

    closed spec fn view(&self) -> Seq<SlotView> {
        self.order@
    }
}

impl ToolSlots {
    pub closed spec fn wf(&self) -> bool {
        &&& slots_sorted(self@)
        &&& agrees(self.map@, self@)
    }

    pub fn new() -> (r: ToolSlots)
        ensures
            r@ == Seq::<SlotView>::empty(),
            r.wf(),
    {
        let r = ToolSlots { map: BTreeMap::new(), order: Ghost(Seq::empty()) };
        assert forall|k: u64| #![auto] !r.map@.contains_key(k) && lookup(r@, k) is None by {}
        r
    }

    /// The slot stored for `key`, or a fresh empty one.
    fn current(&self, key: u64) -> (r: ToolSlot)
        requires
            self.wf(),
        ensures
            r@ == slot_or_empty(self@, key),
    {
        match self.map.get(&key) {
            Some(t) => {
                proof {
                    lemma_lookup_some(self@, key);
                }
                ToolSlot { key: t.key, id: t.id.clone(), name: t.name.clone(), args: t.args.clone() }
            },
            None => ToolSlot { key, id: String::new(), name: String::new(), args: String::new() },
        }
    }

    /// Stores `slot`, the update `f` of the slot for `key`.
    fn put(&mut self, key: u64, slot: ToolSlot, Ghost(f): Ghost<spec_fn(SlotView) -> SlotView>)
        requires
            old(self).wf(),
            forall|x: SlotView| #[trigger] f(x).key == x.key,
            slot@ == f(slot_or_empty(old(self)@, key)),
        ensures
            final(self).wf(),
            final(self)@ == upsert(old(self)@, key, f),
    {
        let ghost s = self@;
        proof {
            lemma_lookup_some(s, key);
            assert(slot_or_empty(s, key).key == key);
            assert forall|j: u64| true implies #[trigger] lookup(upsert(s, key, f), j) == (if j == key {
                Some(f(slot_or_empty(s, key)))
            } else {
                lookup(s, j)
            }) by {
                lemma_upsert(s, key, f, -1, j);
            }
            lemma_upsert(s, key, f, -1, key);
        }
        self.map.insert(key, slot);
        self.order = Ghost(upsert(s, key, f));
        assert forall|k: u64| #![auto] (self.map@.contains_key(k) <==> lookup(self@, k) is Some)
            && (self.map@.contains_key(k) ==> lookup(self@, k) == Some(self.map@[k]@)) by {
            assert(lookup(upsert(s, key, f), k) == (if k == key {
                Some(f(slot_or_empty(s, key)))
            } else {
                lookup(s, k)
            }));
        }
    }

    /// Appends `text` to the argument text of the call at `key` (creating
    /// the slot when absent).
    pub fn append_args(&mut self, key: u64, text: &str)
        requires
            old(self).wf(),
        ensures
            final(self).wf(),
            final(self)@ == upsert(
                old(self)@,
                key,
                |x: SlotView| SlotView { args: x.args + text@, ..x },
            ),
    {
        let ghost f = |x: SlotView| SlotView { args: x.args + text@, ..x };
        let cur = self.current(key);
        let mut args = cur.args;
        args.append(text);
        let slot = ToolSlot { key: cur.key, id: cur.id, name: cur.name, args };
        self.put(key, slot, Ghost(f));
    }

    /// Starts the call at `key` afresh with `id` and `name` and no
    /// arguments yet.
    pub fn start(&mut self, key: u64, id: String, name: String)
        requires
            old(self).wf(),
        ensures
            final(self).wf(),
            final(self)@ == upsert(
                old(self)@,
                key,
                |x: SlotView| SlotView { key: x.key, id: id@, name: name@, args: Seq::empty() },
            ),
    {
        let ghost f = |x: SlotView| SlotView { key: x.key, id: id@, name: name@, args: Seq::empty() };
        let cur = self.current(key);
        let slot = ToolSlot { key: cur.key, id, name, args: String::new() };
        self.put(key, slot, Ghost(f));
    }

    /// Merges one streamed fragment into the call at `key`: a new id and
    /// name replace the old ones, argument text is appended.
    pub fn merge(&mut self, key: u64, id: Option<String>, name: Option<String>, args: Option<String>)
        requires
            old(self).wf(),
        ensures
            final(self).wf(),
            final(self)@ == upsert(old(self)@, key, merge_fn(opt_view(id), opt_view(name), opt_view(args))),
    {
        let ghost f = merge_fn(opt_view(id), opt_view(name), opt_view(args));
        let cur = self.current(key);
        let new_id = match id {
            Some(v) => v,
            None => cur.id,
        };
        let new_name = match name {
            Some(v) => v,
            None => cur.name,
        };
        let mut new_args = cur.args;
        match args {
            Some(a) => new_args.append(a.as_str()),
            None => {
                assert(new_args@ + Seq::<char>::empty() == new_args@);
            },
        }
        let slot = ToolSlot { key: cur.key, id: new_id, name: new_name, args: new_args };
        self.put(key, slot, Ghost(f));
    }

    /// Takes the call at `key` out of the store, if there is one.
    pub fn take(&mut self, key: u64) -> (r: Option<ToolSlot>)
        requires
            old(self).wf(),
        ensures
            final(self).wf(),
            final(self)@ == remove_key(old(self)@, key),
            match r {
                Some(t) => lookup(old(self)@, key) == Some(t@),
                None => lookup(old(self)@, key) is None && final(self)@ == old(self)@,
            },
    {
        let ghost s = self@;
        proof {
            assert forall|j: u64| true implies #[trigger] lookup(remove_key(s, key), j) == (if j == key {
                None
            } else {
                lookup(s, j)
            }) by {
                lemma_remove(s, key, -1, j);
            }
            lemma_remove(s, key, -1, key);
            if lookup(s, key) is None {
                lemma_lookup_none(s, key);
                assert forall|j: u64| true implies #[trigger] lookup(remove_key(s, key), j) == lookup(s, j) by {}
                lemma_sorted_unique(remove_key(s, key), s);
            }
        }
        let r = self.map.remove(&key);
        self.order = Ghost(remove_key(s, key));
        assert forall|k: u64| #![auto] (self.map@.contains_key(k) <==> lookup(self@, k) is Some)
            && (self.map@.contains_key(k) ==> lookup(self@, k) == Some(self.map@[k]@)) by {
            assert(lookup(remove_key(s, key), k) == (if k == key { None } else { lookup(s, k) }));
        }
        r
    }

    /// All calls, in ascending key order, leaving the store empty.
    pub fn drain_all(&mut self) -> (r: Vec<ToolSlot>)
        requires
            old(self).wf(),
        ensures
            slots_view(r@) == old(self)@,
            final(self)@ == Seq::<SlotView>::empty(),
            final(self).wf(),
    {
        let ghost s = self@;
        let mut m: BTreeMap<u64, ToolSlot> = BTreeMap::new();
        std::mem::swap(&mut m, &mut self.map);
        self.order = Ghost(Seq::empty());
        let ghost m0 = m@;
        let keys = sorted_keys(&m);
        let mut out: Vec<ToolSlot> = Vec::new();
        let mut i: usize = 0;
        while i < keys.len()
            invariant
                0 <= i <= keys@.len(),
                keys@.len() == m0.dom().len(),
                keys@.to_set() == m0.dom(),
                forall|a: int, b: int| 0 <= a < b < keys@.len() ==> keys@[a] < keys@[b],
                out@.len() == i,
                forall|a: int| 0 <= a < i ==> (#[trigger] out@[a])@ == m0[keys@[a]]@ && out@[a].key == keys@[a],
                forall|a: int| i <= a < keys@.len() ==> m@.contains_key(#[trigger] keys@[a]) && m@[keys@[a]] == m0[keys@[a]],
                agrees(m0, s),
            decreases keys@.len() - i,
        {
            let k = keys[i];
            assert(keys@.to_set().contains(k));
            let ghost before = m@;
            let t = m.remove(&k);
            match t {
                Some(t) => {
                    proof {
                        assert(lookup(s, k) == Some(m0[k]@));
                        lemma_lookup_some(s, k);
                        assert forall|a: int| i + 1 <= a < keys@.len() implies m@.contains_key(#[trigger] keys@[a]) && m@[keys@[a]] == m0[keys@[a]] by {
                            assert(keys@[a] != k);
                            assert(before.contains_key(keys@[a]));
                        }
                    }
                    out.push(t);
                },
                None => {
                    assert(before.contains_key(k));
                    assert(false);
                    return out;
                },
            }
            i = i + 1;
        }
        proof {
            let v = slots_view(out@);
            assert forall|a: int| 0 <= a < v.len() implies v[a] == m0[keys@[a]]@ && v[a].key == keys@[a] by {
                assert(v[a] == out@[a]@);
            }
            assert(slots_sorted(v));
            assert forall|k: u64| #[trigger] lookup(v, k) == lookup(s, k) by {
                if m0.contains_key(k) {
                    assert(keys@.to_set().contains(k));
                    let a = choose|a: int| 0 <= a < keys@.len() && keys@[a] == k;
                    lemma_lookup_position(v, a);
                } else {
                    lemma_lookup_none(v, k);
                    assert forall|a: int| 0 <= a < v.len() implies v[a].key != k by {
                        assert(keys@.to_set().contains(keys@[a]));
                    }
                }
            }
            lemma_sorted_unique(v, s);
        }
        assert forall|k: u64| #![auto] !self.map@.contains_key(k) && lookup(self@, k) is None by {}
        out
    }
}

pub open spec fn opt_view(o: Option<String>) -> Option<Seq<char>> {
    match o {
        Some(s) => Some(s@),
        None => None,
    }
}

/// The update one streamed fragment makes to a call.
pub open spec fn merge_fn(id: Option<Seq<char>>, name: Option<Seq<char>>, args: Option<Seq<char>>) -> spec_fn(SlotView) -> SlotView {
    |x: SlotView| SlotView {
        key: x.key,
        id: match id { Some(v) => v, None => x.id },
        name: match name { Some(v) => v, None => x.name },
        args: match args { Some(a) => x.args + a, None => x.args },
    }
}

} // verus!
