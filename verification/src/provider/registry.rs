//! Which providers are loaded, and which one is active.
//!
//! Building the provider clients (HTTP, keychain) is the caller's work; the
//! registry keeps their ids and the choice of the active one.

use vstd::prelude::*;

use crate::order::{sort_strings, sorted_strings, str_views};
use crate::provider::error::{ErrorKindView, ProviderError};
use crate::provider::types::str_eq;
use crate::text::{chars_of, string_from_chars, trim_chars, trim_seq};

verus! {

/// Registry lookup failure.
#[derive(Debug)]
pub enum RegistryError {
    Unknown(String),
}

impl RegistryError {
    pub open spec fn id_view(&self) -> Seq<char> {
        match self {
            RegistryError::Unknown(s) => s@,
        }
    }

    /// The error's text.
    pub fn text(&self) -> (r: String)
        ensures
            r@ == "unknown provider id `"@ + self.id_view() + "`"@,
    {
        match self {
            RegistryError::Unknown(s) => {
                let mut t = "unknown provider id `".to_owned();
                t.append(s.as_str());
                t.append("`");
                t
            },
        }
    }
}

/// The names of the built-in providers.
pub open spec fn is_builtin(s: Seq<char>) -> bool {
    s == "anthropic"@ || s == "openai"@ || s == "ollama"@
}

/// The registry id that the settings' `active.provider` names: built-in
/// names and ids with a `:` as written (trimmed), other names as
/// `custom:<name>`.
pub open spec fn active_key(raw: Seq<char>) -> Result<Seq<char>, ErrorKindView> {
    let s = trim_seq(raw);
    if s.len() == 0 {
        Err(ErrorKindView::Config("active.provider is empty"@))
    } else if s.contains(':') || is_builtin(s) {
        Ok(s)
    } else {
        Ok("custom:"@ + s)
    }
}

fn has_colon(s: &Vec<char>) -> (r: bool)
    ensures
        r == s@.contains(':'),
{
    let mut i: usize = 0;
    while i < s.len()
        invariant
            0 <= i <= s@.len(),
            forall|k: int| 0 <= k < i ==> s@[k] != ':',
        decreases s@.len() - i,
    {
        if s[i] == ':' {
            assert(s@[i as int] == ':');
            return true;
        }
        i = i + 1;
    }
    false
}

pub fn normalize_active_key(raw: &str) -> (r: Result<String, ProviderError>)
    ensures
        match active_key(raw@) {
            Ok(k) => r is Ok && r->Ok_0@ == k,
            Err(e) => r is Err && r->Err_0@ == e,
        },
{
    let rc = chars_of(raw);
    let t = trim_chars(&rc);
    if t.len() == 0 {
        return Err(ProviderError::config("active.provider is empty".to_owned()));
    }
    let s = string_from_chars(t.as_slice());
    if has_colon(&t) || str_eq(s.as_str(), "anthropic") || str_eq(s.as_str(), "openai") || str_eq(
        s.as_str(),
        "ollama",
    ) {
        Ok(s)
    } else {
        let mut out = "custom:".to_owned();
        out.append(s.as_str());
        Ok(out)
    }
}

/// Trimming twice trims no more.
proof fn lemma_trim_idempotent(s: Seq<char>)
    ensures
        trim_seq(trim_seq(s)) == trim_seq(s),
{
    crate::text::lemma_trim_idempotent(s);
}

/// Normalizing an id that `active_key` produced gives it back: the active
/// id survives being written to the settings and read again.
pub proof fn law_active_key_idempotent(raw: Seq<char>)
    ensures
        active_key(raw) matches Ok(k) ==> active_key(k) == Ok::<Seq<char>, ErrorKindView>(k),
{
    if let Ok(k) = active_key(raw) {
        let s = trim_seq(raw);
        lemma_trim_idempotent(raw);
        if s.contains(':') || is_builtin(s) {
            assert(k == s);
        } else {
            reveal_strlit("custom:");
            let c = "custom:"@ + s;
            assert("custom:"@ =~= seq!['c', 'u', 's', 't', 'o', 'm', ':']);
            assert(c[6] == ':');
            assert(c.contains(':'));
            crate::text::lemma_trim_prefixed(seq!['c', 'u', 's', 't', 'o', 'm', ':'], s);
        }
    }
}

/// `a` and `b` hold the same strings.
pub open spec fn same_members(a: Seq<Seq<char>>, b: Seq<Seq<char>>) -> bool {
    forall|x: Seq<char>| a.contains(x) <==> b.contains(x)
}

/// The ids of the loaded providers and the active one.
#[derive(Debug)]
pub struct ProviderRegistry {
    providers: Vec<String>,
    active_id: Option<String>,
}

pub open spec fn opt_view(o: Option<String>) -> Option<Seq<char>> {
    match o {
        Some(s) => Some(s@),
        None => None,
    }
}

impl ProviderRegistry {
    pub closed spec fn ids(&self) -> Seq<Seq<char>> {
        str_views(self.providers@)
    }

    pub closed spec fn active_view(&self) -> Option<Seq<char>> {
        opt_view(self.active_id)
    }

    /// The active id, when set, is a loaded provider.
    pub open spec fn wf(&self) -> bool {
        self.active_view() matches Some(a) ==> self.ids().contains(a)
    }

    fn index_of(&self, id: &str) -> (r: Option<usize>)
        ensures
            match r {
                Some(i) => i < self.ids().len() && self.ids()[i as int] == id@,
                None => !self.ids().contains(id@),
            },
    {
        let mut i: usize = 0;
        while i < self.providers.len()
            invariant
                0 <= i <= self.providers@.len(),
                forall|k: int| 0 <= k < i ==> self.providers@[k]@ != id@,
            decreases self.providers@.len() - i,
        {
            if str_eq(self.providers[i].as_str(), id) {
                return Some(i);
            }
            i = i + 1;
        }
        proof {
            if self.ids().contains(id@) {
                let k = choose|k: int| 0 <= k < self.ids().len() && self.ids()[k] == id@;
                assert(self.providers@[k]@ == id@);
            }
        }
        None
    }

    /// The registry over the providers that were built (`loaded`, in the
    /// order they were built; a repeated id counts once), with the active
    /// one taken from the settings' `active.provider`: that provider when
    /// it was built, else some built provider, else none.
    pub fn from_loaded(loaded: Vec<String>, active_raw: &str) -> (r: Result<ProviderRegistry, ProviderError>)
        ensures
            match active_key(active_raw@) {
                Err(e) => r is Err && r->Err_0@ == e,
                Ok(k) => r is Ok && r->Ok_0.wf() && same_members(r->Ok_0.ids(), str_views(loaded@))
                    && if str_views(loaded@).contains(k) {
                    r->Ok_0.active_view() == Some(k)
                } else if loaded@.len() > 0 {
                    r->Ok_0.active_view() is Some
                } else {
                    r->Ok_0.active_view() is None
                },
            },
    {
        let mut reg = ProviderRegistry { providers: Vec::new(), active_id: None };
        let mut i: usize = 0;
        while i < loaded.len()
            invariant
                0 <= i <= loaded@.len(),
                reg.active_id is None,
                same_members(reg.ids(), str_views(loaded@.subrange(0, i as int))),
            decreases loaded@.len() - i,
        {
            let ghost before = reg.ids();
            let id = loaded[i].clone();
            let ghost pre = str_views(loaded@.subrange(0, i as int));
            let ghost post = str_views(loaded@.subrange(0, i + 1));
            proof {
                assert(post =~= pre.push(loaded@[i as int]@));
            }
            if reg.index_of(id.as_str()).is_none() {
                reg.providers.push(id);
                assert(reg.ids() =~= before.push(loaded@[i as int]@));
            }
            proof {
                assert forall|x: Seq<char>| reg.ids().contains(x) <==> post.contains(x) by {
                    if reg.ids().contains(x) {
                        let k = choose|k: int| 0 <= k < reg.ids().len() && reg.ids()[k] == x;
                        if k < before.len() {
                            assert(before[k] == x);
                            assert(before.contains(x));
                            let m = choose|m: int| 0 <= m < pre.len() && pre[m] == x;
                            assert(post[m] == x);
                        } else {
                            assert(post[i as int] == x);
                        }
                    }
                    if post.contains(x) {
                        let m = choose|m: int| 0 <= m < post.len() && post[m] == x;
                        if m < i {
                            assert(pre[m] == x);
                            assert(pre.contains(x));
                            let k = choose|k: int| 0 <= k < before.len() && before[k] == x;
                            assert(reg.ids()[k] == x);
                        } else if !before.contains(x) {
                            assert(reg.ids()[before.len() as int] == x);
                        } else {
                            let k = choose|k: int| 0 <= k < before.len() && before[k] == x;
                            assert(reg.ids()[k] == x);
                        }
                    }
                }
            }
            i = i + 1;
        }
        proof {
            assert(loaded@.subrange(0, loaded@.len() as int) =~= loaded@);
        }
        let key = normalize_active_key(active_raw)?;
        let ghost lv = str_views(loaded@);
        match reg.index_of(key.as_str()) {
            Some(j) => {
                assert(reg.ids().contains(key@));
                assert(lv.contains(key@));
                reg.active_id = Some(key);
            },
            None => {
                assert(!lv.contains(key@));
                if reg.providers.len() > 0 {
                    let first = reg.providers[0].clone();
                    reg.active_id = Some(first);
                    assert(reg.ids()[0] == first@);
                    assert(reg.ids().contains(first@));
                    assert(lv.contains(first@));
                    assert(loaded@.len() > 0);
                } else {
                    proof {
                        if loaded@.len() > 0 {
                            assert(lv[0] == loaded@[0]@);
                            assert(lv.contains(loaded@[0]@));
                            assert(reg.ids().contains(loaded@[0]@));
                        }
                    }
                }
            },
        }
        Ok(reg)
    }

    /// Makes `id` active when it is loaded.
    pub fn set_active(&mut self, id: &str) -> (r: Result<(), RegistryError>)
        requires
            old(self).wf(),
        ensures
            final(self).wf(),
            final(self).ids() == old(self).ids(),
            old(self).ids().contains(id@) ==> r is Ok && final(self).active_view() == Some(id@),
            !old(self).ids().contains(id@) ==> r is Err && r->Err_0.id_view() == id@
                && final(self).active_view() == old(self).active_view(),
    {
        match self.index_of(id) {
            Some(_) => {
                self.active_id = Some(id.to_owned());
                Ok(())
            },
            None => Err(RegistryError::Unknown(id.to_owned())),
        }
    }

    /// Whether a provider with this id is loaded (`get` finds it).
    pub fn contains(&self, id: &str) -> (r: bool)
        ensures
            r == self.ids().contains(id@),
    {
        self.index_of(id).is_some()
    }

    /// The loaded ids in ascending order.
    pub fn list(&self) -> (r: Vec<String>)
        ensures
            sorted_strings(str_views(r@)),
            str_views(r@).to_multiset() == self.ids().to_multiset(),
    {
        let mut copy: Vec<String> = Vec::new();
        let mut i: usize = 0;
        while i < self.providers.len()
            invariant
                0 <= i <= self.providers@.len(),
                str_views(copy@) == str_views(self.providers@.subrange(0, i as int)),
            decreases self.providers@.len() - i,
        {
            let ghost before = copy@;
            let c = self.providers[i].clone();
            assert(c@ == self.providers@[i as int]@);
            copy.push(c);
            assert(str_views(copy@) =~= str_views(before).push(c@));
            assert(str_views(self.providers@.subrange(0, i + 1)) =~= str_views(
                self.providers@.subrange(0, i as int),
            ).push(c@));
            i = i + 1;
        }
        assert(self.providers@.subrange(0, self.providers@.len() as int) =~= self.providers@);
        sort_strings(copy)
    }

    pub fn active_id(&self) -> (r: Option<&str>)
        ensures
            match r {
                Some(s) => self.active_view() == Some(s@),
                None => self.active_view() is None,
            },
    {
        match &self.active_id {
            Some(s) => Some(s.as_str()),
            None => None,
        }
    }
}

} // verus!
