//! The injected secret store for API keys. The core never reaches for
//! platform credential storage itself: the surrounding application hands in
//! a [`SecretStore`] and backs it with the real keychain.

use crate::error::AppError;
use crate::text::str_eq;
use vstd::prelude::*;

verus! {

/// One named secret.
#[derive(Debug)]
pub struct SecretEntry {
    pub name: String,
    pub value: String,
}

/// Mathematical image of one named secret.
pub ghost struct SecretView {
    pub name: Seq<char>,
    pub value: Seq<char>,
}

impl View for SecretEntry {
    type V = SecretView;

    open spec fn view(&self) -> SecretView {
        SecretView { name: self.name@, value: self.value@ }
    }
}

impl DeepView for SecretEntry {
    type V = SecretView;

    open spec fn deep_view(&self) -> SecretView {
        self.view()
    }
}

pub open spec fn secret_names_unique(st: Seq<SecretView>) -> bool {
    forall|i: int, j: int| 0 <= i < j < st.len() ==> #[trigger] st[i].name != #[trigger] st[j].name
}

/// Index of the secret with the given name, or -1.
pub open spec fn spec_secret_index(st: Seq<SecretView>, name: Seq<char>) -> int
    decreases st.len(),
{
    if st.len() == 0 {
        -1
    } else if st[0].name == name {
        0
    } else {
        let r = spec_secret_index(st.skip(1), name);
        if r == -1 {
            -1
        } else {
            1 + r
        }
    }
}

pub proof fn lemma_secret_index_props(st: Seq<SecretView>, name: Seq<char>)
    ensures
        ({
            let k = spec_secret_index(st, name);
            &&& -1 <= k < st.len()
            &&& k >= 0 ==> st[k].name == name && (forall|i: int|
                0 <= i < k ==> (#[trigger] st[i].name) != name)
            &&& k == -1 ==> forall|i: int| 0 <= i < st.len() ==> (#[trigger] st[i].name) != name
        }),
    decreases st.len(),
{
    if st.len() > 0 {
        lemma_secret_index_props(st.skip(1), name);
        assert(st.skip(1).len() == st.len() - 1);
        if st[0].name != name {
            assert forall|i: int| 0 < i < st.len() implies st.skip(1)[i - 1] == st[i] by {}
        }
    }
}

/// The stored value under a name, if any.
pub open spec fn spec_secret_lookup(st: Seq<SecretView>, name: Seq<char>) -> Option<Seq<char>> {
    let k = spec_secret_index(st, name);
    if k >= 0 {
        Some(st[k].value)
    } else {
        None
    }
}

/// The stored value under a name, when it is present and not empty — an
/// empty secret counts as not configured.
pub open spec fn spec_secret_nonempty(st: Seq<SecretView>, name: Seq<char>) -> Option<Seq<char>> {
    match spec_secret_lookup(st, name) {
        Some(v) => if v.len() > 0 {
            Some(v)
        } else {
            None
        },
        None => None,
    }
}

/// Whether a nonempty secret is stored under the name.
pub open spec fn spec_has_secret(st: Seq<SecretView>, name: Seq<char>) -> bool {
    spec_secret_nonempty(st, name) is Some
}

/// The store after a value is written under a name: an upsert.
pub open spec fn spec_secret_set(st: Seq<SecretView>, name: Seq<char>, value: Seq<char>) -> Seq<
    SecretView,
> {
    let k = spec_secret_index(st, name);
    let row = SecretView { name: name, value: value };
    if k >= 0 {
        st.update(k, row)
    } else {
        st.push(row)
    }
}

/// The store after a name is removed; removing an absent name is no change.
pub open spec fn spec_secret_remove(st: Seq<SecretView>, name: Seq<char>) -> Seq<SecretView> {
    let k = spec_secret_index(st, name);
    if k >= 0 {
        st.remove(k)
    } else {
        st
    }
}

/// The injected secret store: named secrets, each name held once.
#[derive(Debug)]
pub struct SecretStore {
    items: Vec<SecretEntry>,
}

impl View for SecretStore {
    type V = Seq<SecretView>;

    closed spec fn view(&self) -> Seq<SecretView> {
        self.items.deep_view()
    }
}

impl SecretStore {
    pub open spec fn wf(&self) -> bool {
        secret_names_unique(self@)
    }

    /// An empty vault.
    pub fn new() -> (s: SecretStore)
        ensures
            s.wf(),
            s@ == Seq::<SecretView>::empty(),
    {
        let s = SecretStore { items: Vec::new() };
        proof {
            assert(s@ =~= Seq::<SecretView>::empty());
        }
        s
    }

    fn find(&self, name: &str) -> (r: Option<usize>)
        ensures
            match r {
                Some(i) => 0 <= i < self@.len() && i as int == spec_secret_index(self@, name@),
                None => spec_secret_index(self@, name@) == -1,
            },
    {
        let ghost st = self@;
        let mut i: usize = 0;
        while i < self.items.len()
            invariant
                i <= self.items.len(),
                st == self@,
                self.items.deep_view() == st,
                forall|j: int| 0 <= j < i ==> (#[trigger] st[j].name) != name@,
            decreases self.items.len() - i,
        {
            if str_eq(self.items[i].name.as_str(), name) {
                proof {
                    lemma_secret_index_props(st, name@);
                    assert(st[i as int].name == name@);
                }
                return Some(i);
            }
            i = i + 1;
        }
        proof {
            lemma_secret_index_props(st, name@);
            let k = spec_secret_index(st, name@);
            if k >= 0 {
                assert(st[k].name == name@);
                assert(false);
            }
        }
        None
    }

    /// The value stored under the name, if any.
    pub fn get(&self, name: &str) -> (r: Option<String>)
        ensures
            match r {
                Some(v) => spec_secret_lookup(self@, name@) == Some(v@),
                None => spec_secret_lookup(self@, name@) is None,
            },
    {
        match self.find(name) {
            Some(i) => Some(self.items[i].value.clone()),
            None => None,
        }
    }

    /// Store a value under the name, replacing an earlier one.
    pub fn set(&mut self, name: &str, value: &str)
        requires
            old(self).wf(),
        ensures
            final(self).wf(),
            final(self)@ == spec_secret_set(old(self)@, name@, value@),
    {
        let ghost pre = self@;
        let row = SecretEntry { name: name.to_owned(), value: value.to_owned() };
        let ghost rv = row@;
        match self.find(name) {
            Some(i) => {
                self.items[i] = row;
                proof {
                    lemma_secret_index_props(pre, name@);
                    assert(self@ =~= pre.update(i as int, rv));
                    assert forall|a: int, b: int| 0 <= a < b < self@.len() implies (
                    #[trigger] self@[a].name) != (#[trigger] self@[b].name) by {
                        assert(pre[a].name != pre[b].name);
                    }
                }
            },
            None => {
                self.items.push(row);
                proof {
                    lemma_secret_index_props(pre, name@);
                    assert(self@ =~= pre.push(rv));
                    assert forall|a: int, b: int| 0 <= a < b < self@.len() implies (
                    #[trigger] self@[a].name) != (#[trigger] self@[b].name) by {
                        if b == self@.len() - 1 {
                            assert(pre[a].name != name@);
                        }
                    }
                }
            },
        }
    }

    /// Drop the value under the name; an absent name is no error.
    pub fn remove(&mut self, name: &str)
        requires
            old(self).wf(),
        ensures
            final(self).wf(),
            final(self)@ == spec_secret_remove(old(self)@, name@),
    {
        let ghost pre = self@;
        match self.find(name) {
            Some(i) => {
                let _ = self.items.remove(i);
                proof {
                    assert(self@ =~= pre.remove(i as int));
                    pre.remove_ensures(i as int);
                    assert forall|a: int, b: int| 0 <= a < b < self@.len() implies (
                    #[trigger] self@[a].name) != (#[trigger] self@[b].name) by {
                        if b < i {
                            assert(self@[a] == pre[a] && self@[b] == pre[b]);
                        } else if a < i {
                            assert(self@[a] == pre[a] && self@[b] == pre[b + 1]);
                        } else {
                            assert(self@[a] == pre[a + 1] && self@[b] == pre[b + 1]);
                        }
                    }
                }
            },
            None => {},
        }
    }
}

/// The AI provider's API key, when a nonempty one is stored.
pub fn get_api_key(vault: &SecretStore) -> (r: Result<Option<String>, AppError>)
    ensures
        r matches Ok(o) && (match o {
            Some(v) => spec_secret_nonempty(vault@, "ai-api-key"@) == Some(v@),
            None => spec_secret_nonempty(vault@, "ai-api-key"@) is None,
        }),
{
    match vault.get("ai-api-key") {
        Some(v) => {
            if v.unicode_len() > 0 {
                Ok(Some(v))
            } else {
                Ok(None)
            }
        },
        None => Ok(None),
    }
}

/// Store the AI provider's API key.
pub fn set_api_key(vault: &mut SecretStore, api_key: &str) -> (r: Result<(), AppError>)
    requires
        old(vault).wf(),
    ensures
        final(vault).wf(),
        final(vault)@ == spec_secret_set(old(vault)@, "ai-api-key"@, api_key@),
        r is Ok,
{
    vault.set("ai-api-key", api_key);
    Ok(())
}

/// Drop the AI provider's API key; an absent key is no error.
pub fn delete_api_key(vault: &mut SecretStore) -> (r: Result<(), AppError>)
    requires
        old(vault).wf(),
    ensures
        final(vault).wf(),
        final(vault)@ == spec_secret_remove(old(vault)@, "ai-api-key"@),
        r is Ok,
{
    vault.remove("ai-api-key");
    Ok(())
}

/// Whether a nonempty AI API key is stored.
pub fn has_api_key(vault: &SecretStore) -> (r: bool)
    ensures
        r == spec_has_secret(vault@, "ai-api-key"@),
{
    match get_api_key(vault) {
        Ok(o) => o.is_some(),
        Err(_) => false,
    }
}

/// The speech synthesis API key, when a nonempty one is stored.
pub fn get_tts_api_key(vault: &SecretStore) -> (r: Result<Option<String>, AppError>)
    ensures
        r matches Ok(o) && (match o {
            Some(v) => spec_secret_nonempty(vault@, "tts-api-key"@) == Some(v@),
            None => spec_secret_nonempty(vault@, "tts-api-key"@) is None,
        }),
{
    match vault.get("tts-api-key") {
        Some(v) => {
            if v.unicode_len() > 0 {
                Ok(Some(v))
            } else {
                Ok(None)
            }
        },
        None => Ok(None),
    }
}

/// Store the speech synthesis API key.
pub fn set_tts_api_key(vault: &mut SecretStore, api_key: &str) -> (r: Result<(), AppError>)
    requires
        old(vault).wf(),
    ensures
        final(vault).wf(),
        final(vault)@ == spec_secret_set(old(vault)@, "tts-api-key"@, api_key@),
        r is Ok,
{
    vault.set("tts-api-key", api_key);
    Ok(())
}

/// Drop the speech synthesis API key; an absent key is no error.
pub fn delete_tts_api_key(vault: &mut SecretStore) -> (r: Result<(), AppError>)
    requires
        old(vault).wf(),
    ensures
        final(vault).wf(),
        final(vault)@ == spec_secret_remove(old(vault)@, "tts-api-key"@),
        r is Ok,
{
    vault.remove("tts-api-key");
    Ok(())
}

/// Whether a nonempty speech synthesis API key is stored.
pub fn has_tts_api_key(vault: &SecretStore) -> (r: bool)
    ensures
        r == spec_has_secret(vault@, "tts-api-key"@),
{
    match get_tts_api_key(vault) {
        Ok(o) => o.is_some(),
        Err(_) => false,
    }
}

/// The Murf API key, when a nonempty one is stored.
pub fn get_murf_api_key(vault: &SecretStore) -> (r: Result<Option<String>, AppError>)
    ensures
        r matches Ok(o) && (match o {
            Some(v) => spec_secret_nonempty(vault@, "murf-api-key"@) == Some(v@),
            None => spec_secret_nonempty(vault@, "murf-api-key"@) is None,
        }),
{
    match vault.get("murf-api-key") {
        Some(v) => {
            if v.unicode_len() > 0 {
                Ok(Some(v))
            } else {
                Ok(None)
            }
        },
        None => Ok(None),
    }
}

/// Store the Murf API key.
pub fn set_murf_api_key(vault: &mut SecretStore, api_key: &str) -> (r: Result<(), AppError>)
    requires
        old(vault).wf(),
    ensures
        final(vault).wf(),
        final(vault)@ == spec_secret_set(old(vault)@, "murf-api-key"@, api_key@),
        r is Ok,
{
    vault.set("murf-api-key", api_key);
    Ok(())
}

/// Drop the Murf API key; an absent key is no error.
pub fn delete_murf_api_key(vault: &mut SecretStore) -> (r: Result<(), AppError>)
    requires
        old(vault).wf(),
    ensures
        final(vault).wf(),
        final(vault)@ == spec_secret_remove(old(vault)@, "murf-api-key"@),
        r is Ok,
{
    vault.remove("murf-api-key");
    Ok(())
}

/// Whether a nonempty Murf API key is stored.
pub fn has_murf_api_key(vault: &SecretStore) -> (r: bool)
    ensures
        r == spec_has_secret(vault@, "murf-api-key"@),
{
    match get_murf_api_key(vault) {
        Ok(o) => o.is_some(),
        Err(_) => false,
    }
}

} // verus!
