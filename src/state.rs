//! The service's state: API keys, AI providers and their selection, the
//! settings and the recent history.

use vstd::prelude::*;
use crate::model::{AppSettings, HistoryEntry, ProviderStatus};

verus! {

/// The history keeps at most this many entries.
pub const HISTORY_LIMIT: usize = 100;

/// The state shared by the service's operations.
pub struct AppState {
    pub history: Vec<HistoryEntry>,
    pub settings: AppSettings,
    /// Provider name and API key; each provider at most once.
    pub api_keys: Vec<(String, String)>,
    pub providers: Vec<ProviderStatus>,
}

/// The first index from `i` on of an entry keyed `k`, or -1.
pub open spec fn key_index_from(s: Seq<(String, String)>, k: Seq<char>, i: int) -> int
    decreases s.len() - i,
{
    if i < 0 || i >= s.len() {
        -1
    } else if s[i].0@ == k {
        i
    } else {
        key_index_from(s, k, i + 1)
    }
}

/// The key stored for provider `k`.
pub open spec fn key_lookup(s: Seq<(String, String)>, k: Seq<char>) -> Option<Seq<char>> {
    let i = key_index_from(s, k, 0);
    if i < 0 { None } else { Some(s[i].1@) }
}

/// The key of the last of the first `n` entries for provider `k`.
pub open spec fn last_key(found: Seq<(String, String)>, k: Seq<char>, n: int) -> Option<Seq<char>>
    decreases n,
{
    if n <= 0 {
        None
    } else if found[n - 1].0@ == k {
        Some(found[n - 1].1@)
    } else {
        last_key(found, k, n - 1)
    }
}

/// The first index from `i` on of a provider named `name`, or -1.
pub open spec fn provider_index_from(ps: Seq<ProviderStatus>, name: Seq<char>, i: int) -> int
    decreases ps.len() - i,
{
    if i < 0 || i >= ps.len() {
        -1
    } else if ps[i].name@ == name {
        i
    } else {
        provider_index_from(ps, name, i + 1)
    }
}

/// A provider that can take work.
pub open spec fn usable(p: ProviderStatus) -> bool {
    p.enabled && p.available
}

/// The first index from `i` on of a usable provider named `name`, or -1.
pub open spec fn usable_named_from(ps: Seq<ProviderStatus>, name: Seq<char>, i: int) -> int
    decreases ps.len() - i,
{
    if i < 0 || i >= ps.len() {
        -1
    } else if ps[i].name@ == name && usable(ps[i]) {
        i
    } else {
        usable_named_from(ps, name, i + 1)
    }
}

/// `j` is the first usable provider of the lowest priority number.
pub open spec fn first_best(ps: Seq<ProviderStatus>, j: int) -> bool {
    &&& 0 <= j < ps.len()
    &&& usable(ps[j])
    &&& forall|k: int| 0 <= k < ps.len() && usable(#[trigger] ps[k]) ==> ps[j].priority <= ps[k].priority
    &&& forall|k: int| 0 <= k < j && usable(#[trigger] ps[k]) ==> ps[j].priority < ps[k].priority
}

proof fn lemma_key_index_bounds(s: Seq<(String, String)>, k: Seq<char>, i: int)
    requires
        0 <= i,
    ensures
        key_index_from(s, k, i) == -1 || (i <= key_index_from(s, k, i) < s.len()
            && s[key_index_from(s, k, i)].0@ == k),
        key_index_from(s, k, i) == -1 ==> forall|j: int| i <= j < s.len() ==> (#[trigger] s[j]).0@ != k,
        key_index_from(s, k, i) >= 0 ==> forall|j: int| i <= j < key_index_from(s, k, i) ==> (#[trigger] s[j]).0@ != k,
    decreases s.len() - i,
{
    if i < s.len() && s[i].0@ != k {
        lemma_key_index_bounds(s, k, i + 1);
    }
}

proof fn lemma_key_index_same_keys(s: Seq<(String, String)>, t: Seq<(String, String)>, k: Seq<char>, i: int)
    requires
        s.len() == t.len(),
        forall|j: int| 0 <= j < s.len() ==> (#[trigger] s[j]).0@ == t[j].0@,
    ensures
        key_index_from(s, k, i) == key_index_from(t, k, i),
    decreases s.len() - i,
{
    if 0 <= i < s.len() && s[i].0@ != k {
        lemma_key_index_same_keys(s, t, k, i + 1);
    }
}

proof fn lemma_key_index_push(s: Seq<(String, String)>, e: (String, String), k: Seq<char>, i: int)
    requires
        0 <= i <= s.len(),
    ensures
        key_index_from(s.push(e), k, i) == if key_index_from(s, k, i) >= 0 {
            key_index_from(s, k, i)
        } else if e.0@ == k {
            s.len() as int
        } else {
            -1
        },
    decreases s.len() - i,
{
    let t = s.push(e);
    if i < s.len() {
        assert(t[i] == s[i]);
        if s[i].0@ != k {
            lemma_key_index_push(s, e, k, i + 1);
        }
    } else {
        assert(t[i] == e);
        assert(key_index_from(t, k, i + 1) == -1);
    }
}

fn find_key(keys: &Vec<(String, String)>, k: &String) -> (r: Option<usize>)
    ensures
        match r {
            Some(i) => i as int == key_index_from(keys@, k@, 0),
            None => key_index_from(keys@, k@, 0) == -1,
        },
{
    let mut i: usize = 0;
    while i < keys.len()
        invariant
            i <= keys@.len(),
            key_index_from(keys@, k@, i as int) == key_index_from(keys@, k@, 0),
        decreases keys@.len() - i,
    {
        if keys[i].0 == *k {
            return Some(i);
        }
        i += 1;
    }
    None
}

fn find_provider(ps: &Vec<ProviderStatus>, name: &String) -> (r: Option<usize>)
    ensures
        match r {
            Some(i) => i as int == provider_index_from(ps@, name@, 0) && i < ps@.len(),
            None => provider_index_from(ps@, name@, 0) == -1,
        },
{
    let mut i: usize = 0;
    while i < ps.len()
        invariant
            i <= ps@.len(),
            provider_index_from(ps@, name@, i as int) == provider_index_from(ps@, name@, 0),
        decreases ps@.len() - i,
    {
        if ps[i].name == *name {
            return Some(i);
        }
        i += 1;
    }
    None
}

/// A provider entry, enabled, with no error yet.
fn provider(name: &str, available: bool, priority: u8) -> (r: ProviderStatus)
    ensures
        r.name@ == name@,
        r.enabled,
        r.available == available,
        r.priority == priority,
        r.last_error is None,
{
    ProviderStatus { name: name.to_owned(), enabled: true, available, priority, last_error: None }
}

impl AppState {
    /// State with the API keys found at start-up (a later duplicate wins),
    /// default settings, an empty history, and the providers in priority
    /// order google, anthropic, openai, mistral, groq and ollama, each
    /// available where it has a key; ollama needs none and starts
    /// unavailable.
    pub fn new(found_keys: Vec<(String, String)>) -> (r: AppState)
        ensures
            r.history@.len() == 0,
            r.providers@.len() == 6,
            r.providers@[0].name@ == "google"@,
            r.providers@[0].available == key_lookup(r.api_keys@, "google"@) is Some,
            r.providers@[1].name@ == "anthropic"@,
            r.providers@[1].available == key_lookup(r.api_keys@, "anthropic"@) is Some,
            r.providers@[2].name@ == "openai"@,
            r.providers@[2].available == key_lookup(r.api_keys@, "openai"@) is Some,
            r.providers@[3].name@ == "mistral"@,
            r.providers@[3].available == key_lookup(r.api_keys@, "mistral"@) is Some,
            r.providers@[4].name@ == "groq"@,
            r.providers@[4].available == key_lookup(r.api_keys@, "groq"@) is Some,
            r.providers@[5].name@ == "ollama"@,
            !r.providers@[5].available,
            forall|i: int| 0 <= i < 6 ==> (#[trigger] r.providers@[i]).enabled && r.providers@[i].priority == i + 1
                && r.providers@[i].last_error is None,
            forall|k: Seq<char>| #[trigger] key_lookup(r.api_keys@, k) == last_key(found_keys@, k, found_keys@.len() as int),
    {
        let mut st = AppState {
            history: Vec::new(),
            settings: AppSettings::default(),
            api_keys: Vec::new(),
            providers: Vec::new(),
        };
        let ghost found = found_keys@;
        let mut rest = found_keys;
        let n = rest.len();
        let mut i: usize = 0;
        while i < n
            invariant
                n == found.len(),
                i <= n,
                rest@ == found.subrange(i as int, n as int),
                st.history@.len() == 0,
                st.providers@.len() == 0,
                forall|k: Seq<char>| #[trigger] key_lookup(st.api_keys@, k) == last_key(found, k, i as int),
            decreases n - i,
        {
            let (name, key) = rest.remove(0);
            assert((name, key) == found[i as int]);
            st.store_key(&name, key);
            i += 1;
            assert(rest@ =~= found.subrange(i as int, n as int));
        }
        let google = st.has_key("google");
        let anthropic = st.has_key("anthropic");
        let openai = st.has_key("openai");
        let mistral = st.has_key("mistral");
        let groq = st.has_key("groq");
        st.providers.push(provider("google", google, 1));
        st.providers.push(provider("anthropic", anthropic, 2));
        st.providers.push(provider("openai", openai, 3));
        st.providers.push(provider("mistral", mistral, 4));
        st.providers.push(provider("groq", groq, 5));
        st.providers.push(provider("ollama", false, 6));
        st
    }

    fn has_key(&self, name: &str) -> (r: bool)
        ensures
            r == key_lookup(self.api_keys@, name@) is Some,
    {
        let owned = name.to_owned();
        find_key(&self.api_keys, &owned).is_some()
    }

    /// Stores `key` for `provider`, replacing a key stored before.
    fn store_key(&mut self, provider: &String, key: String)
        ensures
            final(self).history == old(self).history,
            final(self).settings == old(self).settings,
            final(self).providers == old(self).providers,
            forall|k: Seq<char>| #[trigger] key_lookup(final(self).api_keys@, k)
                == if k == provider@ { Some(key@) } else { key_lookup(old(self).api_keys@, k) },
    {
        let ghost s = self.api_keys@;
        match find_key(&self.api_keys, provider) {
            Some(i) => {
                proof {
                    lemma_key_index_bounds(s, provider@, 0);
                }
                self.api_keys.set(i, (provider.clone(), key));
                let ghost t = self.api_keys@;
                assert forall|k: Seq<char>| #[trigger] key_lookup(t, k)
                    == if k == provider@ { Some(key@) } else { key_lookup(s, k) } by {
                    lemma_key_index_same_keys(s, t, k, 0);
                    lemma_key_index_bounds(s, k, 0);
                }
            },
            None => {
                self.api_keys.push((provider.clone(), key));
                let ghost t = self.api_keys@;
                assert forall|k: Seq<char>| #[trigger] key_lookup(t, k)
                    == if k == provider@ { Some(key@) } else { key_lookup(s, k) } by {
                    lemma_key_index_push(s, t[s.len() as int], k, 0);
                    assert(t == s.push(t[s.len() as int]));
                    lemma_key_index_bounds(s, k, 0);
                }
            },
        }
    }
}

impl AppState {
    /// Stores the API key of a provider and marks the first provider of
    /// that name available.
    pub fn set_api_key(&mut self, provider: &String, key: String)
        ensures
            final(self).history == old(self).history,
            final(self).settings == old(self).settings,
            forall|k: Seq<char>| #[trigger] key_lookup(final(self).api_keys@, k)
                == if k == provider@ { Some(key@) } else { key_lookup(old(self).api_keys@, k) },
            ({
                let i = provider_index_from(old(self).providers@, provider@, 0);
                final(self).providers@ == if i < 0 {
                    old(self).providers@
                } else {
                    old(self).providers@.update(i, ProviderStatus { available: true, ..old(self).providers@[i] })
                }
            }),
    {
        self.store_key(provider, key);
        self.update_provider_availability(provider, true);
    }

    /// The API key stored for a provider.
    pub fn get_api_key(&self, provider: &String) -> (r: Option<&String>)
        ensures
            match r {
                Some(k) => key_lookup(self.api_keys@, provider@) == Some(k@),
                None => key_lookup(self.api_keys@, provider@) is None,
            },
    {
        match find_key(&self.api_keys, provider) {
            Some(i) => {
                proof {
                    lemma_key_index_bounds(self.api_keys@, provider@, 0);
                }
                Some(&self.api_keys[i].1)
            },
            None => None,
        }
    }

    /// Sets the availability of the first provider of that name.
    fn update_provider_availability(&mut self, provider: &String, available: bool)
        ensures
            final(self).history == old(self).history,
            final(self).settings == old(self).settings,
            final(self).api_keys == old(self).api_keys,
            ({
                let i = provider_index_from(old(self).providers@, provider@, 0);
                final(self).providers@ == if i < 0 {
                    old(self).providers@
                } else {
                    old(self).providers@.update(i, ProviderStatus { available, ..old(self).providers@[i] })
                }
            }),
    {
        match find_provider(&self.providers, provider) {
            Some(i) => {
                let ghost before = self.providers@;
                let p = self.providers.remove(i);
                let updated = ProviderStatus { available, ..p };
                self.providers.insert(i, updated);
                assert(self.providers@ =~= before.update(i as int, ProviderStatus { available, ..before[i as int] }));
            },
            None => {},
        }
    }

    /// The provider to use: the preferred one where it is usable, else the
    /// first usable one of the lowest priority number; `None` where no
    /// provider is usable.
    pub fn get_available_provider(&self) -> (r: Option<&String>)
        ensures
            ({
                let ps = self.providers@;
                let pref = match self.settings.preferred_provider {
                    Some(p) => usable_named_from(ps, p@, 0),
                    None => -1,
                };
                if pref >= 0 {
                    r matches Some(n) && n@ == ps[pref].name@
                } else {
                    match r {
                        Some(n) => exists|j: int| first_best(ps, j) && n@ == (#[trigger] ps[j]).name@,
                        None => forall|k: int| 0 <= k < ps.len() ==> !usable(#[trigger] ps[k]),
                    }
                }
            }),
    {
        let ghost ps = self.providers@;
        match &self.settings.preferred_provider {
            Some(pref) => {
                let mut i: usize = 0;
                while i < self.providers.len()
                    invariant
                        ps == self.providers@,
                        self.settings.preferred_provider == Some(*pref),
                        i <= ps.len(),
                        usable_named_from(ps, pref@, i as int) == usable_named_from(ps, pref@, 0),
                    decreases ps.len() - i,
                {
                    let p = &self.providers[i];
                    if p.name == *pref && p.enabled && p.available {
                        return Some(&p.name);
                    }
                    i += 1;
                }
            },
            None => {},
        }
        let mut best: Option<usize> = None;
        let mut i: usize = 0;
        while i < self.providers.len()
            invariant
                ps == self.providers@,
                i <= ps.len(),
                match best {
                    Some(j) => j < i && usable(ps[j as int])
                        && (forall|k: int| 0 <= k < i && usable(#[trigger] ps[k]) ==> ps[j as int].priority <= ps[k].priority)
                        && (forall|k: int| 0 <= k < j && usable(#[trigger] ps[k]) ==> ps[j as int].priority < ps[k].priority),
                    None => forall|k: int| 0 <= k < i ==> !usable(#[trigger] ps[k]),
                },
            decreases ps.len() - i,
        {
            let p = &self.providers[i];
            if p.enabled && p.available {
                match best {
                    Some(j) => {
                        if p.priority < self.providers[j].priority {
                            best = Some(i);
                        }
                    },
                    None => {
                        best = Some(i);
                    },
                }
            }
            i += 1;
        }
        match best {
            Some(j) => {
                assert(first_best(ps, j as int));
                Some(&self.providers[j].name)
            },
            None => None,
        }
    }

    /// Records an entry at the front of the history, which keeps the
    /// newest hundred.
    pub fn add_history(&mut self, entry: HistoryEntry)
        ensures
            final(self).settings == old(self).settings,
            final(self).api_keys == old(self).api_keys,
            final(self).providers == old(self).providers,
            final(self).history@ == (seq![entry] + old(self).history@).take(
                if old(self).history@.len() + 1 < HISTORY_LIMIT { old(self).history@.len() + 1 as int } else { HISTORY_LIMIT as int }),
    {
        let ghost before = self.history@;
        self.history.insert(0, entry);
        assert(self.history@ =~= seq![entry] + before);
        if self.history.len() > HISTORY_LIMIT {
            self.history.truncate(HISTORY_LIMIT);
        }
        assert(self.history@ =~= (seq![entry] + before).take(
            if before.len() + 1 < HISTORY_LIMIT { before.len() + 1 as int } else { HISTORY_LIMIT as int }));
    }

    /// Empties the history.
    pub fn clear_history(&mut self)
        ensures
            final(self).settings == old(self).settings,
            final(self).api_keys == old(self).api_keys,
            final(self).providers == old(self).providers,
            final(self).history@.len() == 0,
    {
        self.history.clear();
    }
}

} // verus!
