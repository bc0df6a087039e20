//! The orchestrator's YAML configuration: its sections, its profile table
//! (kept in key order, as the file's map is read), and the two in-place
//! edits the tools make to the file's document.
use vstd::prelude::*;

use crate::doc::{
    lemma_get_insert, lemma_get_update, lemma_get_update_other, lemma_get_ensure_other, member, untag,
    entry_models, find_key, get_key, has_key, insert_entry, insert_key, key_pos, ensure_entry,
    ensure_key, lemma_ensure_key_has, lemma_entry_models, str_value, Tree, Value,
};
use crate::error::{ErrorModel, OaasError};
use crate::paths::{join, or_empty, path_join, value_or_empty, EnvVars};
use crate::text::{concat2, concat3, owned, to_chars};

verus! {

/// `server:` section.
#[derive(Debug, Clone, PartialEq, Eq)]
pub struct ServerSection {
    /// Address the proxy listens on (`host:port`).
    pub bind: String,
}

/// `runtime:` section.
#[derive(Debug, Clone, PartialEq, Eq)]
pub struct RuntimeSection {
    /// Explicit path of `llama-server`; looked up in `PATH` when absent.
    pub llama_server_binary: Option<String>,
}

/// `prompt_compression:` section (LLMLingua), without its compression rate,
/// which the application keeps beside it.
#[derive(Debug, Clone, PartialEq, Eq)]
pub struct PromptCompressionConfig {
    pub enabled: bool,
    pub command: Vec<String>,
    pub timeout_secs: u64,
    /// When true a LLMLingua failure fails the request; otherwise the prompt
    /// is sent uncompressed.
    pub strict: bool,
    /// When positive, passed to the compressor besides the rate.
    pub target_token: u32,
    pub model_name: String,
    pub use_llmlingua2: bool,
    pub device_map: String,
}

/// One `profiles:` entry: the model and how `llama-server` runs it.
#[derive(Debug, Clone, PartialEq, Eq)]
pub struct Profile {
    /// Path of the `.gguf` file.
    pub model: String,
    pub internal_port: u16,
    pub ctx_size: u32,
    pub n_gpu_layers: i32,
    pub extra_args: Vec<String>,
}

/// Default worker timeout, in seconds.
pub fn default_pc_timeout() -> (r: u64)
    ensures
        r == 180,
{
    180
}

pub open spec fn default_pc_model_name() -> Seq<char> {
    "microsoft/llmlingua-2-bert-base-multilingual-cased-meetingbank"@
}

/// Default compression model.
pub fn default_pc_model() -> (r: String)
    ensures
        r@ == default_pc_model_name(),
{
    owned("microsoft/llmlingua-2-bert-base-multilingual-cased-meetingbank")
}

/// LLMLingua-2 is used unless the file says otherwise.
pub fn default_pc_use2() -> (r: bool)
    ensures
        r,
{
    true
}

/// Default device for the compressor.
pub fn default_pc_device() -> (r: String)
    ensures
        r@ == "cpu"@,
{
    owned("cpu")
}

impl Default for PromptCompressionConfig {
    /// Compression disabled, strict, with the default timeout, model and device.
    fn default() -> (c: Self)
        ensures
            !c.enabled,
            c.command@.len() == 0,
            c.timeout_secs == 180,
            c.strict,
            c.target_token == 0,
            c.model_name@ == default_pc_model_name(),
            c.use_llmlingua2,
            c.device_map@ == "cpu"@,
    {
        PromptCompressionConfig {
            enabled: false,
            command: Vec::new(),
            timeout_secs: default_pc_timeout(),
            strict: true,
            target_token: 0,
            model_name: default_pc_model(),
            use_llmlingua2: default_pc_use2(),
            device_map: default_pc_device(),
        }
    }
}

/// `$XDG_CONFIG_HOME/oaas/config.yaml`, where an unset `XDG_CONFIG_HOME`
/// stands for `$HOME/.config`.
pub open spec fn config_path_of(env: EnvVars) -> Seq<char> {
    let base = match env.xdg_config_home {
        Some(x) => x@,
        None => path_join(or_empty(env.home), ".config"@),
    };
    path_join(path_join(base, "oaas"@), "config.yaml"@)
}

/// The default configuration file.
pub fn default_config_path(env: &EnvVars) -> (r: String)
    ensures
        r@ == config_path_of(*env),
{
    let base = match &env.xdg_config_home {
        Some(x) => x.clone(),
        None => {
            let h = value_or_empty(&env.home);
            join(h.as_str(), ".config")
        },
    };
    let d = join(base.as_str(), "oaas");
    join(d.as_str(), "config.yaml")
}

// ---------------------------------------------------------------------------
// Profile table
// ---------------------------------------------------------------------------

/// Lexicographic order on strings (the order of their UTF-8 bytes).
pub open spec fn str_lt(a: Seq<char>, b: Seq<char>) -> bool
    decreases a.len(),
{
    if a.len() == 0 {
        b.len() > 0
    } else if b.len() == 0 {
        false
    } else if a[0] != b[0] {
        a[0] < b[0]
    } else {
        str_lt(a.drop_first(), b.drop_first())
    }
}

pub proof fn lemma_str_lt_irreflexive(a: Seq<char>)
    ensures
        !str_lt(a, a),
    decreases a.len(),
{
    if a.len() > 0 {
        lemma_str_lt_irreflexive(a.drop_first());
    }
}

pub proof fn lemma_str_lt_transitive(a: Seq<char>, b: Seq<char>, c: Seq<char>)
    requires
        str_lt(a, b),
        str_lt(b, c),
    ensures
        str_lt(a, c),
    decreases a.len(),
{
    if a.len() > 0 && b.len() > 0 && c.len() > 0 && a[0] == b[0] && b[0] == c[0] {
        lemma_str_lt_transitive(a.drop_first(), b.drop_first(), c.drop_first());
    }
}

pub proof fn lemma_str_lt_total(a: Seq<char>, b: Seq<char>)
    ensures
        a == b || str_lt(a, b) || str_lt(b, a),
    decreases a.len(),
{
    if a.len() > 0 && b.len() > 0 && a[0] == b[0] {
        lemma_str_lt_total(a.drop_first(), b.drop_first());
        if a.drop_first() == b.drop_first() {
            assert(a =~= seq![a[0]] + a.drop_first());
            assert(b =~= seq![b[0]] + b.drop_first());
        }
    } else if a.len() == 0 && b.len() == 0 {
        assert(a =~= b);
    }
}

pub proof fn lemma_str_lt_asymmetric(a: Seq<char>, b: Seq<char>)
    requires
        str_lt(a, b),
    ensures
        !str_lt(b, a),
{
    if str_lt(b, a) {
        lemma_str_lt_transitive(a, b, a);
        lemma_str_lt_irreflexive(a);
    }
}

/// Three-way comparison of two strings: negative, zero or positive.
fn compare_chars(a: &Vec<char>, b: &Vec<char>) -> (r: i8)
    ensures
        r < 0 <==> str_lt(a@, b@),
        r == 0 <==> a@ == b@,
        r > 0 <==> str_lt(b@, a@),
{
    let mut i: usize = 0;
    assert(a@.skip(0) =~= a@);
    assert(b@.skip(0) =~= b@);
    while i < a.len() && i < b.len() && a[i] == b[i]
        invariant
            0 <= i <= a.len(),
            i <= b.len(),
            forall|j: int| 0 <= j < i ==> a@[j] == b@[j],
            str_lt(a@, b@) == str_lt(a@.skip(i as int), b@.skip(i as int)),
            str_lt(b@, a@) == str_lt(b@.skip(i as int), a@.skip(i as int)),
        decreases a.len() - i,
    {
        assert(a@.skip(i as int).drop_first() =~= a@.skip(i + 1));
        assert(b@.skip(i as int).drop_first() =~= b@.skip(i + 1));
        i += 1;
    }
    proof {
        let sa = a@.skip(i as int);
        let sb = b@.skip(i as int);
        if i < a.len() {
            assert(sa[0] == a@[i as int]);
        }
        if i < b.len() {
            assert(sb[0] == b@[i as int]);
        }
        lemma_str_lt_irreflexive(a@);
        if a@ != b@ {
            lemma_str_lt_total(a@, b@);
        }
        if str_lt(a@, b@) {
            lemma_str_lt_asymmetric(a@, b@);
        }
        if i == a.len() && i == b.len() {
            assert(a@ =~= b@);
        }
    }
    if i == a.len() && i == b.len() {
        0
    } else if i == a.len() {
        -1
    } else if i == b.len() {
        1
    } else if a[i] < b[i] {
        -1
    } else {
        1
    }
}

/// The profiles of a configuration, by name, in increasing name order
/// (as the YAML map is read); no name occurs twice.
#[derive(Debug, PartialEq, Eq)]
pub struct Profiles {
    entries: Vec<(String, Profile)>,
}

/// The names of a sequence of entries.
pub open spec fn names_of(s: Seq<(String, Profile)>) -> Seq<Seq<char>> {
    s.map_values(|e: (String, Profile)| e.0@)
}

/// Names strictly increase along `s`.
pub open spec fn sorted_names(s: Seq<Seq<char>>) -> bool {
    forall|i: int, j: int| 0 <= i < j < s.len() ==> str_lt(#[trigger] s[i], #[trigger] s[j])
}

/// The profile of the first entry of `s` named `name`, if any.
pub open spec fn lookup_in(s: Seq<(String, Profile)>, name: Seq<char>) -> Option<Profile>
    decreases s.len(),
{
    if s.len() == 0 {
        None
    } else if s[0].0@ == name {
        Some(s[0].1)
    } else {
        lookup_in(s.drop_first(), name)
    }
}

/// `lookup_in` finds the first entry with the name, and nothing when none has it.
pub proof fn lemma_lookup_in_first(s: Seq<(String, Profile)>, name: Seq<char>)
    ensures
        (exists|i: int| 0 <= i < s.len() && s[i].0@ == name) ==> (exists|i: int|
            0 <= i < s.len() && s[i].0@ == name && lookup_in(s, name) == Some(s[i].1) && forall|j: int|
                0 <= j < i ==> s[j].0@ != name),
        !(exists|i: int| 0 <= i < s.len() && s[i].0@ == name) ==> lookup_in(s, name) is None,
    decreases s.len(),
{
    if s.len() > 0 {
        lemma_lookup_in_first(s.drop_first(), name);
        if s[0].0@ != name {
            if exists|i: int| 0 <= i < s.len() && s[i].0@ == name {
                let i = choose|i: int| 0 <= i < s.len() && s[i].0@ == name;
                assert(s.drop_first()[i - 1] == s[i]);
                let i2 = choose|i2: int|
                    0 <= i2 < s.drop_first().len() && s.drop_first()[i2].0@ == name && lookup_in(
                        s.drop_first(),
                        name,
                    ) == Some(s.drop_first()[i2].1) && forall|j: int| 0 <= j < i2 ==> s.drop_first()[j].0@ != name;
                assert(s[i2 + 1] == s.drop_first()[i2]);
                assert forall|j: int| 0 <= j < i2 + 1 implies s[j].0@ != name by {
                    if j > 0 {
                        assert(s[j] == s.drop_first()[j - 1]);
                    }
                }
            } else {
                assert forall|i: int| 0 <= i < s.drop_first().len() implies s.drop_first()[i].0@ != name by {
                    assert(s.drop_first()[i] == s[i + 1]);
                }
            }
        }
    }
}

/// In a table with increasing names, the entry named `name` is the one found.
pub proof fn lemma_lookup_in_at(s: Seq<(String, Profile)>, j: int)
    requires
        sorted_names(names_of(s)),
        0 <= j < s.len(),
    ensures
        lookup_in(s, s[j].0@) == Some(s[j].1),
{
    let name = s[j].0@;
    let n = names_of(s);
    lemma_lookup_in_first(s, name);
    assert(0 <= j < s.len() && s[j].0@ == name);
    let k = choose|i: int|
        0 <= i < s.len() && s[i].0@ == name && lookup_in(s, name) == Some(s[i].1) && forall|j: int|
            0 <= j < i ==> s[j].0@ != name;
    assert(n[j] == name);
    assert(n[k] == name);
    lemma_str_lt_irreflexive(name);
    if k < j {
        assert(str_lt(n[k], n[j]));
    } else if j < k {
        assert(str_lt(n[j], n[k]));
    }
}

/// Replacing or inserting the entry of `name` at `i` keeps every other
/// name's profile.
pub proof fn lemma_lookup_in_frame(
    s: Seq<(String, Profile)>,
    t: Seq<(String, Profile)>,
    i: int,
    inserted: bool,
    other: Seq<char>,
)
    requires
        sorted_names(names_of(s)),
        sorted_names(names_of(t)),
        0 <= i < t.len(),
        inserted ==> i <= s.len() && t == s.insert(i, t[i]),
        !inserted ==> i < s.len() && t == s.update(i, t[i]) && s[i].0@ == t[i].0@,
        other != t[i].0@,
    ensures
        lookup_in(t, other) == lookup_in(s, other),
{
    lemma_lookup_in_first(s, other);
    lemma_lookup_in_first(t, other);
    if exists|j: int| 0 <= j < s.len() && s[j].0@ == other {
        let j = choose|j: int| 0 <= j < s.len() && s[j].0@ == other;
        lemma_lookup_in_at(s, j);
        let j2 = if inserted && j >= i {
            j + 1
        } else {
            j
        };
        assert(t[j2] == s[j]);
        lemma_lookup_in_at(t, j2);
    } else if exists|k: int| 0 <= k < t.len() && t[k].0@ == other {
        let k = choose|k: int| 0 <= k < t.len() && t[k].0@ == other;
        assert(k != i);
        let k2 = if inserted && k > i {
            k - 1
        } else {
            k
        };
        assert(t[k] == s[k2]);
    }
}

/// Where `key` stands in `e`, whose names increase: the position of the entry
/// named `key` (found), or of the first entry whose name is greater.
fn find_slot(e: &Vec<(String, Profile)>, key: &Vec<char>) -> (r: (usize, bool))
    ensures
        r.0 <= e@.len(),
        forall|j: int| 0 <= j < r.0 ==> str_lt(#[trigger] e@[j].0@, key@),
        r.1 ==> r.0 < e@.len() && e@[r.0 as int].0@ == key@,
        !r.1 ==> (r.0 < e@.len() ==> str_lt(key@, e@[r.0 as int].0@)),
{
    let mut i: usize = 0;
    while i < e.len()
        invariant
            0 <= i <= e.len(),
            forall|j: int| 0 <= j < i ==> str_lt(#[trigger] e@[j].0@, key@),
        decreases e.len() - i,
    {
        let k = to_chars(e[i].0.as_str());
        let c = compare_chars(&k, key);
        if c == 0 {
            return (i, true);
        }
        if c > 0 {
            return (i, false);
        }
        i += 1;
    }
    (i, false)
}

impl Profiles {
    /// The table's invariant: names strictly increase.
    #[verifier::type_invariant]
    closed spec fn wf(self) -> bool {
        sorted_names(names_of(self.entries@))
    }

    /// The entries, in name order.
    pub closed spec fn view(self) -> Seq<(String, Profile)> {
        self.entries@
    }

    /// The profile named `name`, if any.
    pub open spec fn lookup(self, name: Seq<char>) -> Option<Profile> {
        lookup_in(self@, name)
    }


    /// An empty table.
    pub fn new() -> (t: Profiles)
        ensures
            t@.len() == 0,
    {
        assert(names_of(Seq::<(String, Profile)>::empty()) =~= Seq::<Seq<char>>::empty());
        Profiles { entries: Vec::new() }
    }

    /// The number of profiles; the names increase along the entries.
    pub fn len(&self) -> (n: usize)
        ensures
            n == self@.len(),
            sorted_names(names_of(self@)),
    {
        proof {
            use_type_invariant(self);
        }
        self.entries.len()
    }

    /// The entry at position `i` (name order).
    pub fn entry(&self, i: usize) -> (e: &(String, Profile))
        requires
            i < self@.len(),
        ensures
            *e == self@[i as int],
    {
        &self.entries[i]
    }

    /// The profile named `name`.
    pub fn get(&self, name: &str) -> (r: Option<&Profile>)
        ensures
            match self.lookup(name@) {
                Some(p) => r == Some(&p),
                None => r is None,
            },
    {
        proof {
            use_type_invariant(self);
        }
        let key = to_chars(name);
        let mut i: usize = 0;
        while i < self.entries.len()
            invariant
                0 <= i <= self.entries.len(),
                self.wf(),
                key@ == name@,
                forall|j: int| 0 <= j < i ==> self@[j].0@ != name@,
            decreases self.entries.len() - i,
        {
            let k = to_chars(self.entries[i].0.as_str());
            if compare_chars(&k, &key) == 0 {
                proof {
                    lemma_lookup_in_at(self@, i as int);
                }
                return Some(&self.entries[i].1);
            }
            i += 1;
        }
        proof {
            lemma_lookup_in_first(self@, name@);
        }
        None
    }

    /// The names, in order.
    pub fn names_list(&self) -> (v: Vec<String>)
        ensures
            v@.len() == self@.len(),
            forall|i: int| 0 <= i < v@.len() ==> #[trigger] v@[i]@ == self@[i].0@,
    {
        let mut v: Vec<String> = Vec::new();
        let mut i: usize = 0;
        while i < self.entries.len()
            invariant
                0 <= i <= self.entries.len(),
                v@.len() == i,
                forall|j: int| 0 <= j < i ==> #[trigger] v@[j]@ == self@[j].0@,
            decreases self.entries.len() - i,
        {
            v.push(self.entries[i].0.clone());
            i += 1;
        }
        v
    }

    /// Adds profile `p` under `name`, replacing the profile already named so
    /// (as a map insert does); names stay in increasing order.
    pub fn insert(&mut self, name: String, p: Profile)
        ensures
            final(self).lookup(name@) == Some(p),
            forall|other: Seq<char>| other != name@ ==> #[trigger] final(self).lookup(other) == old(self).lookup(other),
    {
        proof {
            use_type_invariant(&*self);
        }
        assert(names_of(Seq::<(String, Profile)>::empty()) =~= Seq::<Seq<char>>::empty());
        let mut entries = Vec::new();
        std::mem::swap(&mut entries, &mut self.entries);
        let ghost old_entries = entries@;
        let key = to_chars(name.as_str());
        let (i, found) = find_slot(&entries, &key);
        let ghost n_old = names_of(old_entries);
        if found {
            let _ = entries.remove(i);
            entries.insert(i, (name, p));
            proof {
                assert(entries@ =~= old_entries.update(i as int, (name, p)));
                let n = names_of(entries@);
                assert(sorted_names(n_old));
                assert(n_old[i as int] == name@);
                assert(n =~= n_old);
                lemma_lookup_in_at(entries@, i as int);
                assert forall|other: Seq<char>| other != name@ implies #[trigger] lookup_in(entries@, other)
                    == lookup_in(old_entries, other) by {
                    lemma_lookup_in_frame(old_entries, entries@, i as int, false, other);
                }
            }
        } else {
            entries.insert(i, (name, p));
            proof {
                assert(entries@ =~= old_entries.insert(i as int, (name, p)));
                let n = names_of(entries@);
                assert(n =~= n_old.insert(i as int, name@));
                assert forall|a: int, b: int| 0 <= a < b < n.len() implies str_lt(#[trigger] n[a], #[trigger] n[b]) by {
                    if a < i && b == i {
                        assert(n[a] == old_entries[a].0@);
                    } else if a < i && b > i {
                        assert(n[a] == old_entries[a].0@);
                        assert(n[b] == n_old[b - 1]);
                        if b - 1 > i {
                            assert(str_lt(n_old[i as int], n_old[b - 1]));
                            lemma_str_lt_transitive(name@, n_old[i as int], n_old[b - 1]);
                        }
                        lemma_str_lt_transitive(n[a], name@, n[b]);
                    } else if a == i && b > i {
                        assert(n[b] == n_old[b - 1]);
                        if b - 1 > i {
                            assert(str_lt(n_old[i as int], n_old[b - 1]));
                            lemma_str_lt_transitive(name@, n_old[i as int], n_old[b - 1]);
                        }
                    } else if a > i {
                        assert(n[a] == n_old[a - 1]);
                        assert(n[b] == n_old[b - 1]);
                    }
                }
                lemma_lookup_in_at(entries@, i as int);
                assert forall|other: Seq<char>| other != name@ implies #[trigger] lookup_in(entries@, other)
                    == lookup_in(old_entries, other) by {
                    lemma_lookup_in_frame(old_entries, entries@, i as int, true, other);
                }
            }
        }
        self.entries = entries;
    }
}


/// A configuration file, as read.
#[derive(Debug, PartialEq, Eq)]
pub struct ConfigFile {
    pub server: ServerSection,
    pub runtime: RuntimeSection,
    /// Compression disabled when the file has no such section.
    pub prompt_compression: PromptCompressionConfig,
    pub profiles: Profiles,
}

// ---------------------------------------------------------------------------
// Edits of the configuration document
// ---------------------------------------------------------------------------

/// Why an edit of the configuration document was refused.
#[derive(Debug, Clone, PartialEq, Eq)]
pub enum PatchFailure {
    /// No `profiles` mapping at the root.
    ProfilesMissing,
    /// The named profile is not in `profiles`.
    ProfileAbsent,
    /// The named profile is not a mapping.
    ProfileNotMapping,
    /// The document root is not a mapping.
    RootNotMapping,
    /// `prompt_compression` is not a mapping.
    CompressionNotMapping,
}

/// A profile mapping with its `model` set to `path` (tags kept).
pub open spec fn patched_profile(v: Tree, path: Seq<char>) -> Result<Tree, PatchFailure>
    decreases v,
{
    match v {
        Tree::Tagged(t, b) => match patched_profile(*b, path) {
            Ok(x) => Ok(Tree::Tagged(t, Box::new(x))),
            Err(e) => Err(e),
        },
        Tree::Mapping(p) => Ok(Tree::Mapping(insert_key(p, "model"@, Tree::Str(path)))),
        _ => Err(PatchFailure::ProfileNotMapping),
    }
}

/// The `profiles` mapping with profile `name` patched.
pub open spec fn patched_profiles(v: Tree, name: Seq<char>, path: Seq<char>) -> Result<Tree, PatchFailure>
    decreases v,
{
    match v {
        Tree::Tagged(t, b) => match patched_profiles(*b, name, path) {
            Ok(x) => Ok(Tree::Tagged(t, Box::new(x))),
            Err(e) => Err(e),
        },
        Tree::Mapping(m) => if has_key(m, name) {
            let p = key_pos(m, name);
            match patched_profile(m[p].1, path) {
                Ok(nv) => Ok(Tree::Mapping(m.update(p, (m[p].0, nv)))),
                Err(e) => Err(e),
            }
        } else {
            Err(PatchFailure::ProfileAbsent)
        },
        _ => Err(PatchFailure::ProfilesMissing),
    }
}

/// A configuration document with `profiles.<name>.model` set to `path`.
pub open spec fn patched_model(root: Tree, name: Seq<char>, path: Seq<char>) -> Result<Tree, PatchFailure>
    decreases root,
{
    match root {
        Tree::Tagged(t, b) => match patched_model(*b, name, path) {
            Ok(x) => Ok(Tree::Tagged(t, Box::new(x))),
            Err(e) => Err(e),
        },
        Tree::Mapping(m) => if has_key(m, "profiles"@) {
            let p = key_pos(m, "profiles"@);
            match patched_profiles(m[p].1, name, path) {
                Ok(nv) => Ok(Tree::Mapping(m.update(p, (m[p].0, nv)))),
                Err(e) => Err(e),
            }
        } else {
            Err(PatchFailure::ProfilesMissing)
        },
        _ => Err(PatchFailure::ProfilesMissing),
    }
}

fn patch_profile(v: Value, path: &str) -> (r: Result<Value, PatchFailure>)
    ensures
        match patched_profile(v.model(), path@) {
            Ok(t) => r matches Ok(x) && x.model() == t,
            Err(e) => r == Err::<Value, PatchFailure>(e),
        },
    decreases v,
{
    match v {
        Value::Tagged(t, b) => match patch_profile(*b, path) {
            Ok(x) => Ok(Value::Tagged(t, Box::new(x))),
            Err(e) => Err(e),
        },
        Value::Mapping(m) => {
            let mut m = m;
            insert_entry(&mut m, "model", str_value(path));
            Ok(Value::Mapping(m))
        },
        _ => Err(PatchFailure::ProfileNotMapping),
    }
}

/// Replaces the value under key position `p` of `m` by what `f` makes of it.
fn patch_profiles(v: Value, name: &str, path: &str) -> (r: Result<Value, PatchFailure>)
    ensures
        match patched_profiles(v.model(), name@, path@) {
            Ok(t) => r matches Ok(x) && x.model() == t,
            Err(e) => r == Err::<Value, PatchFailure>(e),
        },
    decreases v,
{
    match v {
        Value::Tagged(t, b) => match patch_profiles(*b, name, path) {
            Ok(x) => Ok(Value::Tagged(t, Box::new(x))),
            Err(e) => Err(e),
        },
        Value::Mapping(m) => {
            let mut m = m;
            match find_key(&m, name) {
                Some(p) => {
                    let ghost mv = m@;
                    let ghost m1 = entry_models(mv);
                    proof {
                        lemma_entry_models(mv);
                    }
                    let (k, val) = m.remove(p);
                    match patch_profile(val, path) {
                        Ok(nv) => {
                            m.insert(p, (k, nv));
                            proof {
                                lemma_entry_models(m@);
                                assert(m@ =~= mv.update(p as int, (k, nv)));
                                assert(entry_models(m@) =~= m1.update(p as int, (m1[p as int].0, nv.model())));
                            }
                            Ok(Value::Mapping(m))
                        },
                        Err(e) => Err(e),
                    }
                },
                None => Err(PatchFailure::ProfileAbsent),
            }
        },
        _ => Err(PatchFailure::ProfilesMissing),
    }
}

fn patch_model_root(v: Value, name: &str, path: &str) -> (r: Result<Value, PatchFailure>)
    ensures
        match patched_model(v.model(), name@, path@) {
            Ok(t) => r matches Ok(x) && x.model() == t,
            Err(e) => r == Err::<Value, PatchFailure>(e),
        },
    decreases v,
{
    match v {
        Value::Tagged(t, b) => match patch_model_root(*b, name, path) {
            Ok(x) => Ok(Value::Tagged(t, Box::new(x))),
            Err(e) => Err(e),
        },
        Value::Mapping(m) => {
            let mut m = m;
            match find_key(&m, "profiles") {
                Some(p) => {
                    let ghost mv = m@;
                    let ghost m1 = entry_models(mv);
                    proof {
                        lemma_entry_models(mv);
                    }
                    let (k, val) = m.remove(p);
                    match patch_profiles(val, name, path) {
                        Ok(nv) => {
                            m.insert(p, (k, nv));
                            proof {
                                lemma_entry_models(m@);
                                assert(m@ =~= mv.update(p as int, (k, nv)));
                                assert(entry_models(m@) =~= m1.update(p as int, (m1[p as int].0, nv.model())));
                            }
                            Ok(Value::Mapping(m))
                        },
                        Err(e) => Err(e),
                    }
                },
                None => Err(PatchFailure::ProfilesMissing),
            }
        },
        _ => Err(PatchFailure::ProfilesMissing),
    }
}

/// The error text of a refused model patch of `config_path`.
pub open spec fn patch_model_msg(e: PatchFailure, config_path: Seq<char>, profile: Seq<char>) -> Seq<char> {
    match e {
        PatchFailure::ProfileAbsent => "profil « "@ + profile + " » absent de "@ + config_path,
        PatchFailure::ProfileNotMapping => "profil « "@ + profile + " » : attendu un mapping YAML"@,
        _ => "clef « profiles » manquante ou invalide dans "@ + config_path,
    }
}

/// Sets `profiles.<profile>.model` to `model_path` in the configuration
/// document read from `config_path` (named in error messages). Refused when
/// the root has no `profiles` mapping, when the profile is absent, or when
/// it is not a mapping; tags around the edited mappings are kept.
pub fn patch_profile_model_path(doc: Value, config_path: &str, profile: &str, model_path: &str) -> (r:
    Result<Value, OaasError>)
    ensures
        match patched_model(doc.model(), profile@, model_path@) {
            Ok(t) => r matches Ok(x) && x.model() == t,
            Err(e) => r matches Err(err) && err.model() == ErrorModel::Config(
                patch_model_msg(e, config_path@, profile@),
            ),
        },
{
    match patch_model_root(doc, profile, model_path) {
        Ok(x) => Ok(x),
        Err(PatchFailure::ProfileAbsent) => {
            let a = concat3("profil « ", profile, " » absent de ");
            Err(OaasError::Config(concat2(a.as_str(), config_path)))
        },
        Err(PatchFailure::ProfileNotMapping) => Err(
            OaasError::Config(concat3("profil « ", profile, " » : attendu un mapping YAML")),
        ),
        Err(_) => Err(
            OaasError::Config(concat2("clef « profiles » manquante ou invalide dans ", config_path)),
        ),
    }
}

/// The `prompt_compression` mapping with `enabled` set (tags kept).
pub open spec fn patched_compression(v: Tree, enabled: bool) -> Result<Tree, PatchFailure>
    decreases v,
{
    match v {
        Tree::Tagged(t, b) => match patched_compression(*b, enabled) {
            Ok(x) => Ok(Tree::Tagged(t, Box::new(x))),
            Err(e) => Err(e),
        },
        Tree::Mapping(m) => Ok(Tree::Mapping(insert_key(m, "enabled"@, Tree::Bool(enabled)))),
        _ => Err(PatchFailure::CompressionNotMapping),
    }
}

/// A configuration document with `prompt_compression.enabled` set; the
/// section is created when missing.
pub open spec fn patched_enabled(root: Tree, enabled: bool) -> Result<Tree, PatchFailure>
    decreases root,
{
    match root {
        Tree::Tagged(t, b) => match patched_enabled(*b, enabled) {
            Ok(x) => Ok(Tree::Tagged(t, Box::new(x))),
            Err(e) => Err(e),
        },
        Tree::Mapping(m) => {
            let m1 = ensure_key(m, "prompt_compression"@, Tree::Mapping(Seq::empty()));
            let p = key_pos(m1, "prompt_compression"@);
            match patched_compression(m1[p].1, enabled) {
                Ok(nv) => Ok(Tree::Mapping(m1.update(p, (m1[p].0, nv)))),
                Err(e) => Err(e),
            }
        },
        _ => Err(PatchFailure::RootNotMapping),
    }
}

fn patch_compression(v: Value, enabled: bool) -> (r: Result<Value, PatchFailure>)
    ensures
        match patched_compression(v.model(), enabled) {
            Ok(t) => r matches Ok(x) && x.model() == t,
            Err(e) => r == Err::<Value, PatchFailure>(e),
        },
    decreases v,
{
    match v {
        Value::Tagged(t, b) => match patch_compression(*b, enabled) {
            Ok(x) => Ok(Value::Tagged(t, Box::new(x))),
            Err(e) => Err(e),
        },
        Value::Mapping(m) => {
            let mut m = m;
            insert_entry(&mut m, "enabled", Value::Bool(enabled));
            Ok(Value::Mapping(m))
        },
        _ => Err(PatchFailure::CompressionNotMapping),
    }
}

fn patch_enabled_root(v: Value, enabled: bool) -> (r: Result<Value, PatchFailure>)
    ensures
        match patched_enabled(v.model(), enabled) {
            Ok(t) => r matches Ok(x) && x.model() == t,
            Err(e) => r == Err::<Value, PatchFailure>(e),
        },
    decreases v,
{
    match v {
        Value::Tagged(t, b) => match patch_enabled_root(*b, enabled) {
            Ok(x) => Ok(Value::Tagged(t, Box::new(x))),
            Err(e) => Err(e),
        },
        Value::Mapping(m) => {
            let mut m = m;
            let ghost before = entry_models(m@);
            ensure_entry(&mut m, "prompt_compression", Value::Mapping(Vec::new()));
            proof {
                assert(entry_models(Seq::<(Value, Value)>::empty()) =~= Seq::<(Tree, Tree)>::empty());
                lemma_ensure_key_has(before, "prompt_compression"@, Tree::Mapping(Seq::empty()));
            }
            match find_key(&m, "prompt_compression") {
                Some(p) => {
                    let ghost mv = m@;
                    let ghost m1 = entry_models(mv);
                    proof {
                        lemma_entry_models(mv);
                    }
                    let (k, val) = m.remove(p);
                    match patch_compression(val, enabled) {
                        Ok(nv) => {
                            m.insert(p, (k, nv));
                            proof {
                                lemma_entry_models(m@);
                                assert(m@ =~= mv.update(p as int, (k, nv)));
                                assert(entry_models(m@) =~= m1.update(p as int, (m1[p as int].0, nv.model())));
                            }
                            Ok(Value::Mapping(m))
                        },
                        Err(e) => Err(e),
                    }
                },
                None => Err(PatchFailure::RootNotMapping),
            }
        },
        _ => Err(PatchFailure::RootNotMapping),
    }
}

/// Sets `prompt_compression.enabled` in a configuration document, creating
/// the section when missing. Refused when the root, or the section, is not a
/// mapping; tags around the edited mappings are kept.
pub fn patch_prompt_compression_enabled(doc: Value, enabled: bool) -> (r: Result<Value, OaasError>)
    ensures
        match patched_enabled(doc.model(), enabled) {
            Ok(t) => r matches Ok(x) && x.model() == t,
            Err(PatchFailure::CompressionNotMapping) => r matches Err(err) && err.model()
                == ErrorModel::Config("prompt_compression : attendu un mapping YAML"@),
            Err(_) => r matches Err(err) && err.model() == ErrorModel::Config(
                "racine YAML : attendu un mapping"@,
            ),
        },
{
    match patch_enabled_root(doc, enabled) {
        Ok(x) => Ok(x),
        Err(PatchFailure::CompressionNotMapping) => Err(
            OaasError::config("prompt_compression : attendu un mapping YAML"),
        ),
        Err(_) => Err(OaasError::config("racine YAML : attendu un mapping")),
    }
}


/// The `model` of profile `name` in a configuration document.
pub open spec fn profile_model_of(t: Tree, name: Seq<char>) -> Option<Tree> {
    match member(t, "profiles"@) {
        Some(ps) => match member(ps, name) {
            Some(p) => member(p, "model"@),
            None => None,
        },
        None => None,
    }
}

proof fn lemma_patched_profile_reads(v: Tree, path: Seq<char>)
    requires
        patched_profile(v, path) is Ok,
    ensures
        member(patched_profile(v, path)->Ok_0, "model"@) == Some(Tree::Str(path)),
    decreases v,
{
    match v {
        Tree::Tagged(t, b) => {
            lemma_patched_profile_reads(*b, path);
        },
        Tree::Mapping(p) => {
            lemma_get_insert(p, "model"@, Tree::Str(path));
        },
        _ => {},
    }
}

proof fn lemma_patched_profiles_reads(v: Tree, name: Seq<char>, path: Seq<char>)
    requires
        patched_profiles(v, name, path) is Ok,
    ensures
        member(patched_profiles(v, name, path)->Ok_0, name) matches Some(p) && member(p, "model"@) == Some(
            Tree::Str(path),
        ),
    decreases v,
{
    match v {
        Tree::Tagged(t, b) => {
            lemma_patched_profiles_reads(*b, name, path);
        },
        Tree::Mapping(m) => {
            let p = key_pos(m, name);
            let nv = patched_profile(m[p].1, path)->Ok_0;
            lemma_get_update(m, name, nv);
            lemma_patched_profile_reads(m[p].1, path);
        },
        _ => {},
    }
}

/// Once `profiles.<name>.model` is patched to `path`, the document gives
/// `path` as that profile's model (a read after the write gives what was
/// written).
pub proof fn law_patched_model_reads_back(root: Tree, name: Seq<char>, path: Seq<char>)
    requires
        patched_model(root, name, path) is Ok,
    ensures
        profile_model_of(patched_model(root, name, path)->Ok_0, name) == Some(Tree::Str(path)),
    decreases root,
{
    match root {
        Tree::Tagged(t, b) => {
            law_patched_model_reads_back(*b, name, path);
        },
        Tree::Mapping(m) => {
            let p = key_pos(m, "profiles"@);
            let nv = patched_profiles(m[p].1, name, path)->Ok_0;
            lemma_get_update(m, "profiles"@, nv);
            lemma_patched_profiles_reads(m[p].1, name, path);
        },
        _ => {},
    }
}

/// The keys of a mapping (tags aside), or `None` for another value.
pub open spec fn mapping_len(t: Tree) -> Option<nat> {
    match untag(t) {
        Tree::Mapping(m) => Some(m.len()),
        _ => None,
    }
}

/// Setting a profile's `model` leaves its other fields as they were.
pub proof fn law_patched_profile_keeps_other_fields(v: Tree, path: Seq<char>, k: Seq<char>)
    requires
        patched_profile(v, path) is Ok,
        k != "model"@,
    ensures
        member(patched_profile(v, path)->Ok_0, k) == member(v, k),
        member(patched_profile(v, path)->Ok_0, "model"@) == Some(Tree::Str(path)),
    decreases v,
{
    match v {
        Tree::Tagged(t, b) => {
            law_patched_profile_keeps_other_fields(*b, path, k);
            let x = patched_profile(*b, path)->Ok_0;
            assert(untag(Tree::Tagged(t, Box::new(x))) == untag(x));
        },
        Tree::Mapping(p) => {
            crate::doc::lemma_get_insert_other(p, "model"@, k, Tree::Str(path));
            lemma_get_insert(p, "model"@, Tree::Str(path));
        },
        _ => {},
    }
}

/// Patching profile `name` touches no other profile: every other key of the
/// `profiles` mapping gives what it gave before, and the mapping keeps its
/// number of entries.
pub proof fn law_patched_profiles_keep_others(v: Tree, name: Seq<char>, path: Seq<char>, k: Seq<char>)
    requires
        patched_profiles(v, name, path) is Ok,
        k != name,
    ensures
        member(patched_profiles(v, name, path)->Ok_0, k) == member(v, k),
        mapping_len(patched_profiles(v, name, path)->Ok_0) == mapping_len(v),
    decreases v,
{
    match v {
        Tree::Tagged(t, b) => {
            law_patched_profiles_keep_others(*b, name, path, k);
            let x = patched_profiles(*b, name, path)->Ok_0;
            assert(untag(Tree::Tagged(t, Box::new(x))) == untag(x));
        },
        Tree::Mapping(m) => {
            let p = key_pos(m, name);
            crate::doc::lemma_key_pos_props(m, name);
            let nv = patched_profile(m[p].1, path)->Ok_0;
            lemma_get_update_other(m, name, k, nv);
        },
        _ => {},
    }
}

/// Setting `profiles.<name>.model` leaves every other profile of the
/// document as it was, and every other top-level entry too.
pub proof fn law_patched_model_keeps_other_profiles(root: Tree, name: Seq<char>, path: Seq<char>, k: Seq<char>, top: Seq<char>)
    requires
        patched_model(root, name, path) is Ok,
        k != name,
        top != "profiles"@,
    ensures
        member(patched_model(root, name, path)->Ok_0, "profiles"@) matches Some(after) && member(
            root,
            "profiles"@,
        ) matches Some(before) && member(after, k) == member(before, k) && mapping_len(after) == mapping_len(
            before,
        ),
        member(patched_model(root, name, path)->Ok_0, top) == member(root, top),
    decreases root,
{
    match root {
        Tree::Tagged(t, b) => {
            law_patched_model_keeps_other_profiles(*b, name, path, k, top);
        },
        Tree::Mapping(m) => {
            let p = key_pos(m, "profiles"@);
            let nv = patched_profiles(m[p].1, name, path)->Ok_0;
            lemma_get_update(m, "profiles"@, nv);
            lemma_get_update_other(m, "profiles"@, top, nv);
            crate::doc::lemma_key_pos_props(m, "profiles"@);
            law_patched_profiles_keep_others(m[p].1, name, path, k);
        },
        _ => {},
    }
}

/// `prompt_compression.enabled` in a configuration document.
pub open spec fn compression_enabled_of(t: Tree) -> Option<Tree> {
    match member(t, "prompt_compression"@) {
        Some(pc) => member(pc, "enabled"@),
        None => None,
    }
}

proof fn lemma_patched_compression_reads(v: Tree, enabled: bool)
    requires
        patched_compression(v, enabled) is Ok,
    ensures
        member(patched_compression(v, enabled)->Ok_0, "enabled"@) == Some(Tree::Bool(enabled)),
    decreases v,
{
    match v {
        Tree::Tagged(t, b) => {
            lemma_patched_compression_reads(*b, enabled);
        },
        Tree::Mapping(m) => {
            lemma_get_insert(m, "enabled"@, Tree::Bool(enabled));
        },
        _ => {},
    }
}

/// Once `prompt_compression.enabled` is patched, the document gives the
/// value written.
pub proof fn law_patched_enabled_reads_back(root: Tree, enabled: bool)
    requires
        patched_enabled(root, enabled) is Ok,
    ensures
        compression_enabled_of(patched_enabled(root, enabled)->Ok_0) == Some(Tree::Bool(enabled)),
    decreases root,
{
    match root {
        Tree::Tagged(t, b) => {
            law_patched_enabled_reads_back(*b, enabled);
        },
        Tree::Mapping(m) => {
            let m1 = ensure_key(m, "prompt_compression"@, Tree::Mapping(Seq::empty()));
            lemma_ensure_key_has(m, "prompt_compression"@, Tree::Mapping(Seq::empty()));
            let p = key_pos(m1, "prompt_compression"@);
            let nv = patched_compression(m1[p].1, enabled)->Ok_0;
            lemma_get_update(m1, "prompt_compression"@, nv);
            lemma_patched_compression_reads(m1[p].1, enabled);
        },
        _ => {},
    }
}


/// Disabling compression (what `oaas doctor --fix` writes) leaves every
/// other top-level entry of the document as it was.
pub proof fn law_patched_enabled_keeps_other_keys(root: Tree, enabled: bool, k: Seq<char>)
    requires
        patched_enabled(root, enabled) is Ok,
        k != "prompt_compression"@,
    ensures
        member(patched_enabled(root, enabled)->Ok_0, k) == member(root, k),
    decreases root,
{
    match root {
        Tree::Tagged(t, b) => {
            law_patched_enabled_keeps_other_keys(*b, enabled, k);
        },
        Tree::Mapping(m) => {
            let m1 = ensure_key(m, "prompt_compression"@, Tree::Mapping(Seq::empty()));
            lemma_ensure_key_has(m, "prompt_compression"@, Tree::Mapping(Seq::empty()));
            lemma_get_ensure_other(m, "prompt_compression"@, k, Tree::Mapping(Seq::empty()));
            let p = key_pos(m1, "prompt_compression"@);
            let nv = patched_compression(m1[p].1, enabled)->Ok_0;
            lemma_get_update_other(m1, "prompt_compression"@, k, nv);
        },
        _ => {},
    }
}

} // verus!
