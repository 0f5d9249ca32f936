//! Browser extensions: installation, activation per tab, and the content
//! scripts that apply to a page.
use vstd::prelude::*;
use crate::seqs::{keep, lemma_keep_step};
use crate::text::{
    chars_of, contains_seq, decimal, seq_contains, starts_with_seq, str_eq, str_starts_with,
    trim_char, trim_char_exec, u64_to_decimal,
};

verus! {

/// When a content script runs.
pub enum RunAt {
    DocumentStart,
    DocumentEnd,
    DocumentIdle,
}

/// A script an extension injects into pages whose URL matches a pattern.
pub struct ContentScript {
    pub matches: Vec<String>,
    pub js_file: String,
    pub css_file: Option<String>,
    pub run_at: RunAt,
}

/// The description of an extension.
pub struct ExtensionManifest {
    pub id: String,
    pub name: String,
    pub version: String,
    pub description: String,
    pub permissions: Vec<String>,
    pub background_script: Option<String>,
    pub content_scripts: Vec<ContentScript>,
}

/// Why an extension operation failed.
pub enum ExtensionError {
    /// No extension with the given id is installed.
    NotFound,
}

impl ExtensionError {
    /// The message describing the error.
    pub fn message(&self) -> (r: &'static str)
        ensures
            r@ == "Extension not found"@,
    {
        "Extension not found"
    }
}

/// Whether a content-script pattern applies to `url`: the patterns
/// `<all_urls>` and `*://*/*` apply to every URL, any other pattern applies
/// when, stripped of its leading and trailing `*`, it occurs in the URL.
pub open spec fn pattern_applies(url: Seq<char>, pattern: Seq<char>) -> bool {
    pattern == "<all_urls>"@ || pattern == "*://*/*"@ || contains_seq(url, trim_char(pattern, '*'))
}

/// Whether some pattern of `patterns` applies to `url`.
pub open spec fn any_applies(patterns: Seq<String>, url: Seq<char>) -> bool {
    exists|i: int| 0 <= i < patterns.len() && pattern_applies(url, #[trigger] patterns[i]@)
}

/// The script files of `scripts` that apply to `url`, in order.
pub open spec fn applicable_scripts(scripts: Seq<ContentScript>, url: Seq<char>) -> Seq<Seq<char>>
    decreases scripts.len(),
{
    if scripts.len() == 0 {
        Seq::empty()
    } else {
        let r = applicable_scripts(scripts.drop_last(), url);
        if any_applies(scripts.last().matches@, url) {
            r.push(scripts.last().js_file@)
        } else {
            r
        }
    }
}

/// The script files of all installed extensions that apply to `url`, by
/// extension in installation order.
pub open spec fn injectable(ms: Seq<ExtensionManifest>, url: Seq<char>) -> Seq<Seq<char>>
    decreases ms.len(),
{
    if ms.len() == 0 {
        Seq::empty()
    } else {
        injectable(ms.drop_last(), url) + applicable_scripts(ms.last().content_scripts@, url)
    }
}

/// Index of the extension with id `id`, or -1.
pub open spec fn ext_index_from(ms: Seq<ExtensionManifest>, id: Seq<char>, i: int) -> int
    decreases ms.len() - i,
{
    if i < 0 || i >= ms.len() {
        -1
    } else if ms[i].id@ == id {
        i
    } else {
        ext_index_from(ms, id, i + 1)
    }
}

/// Index of the extension with id `id`, or -1.
pub open spec fn ext_index(ms: Seq<ExtensionManifest>, id: Seq<char>) -> int {
    ext_index_from(ms, id, 0)
}

/// The installed extensions after `m` is installed: it replaces the
/// extension with its id, or is added last.
pub open spec fn installed_after(ms: Seq<ExtensionManifest>, m: ExtensionManifest) -> Seq<ExtensionManifest> {
    let i = ext_index(ms, m.id@);
    if i >= 0 {
        ms.update(i, m)
    } else {
        ms.push(m)
    }
}

/// The key under which an extension is recorded as active in a tab.
pub open spec fn activation_key(ext_id: Seq<char>, tab_id: u64) -> Seq<char> {
    ext_id + "-"@ + decimal(tab_id as nat)
}

/// The activation keys that survive disabling `ext_id`: those not starting with it.
pub open spec fn survives_disable(ext_id: Seq<char>) -> spec_fn(Seq<char>) -> bool {
    |k: Seq<char>| !starts_with_seq(k, ext_id)
}

/// Installed extensions and the tabs they are active in.
pub struct ExtensionEngine {
    installed_extensions: Vec<ExtensionManifest>,
    active: Vec<String>,
}

impl ExtensionEngine {
    /// The installed extensions, in installation order.
    pub closed spec fn installed(self) -> Seq<ExtensionManifest> {
        self.installed_extensions@
    }

    /// The activation keys (`<extension id>-<tab id>`), each once.
    pub closed spec fn active_keys(self) -> Seq<Seq<char>> {
        self.active@.map_values(|k: String| k@)
    }

    /// An engine with nothing installed or active.
    pub fn new() -> (r: Result<Self, ExtensionError>)
        ensures
            r matches Ok(e) && e.installed().len() == 0 && e.active_keys().len() == 0,
    {
        Ok(ExtensionEngine { installed_extensions: Vec::new(), active: Vec::new() })
    }

    /// Index of the extension with id `ext_id`.
    fn find(&self, ext_id: &str) -> (r: Option<usize>)
        ensures
            match r {
                Some(i) => i as int == ext_index(self.installed(), ext_id@) && i < self.installed().len(),
                None => ext_index(self.installed(), ext_id@) == -1,
            },
    {
        let mut i: usize = 0;
        while i < self.installed_extensions.len()
            invariant
                i <= self.installed_extensions@.len(),
                ext_index(self.installed(), ext_id@) == ext_index_from(self.installed(), ext_id@, i as int),
            decreases self.installed_extensions.len() - i,
        {
            if str_eq(self.installed_extensions[i].id.as_str(), ext_id) {
                return Some(i);
            }
            i = i + 1;
        }
        None
    }

    /// Installs `manifest`, replacing an installed extension with the same id.
    pub fn install(&mut self, manifest: ExtensionManifest, _wasm_blob: Option<&[u8]>) -> (r: Result<(), ExtensionError>)
        ensures
            r is Ok,
            final(self).installed() == installed_after(old(self).installed(), manifest),
            final(self).active_keys() == old(self).active_keys(),
    {
        match self.find(manifest.id.as_str()) {
            Some(i) => {
                self.installed_extensions.set(i, manifest);
            },
            None => {
                self.installed_extensions.push(manifest);
            },
        }
        Ok(())
    }

    /// Records extension `ext_id` as active in tab `tab_id`; fails with
    /// `NotFound` when no such extension is installed.
    pub fn activate(&mut self, ext_id: &str, tab_id: u64, _url: &str) -> (r: Result<(), ExtensionError>)
        ensures
            ext_index(old(self).installed(), ext_id@) == -1 <==> r is Err,
            r is Err ==> final(self).active_keys() == old(self).active_keys(),
            r is Ok ==> final(self).active_keys() == (if old(self).active_keys().contains(
                activation_key(ext_id@, tab_id),
            ) {
                old(self).active_keys()
            } else {
                old(self).active_keys().push(activation_key(ext_id@, tab_id))
            }),
            final(self).installed() == old(self).installed(),
    {
        if self.find(ext_id).is_none() {
            return Err(ExtensionError::NotFound);
        }
        let mut key = ext_id.to_owned();
        key.append("-");
        let num = u64_to_decimal(tab_id);
        key.append(num.as_str());
        let ghost ks = self.active_keys();
        let mut i: usize = 0;
        let mut present = false;
        while i < self.active.len()
            invariant
                ks == self.active_keys(),
                self.installed_extensions@ == old(self).installed_extensions@,
                self.active@ == old(self).active@,
                key@ == activation_key(ext_id@, tab_id),
                i <= self.active@.len(),
                !present ==> forall|k: int| 0 <= k < i ==> ks[k] != key@,
                present ==> ks.contains(key@),
            decreases self.active.len() - i,
        {
            if str_eq(self.active[i].as_str(), key.as_str()) {
                present = true;
                assert(ks[i as int] == key@);
            }
            i = i + 1;
        }
        if !present {
            self.active.push(key);
            assert(self.active_keys() =~= ks.push(activation_key(ext_id@, tab_id)));
        }
        Ok(())
    }

    /// The script files of every installed extension whose content-script
    /// patterns apply to `url`.
    pub fn get_injectable_scripts(&self, url: &str) -> (r: Vec<String>)
        ensures
            r@.map_values(|s: String| s@) == injectable(self.installed(), url@),
    {
        let ghost ms = self.installed();
        let mut out: Vec<String> = Vec::new();
        let mut i: usize = 0;
        assert(ms.subrange(0, 0) =~= Seq::<ExtensionManifest>::empty());
        while i < self.installed_extensions.len()
            invariant
                ms == self.installed(),
                i <= ms.len(),
                out@.map_values(|s: String| s@) == injectable(ms.subrange(0, i as int), url@),
            decreases self.installed_extensions.len() - i,
        {
            let scripts = &self.installed_extensions[i].content_scripts;
            let ghost base = out@.map_values(|s: String| s@);
            let ghost cs = scripts@;
            let mut j: usize = 0;
            assert(cs.subrange(0, 0) =~= Seq::<ContentScript>::empty());
            assert(base + applicable_scripts(cs.subrange(0, 0), url@) =~= base);
            while j < scripts.len()
                invariant
                    cs == scripts@,
                    j <= cs.len(),
                    out@.map_values(|s: String| s@) == base + applicable_scripts(cs.subrange(0, j as int), url@),
                decreases scripts.len() - j,
            {
                let ghost prev = applicable_scripts(cs.subrange(0, j as int), url@);
                let ghost q = cs.subrange(0, j + 1);
                proof {
                    assert(q.drop_last() =~= cs.subrange(0, j as int));
                    assert(q.last() == cs[j as int]);
                }
                let script = &scripts[j];
                let applies = matches_any(&script.matches, url);
                if applies {
                    let f = script.js_file.clone();
                    assert(f@ == cs[j as int].js_file@);
                    let ghost before = out@;
                    out.push(f);
                    assert(out@ == before.push(f));
                    assert(out@.map_values(|s: String| s@) =~= before.map_values(|s: String| s@).push(f@));
                    assert(applicable_scripts(q, url@) == prev.push(cs[j as int].js_file@));
                    assert(out@.map_values(|s: String| s@) =~= base + prev.push(cs[j as int].js_file@));
                } else {
                    assert(applicable_scripts(q, url@) == prev);
                }
                j = j + 1;
            }
            proof {
                assert(cs.subrange(0, cs.len() as int) =~= cs);
                let q = ms.subrange(0, i + 1);
                assert(q.drop_last() =~= ms.subrange(0, i as int));
            }
            i = i + 1;
        }
        assert(ms.subrange(0, ms.len() as int) =~= ms);
        out
    }

    /// Forgets every activation whose key starts with `ext_id`.
    pub fn disable(&mut self, ext_id: &str)
        ensures
            final(self).active_keys() == keep(old(self).active_keys(), survives_disable(ext_id@)),
            final(self).installed() == old(self).installed(),
    {
        let ghost ks = self.active_keys();
        let ghost p = survives_disable(ext_id@);
        let mut kept: Vec<String> = Vec::new();
        let mut i: usize = 0;
        assert(ks.subrange(0, 0) =~= Seq::<Seq<char>>::empty());
        while i < self.active.len()
            invariant
                ks == self.active_keys(),
                p == survives_disable(ext_id@),
                self.installed_extensions@ == old(self).installed_extensions@,
                self.active@ == old(self).active@,
                i <= ks.len(),
                kept@.map_values(|s: String| s@) == keep(ks.subrange(0, i as int), p),
            decreases self.active.len() - i,
        {
            proof {
                lemma_keep_step(ks, p, i as int);
            }
            if !str_starts_with(self.active[i].as_str(), ext_id) {
                kept.push(self.active[i].clone());
                assert(kept@.map_values(|s: String| s@) =~= keep(ks.subrange(0, i + 1), p));
            }
            i = i + 1;
        }
        assert(ks.subrange(0, ks.len() as int) =~= ks);
        self.active = kept;
    }

    /// Whether an extension with id `ext_id` is installed.
    pub fn is_installed(&self, ext_id: &str) -> (b: bool)
        ensures
            b == (ext_index(self.installed(), ext_id@) != -1),
    {
        self.find(ext_id).is_some()
    }
}

/// Whether a content-script pattern applies to `url`.
pub fn url_matches_pattern(url: &str, pattern: &str) -> (b: bool)
    ensures
        b == pattern_applies(url@, pattern@),
{
    if str_eq(pattern, "<all_urls>") || str_eq(pattern, "*://*/*") {
        return true;
    }
    let pv = chars_of(pattern);
    let core = trim_char_exec(&pv, '*');
    let uv = chars_of(url);
    seq_contains(&uv, &core)
}

/// Whether some pattern of `patterns` applies to `url`.
fn matches_any(patterns: &Vec<String>, url: &str) -> (b: bool)
    ensures
        b == any_applies(patterns@, url@),
{
    let mut i: usize = 0;
    while i < patterns.len()
        invariant
            i <= patterns@.len(),
            forall|k: int| 0 <= k < i ==> !pattern_applies(url@, #[trigger] patterns@[k]@),
        decreases patterns.len() - i,
    {
        if url_matches_pattern(url, patterns[i].as_str()) {
            return true;
        }
        i = i + 1;
    }
    false
}

/// An installed extension is reported as installed.
pub proof fn law_installed_is_found(ms: Seq<ExtensionManifest>, m: ExtensionManifest)
    ensures
        ext_index(installed_after(ms, m), m.id@) != -1,
{
    lemma_ext_index(ms, m.id@, 0);
    let r = installed_after(ms, m);
    let i = ext_index(ms, m.id@);
    let k = if i >= 0 {
        i
    } else {
        ms.len() as int
    };
    assert(r[k].id@ == m.id@);
    lemma_ext_index(r, m.id@, 0);
}

/// What `ext_index_from` reports.
proof fn lemma_ext_index(ms: Seq<ExtensionManifest>, id: Seq<char>, i: int)
    requires
        0 <= i <= ms.len(),
    ensures
        ext_index_from(ms, id, i) == -1 ==> forall|m: int| i <= m < ms.len() ==> ms[m].id@ != id,
        ext_index_from(ms, id, i) != -1 ==> i <= ext_index_from(ms, id, i) < ms.len() && ms[ext_index_from(
            ms,
            id,
            i,
        )].id@ == id,
    decreases ms.len() - i,
{
    if i < ms.len() && ms[i].id@ != id {
        lemma_ext_index(ms, id, i + 1);
    }
}

/// After an extension is disabled, none of the remaining activations belongs to it.
pub proof fn law_disable_removes_activations(ks: Seq<Seq<char>>, ext_id: Seq<char>)
    ensures
        forall|k: int|
            0 <= k < keep(ks, survives_disable(ext_id)).len() ==> !starts_with_seq(
                #[trigger] keep(ks, survives_disable(ext_id))[k],
                ext_id,
            ),
{
    crate::seqs::lemma_keep_sound(ks, survives_disable(ext_id));
}

/// The pattern `<all_urls>` applies to every URL.
pub proof fn law_all_urls_applies(url: Seq<char>)
    ensures
        pattern_applies(url, "<all_urls>"@),
{
}

} // verus!
