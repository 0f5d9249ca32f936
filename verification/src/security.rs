//! Page security: content-security policies, sandbox flags, safe-browsing
//! checks and the decision to isolate a navigation in a new process.
use vstd::prelude::*;
use crate::seqs::{keep, lemma_keep_push};
use crate::text::{
    chars_of, contains_seq, find_char_from, find_first, lemma_find_char_from, lemma_find_from,
    lowercase_of, occurs_at, str_contains, str_eq, string_of_chars, string_of_range, find_char_exec,
    find_from_exec, to_lowercase, words, words_exec, split_char, split_char_exec, strs,
};

verus! {

// ---------------------------------------------------------------------------
// Content-security policy
// ---------------------------------------------------------------------------

/// A policy's source lists and report address, parsed from a CSP header.
#[derive(Debug, Clone)]
pub struct ContentSecurityPolicy {
    pub default_src: Option<Vec<String>>,
    pub script_src: Option<Vec<String>>,
    pub style_src: Option<Vec<String>>,
    pub img_src: Option<Vec<String>>,
    pub connect_src: Option<Vec<String>>,
    pub frame_ancestors: Option<Vec<String>>,
    pub report_uri: Option<String>,
}

/// A policy with its strings taken as character sequences.
pub struct PolicyView {
    pub default_src: Option<Seq<Seq<char>>>,
    pub script_src: Option<Seq<Seq<char>>>,
    pub style_src: Option<Seq<Seq<char>>>,
    pub img_src: Option<Seq<Seq<char>>>,
    pub connect_src: Option<Seq<Seq<char>>>,
    pub frame_ancestors: Option<Seq<Seq<char>>>,
    pub report_uri: Option<Seq<char>>,
}

/// A source list taken as character sequences.
pub open spec fn opt_strs(o: Option<Vec<String>>) -> Option<Seq<Seq<char>>> {
    match o {
        Some(v) => Some(strs(v@)),
        None => None,
    }
}

impl View for ContentSecurityPolicy {
    type V = PolicyView;

    open spec fn view(&self) -> PolicyView {
        PolicyView {
            default_src: opt_strs(self.default_src),
            script_src: opt_strs(self.script_src),
            style_src: opt_strs(self.style_src),
            img_src: opt_strs(self.img_src),
            connect_src: opt_strs(self.connect_src),
            frame_ancestors: opt_strs(self.frame_ancestors),
            report_uri: match self.report_uri {
                Some(s) => Some(s@),
                None => None,
            },
        }
    }
}

/// The policy with no directive.
pub open spec fn empty_policy() -> PolicyView {
    PolicyView {
        default_src: None,
        script_src: None,
        style_src: None,
        img_src: None,
        connect_src: None,
        frame_ancestors: None,
        report_uri: None,
    }
}

/// `p` after the directive `name` (already lowercased) with `values`: a
/// known source directive takes `values` as its list, `report-uri` takes
/// the first value when there is one, and any other name changes nothing.
pub open spec fn with_directive(p: PolicyView, name: Seq<char>, values: Seq<Seq<char>>) -> PolicyView {
    if name == "default-src"@ {
        PolicyView { default_src: Some(values), ..p }
    } else if name == "script-src"@ {
        PolicyView { script_src: Some(values), ..p }
    } else if name == "style-src"@ {
        PolicyView { style_src: Some(values), ..p }
    } else if name == "img-src"@ {
        PolicyView { img_src: Some(values), ..p }
    } else if name == "connect-src"@ {
        PolicyView { connect_src: Some(values), ..p }
    } else if name == "frame-ancestors"@ {
        PolicyView { frame_ancestors: Some(values), ..p }
    } else if name == "report-uri"@ && values.len() > 0 {
        PolicyView { report_uri: Some(values[0]), ..p }
    } else {
        p
    }
}

/// The policy after reading the directives `ds` in order: each directive is
/// split into whitespace-separated words; an empty one is skipped, otherwise
/// its first word, lowercased, names it and the rest are its values.
pub open spec fn policy_of(ds: Seq<Seq<char>>) -> PolicyView
    decreases ds.len(),
{
    if ds.len() == 0 {
        empty_policy()
    } else {
        let p = policy_of(ds.drop_last());
        let parts = words(ds.last());
        if parts.len() == 0 {
            p
        } else {
            with_directive(p, lowercase_of(parts[0]), parts.subrange(1, parts.len() as int))
        }
    }
}

/// The policy a header states: its `;`-separated directives read in order.
pub open spec fn parsed_policy(header: Seq<char>) -> PolicyView {
    policy_of(split_char(header, ';'))
}

/// The source list that governs loads of `resource_type`: the list of the
/// matching directive when it is present, else `default-src`.
pub open spec fn sources_for(p: PolicyView, resource_type: Seq<char>) -> Option<Seq<Seq<char>>> {
    let specific = if resource_type == "script"@ {
        p.script_src
    } else if resource_type == "style"@ {
        p.style_src
    } else if resource_type == "image"@ {
        p.img_src
    } else if resource_type == "xhr"@ {
        p.connect_src
    } else {
        None
    };
    if specific is Some {
        specific
    } else {
        p.default_src
    }
}

/// Whether `p` lets `url` load as `resource_type`: with no governing list
/// everything loads; a list with `'self'` admits everything, one with
/// `'unsafe-inline'` admits every script, and otherwise the URL must
/// contain one of the listed sources.
pub open spec fn policy_allows(p: PolicyView, resource_type: Seq<char>, url: Seq<char>) -> bool {
    match sources_for(p, resource_type) {
        None => true,
        Some(list) => {
            ||| list.contains("'self'"@)
            ||| (list.contains("'unsafe-inline'"@) && resource_type == "script"@)
            ||| exists|i: int| 0 <= i < list.len() && contains_seq(url, #[trigger] list[i])
        },
    }
}

impl Default for ContentSecurityPolicy {
    fn default() -> (r: Self)
        ensures
            r@ == empty_policy(),
    {
        ContentSecurityPolicy {
            default_src: None,
            script_src: None,
            style_src: None,
            img_src: None,
            connect_src: None,
            frame_ancestors: None,
            report_uri: None,
        }
    }
}

/// Whether `list` holds the string `s`.
fn list_has(list: &Vec<String>, s: &str) -> (b: bool)
    ensures
        b == strs(list@).contains(s@),
{
    let mut i: usize = 0;
    while i < list.len()
        invariant
            i <= list@.len(),
            forall|k: int| 0 <= k < i ==> list@[k]@ != s@,
        decreases list.len() - i,
    {
        if str_eq(list[i].as_str(), s) {
            assert(strs(list@)[i as int] == s@);
            return true;
        }
        i = i + 1;
    }
    assert forall|k: int| 0 <= k < strs(list@).len() implies strs(list@)[k] != s@ by {
        assert(strs(list@)[k] == list@[k]@);
    }
    false
}

/// Whether `url` contains one of the strings of `list`.
fn any_contained(list: &Vec<String>, url: &str) -> (b: bool)
    ensures
        b == exists|i: int| 0 <= i < strs(list@).len() && contains_seq(url@, #[trigger] strs(list@)[i]),
{
    let mut i: usize = 0;
    while i < list.len()
        invariant
            i <= list@.len(),
            forall|k: int| 0 <= k < i ==> !contains_seq(url@, #[trigger] strs(list@)[k]),
        decreases list.len() - i,
    {
        if str_contains(url, list[i].as_str()) {
            assert(contains_seq(url@, strs(list@)[i as int]));
            return true;
        }
        i = i + 1;
    }
    false
}

/// The words of `parts[from..]`, as strings.
fn strings_from(parts: &Vec<Vec<char>>, from: usize) -> (r: Vec<String>)
    requires
        from <= parts@.len(),
    ensures
        strs(r@) == parts@.subrange(from as int, parts@.len() as int).map_values(|w: Vec<char>| w@),
{
    let mut r: Vec<String> = Vec::new();
    let mut j = from;
    while j < parts.len()
        invariant
            from <= j <= parts@.len(),
            strs(r@) == parts@.subrange(from as int, j as int).map_values(|w: Vec<char>| w@),
        decreases parts.len() - j,
    {
        let w = string_of_chars(&parts[j]);
        let ghost before = r@;
        r.push(w);
        proof {
            assert(r@ == before.push(w));
            assert(strs(r@) =~= strs(before).push(parts@[j as int]@));
            assert(parts@.subrange(from as int, j + 1) =~= parts@.subrange(from as int, j as int).push(
                parts@[j as int],
            ));
        }
        j = j + 1;
        assert(strs(r@) =~= parts@.subrange(from as int, j as int).map_values(|w: Vec<char>| w@));
    }
    r
}

impl ContentSecurityPolicy {
    /// Parses a CSP header: `;`-separated directives, each a directive name
    /// (compared in lowercase) followed by its values.
    pub fn parse(header: &str) -> (p: Self)
        ensures
            p@ == parsed_policy(header@),
    {
        let mut policy = ContentSecurityPolicy::default();
        let hv = chars_of(header);
        let ds = split_char_exec(&hv, ';');
        let ghost dss = split_char(header@, ';');
        let mut i: usize = 0;
        assert(dss.subrange(0, 0) =~= Seq::<Seq<char>>::empty());
        while i < ds.len()
            invariant
                ds@.len() == dss.len(),
                forall|k: int| 0 <= k < ds@.len() ==> (#[trigger] ds@[k])@ == dss[k],
                i <= ds@.len(),
                policy@ == policy_of(dss.subrange(0, i as int)),
            decreases ds.len() - i,
        {
            let ghost q = dss.subrange(0, i + 1);
            proof {
                assert(q.drop_last() =~= dss.subrange(0, i as int));
                assert(q.last() == dss[i as int]);
            }
            let parts = words_exec(&ds[i]);
            if parts.len() > 0 {
                let first = string_of_chars(&parts[0]);
                let name = to_lowercase(first.as_str());
                let values = strings_from(&parts, 1);
                proof {
                    let ws = words(dss[i as int]);
                    assert(parts@.subrange(1, parts@.len() as int).map_values(|w: Vec<char>| w@)
                        =~= ws.subrange(1, ws.len() as int));
                }
                policy.apply_directive(name.as_str(), values);
            }
            i = i + 1;
        }
        assert(dss.subrange(0, dss.len() as int) =~= dss);
        policy
    }

    /// Applies one directive whose name is already lowercased: a known
    /// source directive takes `values` as its list, `report-uri` takes the
    /// first value when there is one, and any other name is ignored.
    pub fn apply_directive(&mut self, name: &str, values: Vec<String>)
        ensures
            final(self)@ == with_directive(old(self)@, name@, strs(values@)),
    {
        if str_eq(name, "default-src") {
            self.default_src = Some(values);
        } else if str_eq(name, "script-src") {
            self.script_src = Some(values);
        } else if str_eq(name, "style-src") {
            self.style_src = Some(values);
        } else if str_eq(name, "img-src") {
            self.img_src = Some(values);
        } else if str_eq(name, "connect-src") {
            self.connect_src = Some(values);
        } else if str_eq(name, "frame-ancestors") {
            self.frame_ancestors = Some(values);
        } else if str_eq(name, "report-uri") {
            if values.len() > 0 {
                self.report_uri = Some(values[0].clone());
            }
        }
    }

    /// The source list governing `resource_type`.
    fn governing(&self, resource_type: &str) -> (r: &Option<Vec<String>>)
        ensures
            opt_strs(*r) == sources_for(self@, resource_type@),
    {
        proof {
            reveal_strlit("script");
            reveal_strlit("style");
            reveal_strlit("image");
            reveal_strlit("xhr");
        }
        if str_eq(resource_type, "script") {
            if self.script_src.is_some() {
                return &self.script_src;
            }
        } else if str_eq(resource_type, "style") {
            if self.style_src.is_some() {
                return &self.style_src;
            }
        } else if str_eq(resource_type, "image") {
            if self.img_src.is_some() {
                return &self.img_src;
            }
        } else if str_eq(resource_type, "xhr") {
            if self.connect_src.is_some() {
                return &self.connect_src;
            }
        }
        &self.default_src
    }

    /// Whether the policy lets `url` load as `resource_type` (`script`,
    /// `style`, `image`, `xhr` or anything else, which `default-src` governs).
    pub fn allows(&self, resource_type: &str, url: &str) -> (b: bool)
        ensures
            b == policy_allows(self@, resource_type@, url@),
    {
        match self.governing(resource_type) {
            None => true,
            Some(list) => {
                if list_has(list, "'self'") {
                    return true;
                }
                if list_has(list, "'unsafe-inline'") && str_eq(resource_type, "script") {
                    return true;
                }
                any_contained(list, url)
            },
        }
    }
}

/// Each source directive sets its own list to the given values and leaves
/// every other directive as it was; `report-uri` takes the first value; a
/// name that is no directive changes nothing.
pub proof fn law_directive_sets_only_its_field(p: PolicyView, name: Seq<char>, values: Seq<Seq<char>>)
    ensures
        name == "default-src"@ ==> {
            let q = with_directive(p, name, values);
            &&& q.default_src == Some(values)
            &&& q.script_src == p.script_src && q.style_src == p.style_src && q.img_src == p.img_src
            &&& q.connect_src == p.connect_src && q.frame_ancestors == p.frame_ancestors
            &&& q.report_uri == p.report_uri
        },
        name == "script-src"@ ==> {
            let q = with_directive(p, name, values);
            &&& q.script_src == Some(values)
            &&& q.default_src == p.default_src && q.style_src == p.style_src && q.img_src == p.img_src
            &&& q.connect_src == p.connect_src && q.frame_ancestors == p.frame_ancestors
            &&& q.report_uri == p.report_uri
        },
        name == "style-src"@ ==> {
            let q = with_directive(p, name, values);
            &&& q.style_src == Some(values)
            &&& q.default_src == p.default_src && q.script_src == p.script_src && q.img_src == p.img_src
            &&& q.connect_src == p.connect_src && q.frame_ancestors == p.frame_ancestors
            &&& q.report_uri == p.report_uri
        },
        name == "img-src"@ ==> {
            let q = with_directive(p, name, values);
            &&& q.img_src == Some(values)
            &&& q.default_src == p.default_src && q.script_src == p.script_src && q.style_src == p.style_src
            &&& q.connect_src == p.connect_src && q.frame_ancestors == p.frame_ancestors
            &&& q.report_uri == p.report_uri
        },
        name == "connect-src"@ ==> {
            let q = with_directive(p, name, values);
            &&& q.connect_src == Some(values)
            &&& q.default_src == p.default_src && q.script_src == p.script_src && q.style_src == p.style_src
            &&& q.img_src == p.img_src && q.frame_ancestors == p.frame_ancestors
            &&& q.report_uri == p.report_uri
        },
        name == "frame-ancestors"@ ==> {
            let q = with_directive(p, name, values);
            &&& q.frame_ancestors == Some(values)
            &&& q.default_src == p.default_src && q.script_src == p.script_src && q.style_src == p.style_src
            &&& q.img_src == p.img_src && q.connect_src == p.connect_src
            &&& q.report_uri == p.report_uri
        },
        name == "report-uri"@ ==> {
            let q = with_directive(p, name, values);
            &&& q.report_uri == (if values.len() > 0 {
                Some(values[0])
            } else {
                p.report_uri
            })
            &&& q.default_src == p.default_src && q.script_src == p.script_src && q.style_src == p.style_src
            &&& q.img_src == p.img_src && q.connect_src == p.connect_src
            &&& q.frame_ancestors == p.frame_ancestors
        },
        name != "default-src"@ && name != "script-src"@ && name != "style-src"@ && name != "img-src"@ && name
            != "connect-src"@ && name != "frame-ancestors"@ && name != "report-uri"@ ==> with_directive(
            p,
            name,
            values,
        ) == p,
{
    reveal_strlit("default-src");
    reveal_strlit("script-src");
    reveal_strlit("style-src");
    reveal_strlit("img-src");
    reveal_strlit("connect-src");
    reveal_strlit("frame-ancestors");
    reveal_strlit("report-uri");
    assert("default-src"@[0] == 'd' && "default-src"@[1] == 'e');
    assert("script-src"@[0] == 's' && "script-src"@[1] == 'c');
    assert("style-src"@[0] == 's' && "style-src"@[1] == 't');
    assert("img-src"@[0] == 'i' && "img-src"@[1] == 'm');
    assert("connect-src"@[0] == 'c' && "connect-src"@[1] == 'o');
    assert("frame-ancestors"@[0] == 'f' && "frame-ancestors"@[1] == 'r');
    assert("report-uri"@[0] == 'r' && "report-uri"@[1] == 'e');
}

/// A script, style, image or XHR load is governed by its own directive
/// when the policy has it and by `default-src` otherwise; with neither,
/// every load is allowed, and a governing list with `'self'` allows every
/// load.
pub proof fn law_default_src_is_the_fallback(p: PolicyView, url: Seq<char>)
    ensures
        p.script_src is None ==> sources_for(p, "script"@) == p.default_src,
        p.script_src is Some ==> sources_for(p, "script"@) == p.script_src,
        p.style_src is None ==> sources_for(p, "style"@) == p.default_src,
        p.style_src is Some ==> sources_for(p, "style"@) == p.style_src,
        p.img_src is None ==> sources_for(p, "image"@) == p.default_src,
        p.img_src is Some ==> sources_for(p, "image"@) == p.img_src,
        p.connect_src is None ==> sources_for(p, "xhr"@) == p.default_src,
        p.connect_src is Some ==> sources_for(p, "xhr"@) == p.connect_src,
        sources_for(p, "font"@) == p.default_src,
        p.default_src is None && p.script_src is None ==> policy_allows(p, "script"@, url),
        forall|t: Seq<char>|
            #![trigger policy_allows(p, t, url)]
            (sources_for(p, t) matches Some(l) && l.contains("'self'"@)) ==> policy_allows(p, t, url),
{
    reveal_strlit("script");
    reveal_strlit("style");
    reveal_strlit("image");
    reveal_strlit("xhr");
    reveal_strlit("font");
    assert("script"@[1] == 'c' && "style"@[1] == 't' && "image"@[0] == 'i' && "xhr"@[0] == 'x');
    assert("script"@[0] == 's' && "style"@[0] == 's' && "font"@[0] == 'f');
}

// ---------------------------------------------------------------------------
// Sandbox flags and security context
// ---------------------------------------------------------------------------

/// Flag: scripts may run.
pub const ALLOW_SCRIPTS: u32 = 1;
/// Flag: forms may be submitted.
pub const ALLOW_FORMS: u32 = 2;
/// Flag: popups may open.
pub const ALLOW_POPUPS: u32 = 4;
/// Flag: the page may navigate the top-level context.
pub const ALLOW_TOP_NAVIGATION: u32 = 8;
/// Flag: the page keeps its origin.
pub const ALLOW_SAME_ORIGIN: u32 = 16;
/// Flag: the page runs under strict isolation.
pub const STRICT_ISOLATION: u32 = 32;
/// Every defined flag.
pub const ALL_SANDBOX_FLAGS: u32 = 63;

/// A set of sandbox flags, held as the bits of the flags above.
#[derive(Debug, Clone, Copy)]
pub struct SandboxFlags {
    bits: u32,
}

impl SandboxFlags {
    /// The bits of the set.
    pub closed spec fn spec_bits(self) -> u32 {
        self.bits
    }

    /// The empty set.
    pub fn empty() -> (r: Self)
        ensures
            r.spec_bits() == 0,
    {
        SandboxFlags { bits: 0 }
    }

    /// The set of the defined flags among `bits`; undefined bits are dropped.
    pub fn from_bits_truncate(bits: u32) -> (r: Self)
        ensures
            r.spec_bits() == bits & ALL_SANDBOX_FLAGS,
    {
        SandboxFlags { bits: bits & ALL_SANDBOX_FLAGS }
    }

    /// The bits of the set.
    pub fn bits(&self) -> (r: u32)
        ensures
            r == self.spec_bits(),
    {
        self.bits
    }

    /// Whether every flag of `other` is in the set.
    pub fn contains(&self, other: SandboxFlags) -> (b: bool)
        ensures
            b == (self.spec_bits() & other.spec_bits() == other.spec_bits()),
    {
        self.bits & other.bits == other.bits
    }
}

/// What the engine knows of the security of a rendered page.
#[derive(Debug, Clone)]
pub struct SecurityContext {
    pub origin: String,
    pub csp_policy: ContentSecurityPolicy,
    pub is_secure: bool,
    pub sandbox_flags: SandboxFlags,
}

// ---------------------------------------------------------------------------
// Process isolation
// ---------------------------------------------------------------------------

/// `s` after its first `://`, or all of `s` when it has none.
pub open spec fn after_scheme(s: Seq<char>) -> Seq<char> {
    let f = find_first(s, "://"@);
    if f >= 0 {
        s.subrange(f + 3, s.len() as int)
    } else {
        s
    }
}

/// The origin of a URL as the isolator compares it: what follows the scheme,
/// up to the first `/`.
pub open spec fn origin_of(s: Seq<char>) -> Seq<char> {
    let r = after_scheme(s);
    let k = find_char_from(r, '/', 0);
    if k >= 0 {
        r.subrange(0, k)
    } else {
        r
    }
}

/// The origin of `s`.
fn origin_exec(s: &str) -> (r: String)
    ensures
        r@ == origin_of(s@),
{
    let v = chars_of(s);
    let sep = chars_of("://");
    proof {
        reveal_strlit("://");
        lemma_find_from(v@, sep@, 0);
    }
    let rest = match find_from_exec(&v, &sep, 0) {
        Some(f) => {
            let n = v.len();
            assert(occurs_at(v@, sep@, f as int));
            assert(sep@.len() == 3);
            assert(f + 3 <= n);
            string_of_range(&v, f + 3, n)
        },
        None => string_of_chars(&v),
    };
    assert(rest@ == after_scheme(s@));
    let rv = chars_of(rest.as_str());
    proof {
        lemma_find_char_from(rv@, '/', 0);
    }
    match find_char_exec(&rv, '/', 0) {
        Some(k) => string_of_range(&rv, 0, k),
        None => rest,
    }
}

/// Decides when a navigation needs a process of its own.
pub struct ProcessIsolator {
    site_per_process: bool,
}

impl ProcessIsolator {
    /// Whether each site gets its own process.
    pub closed spec fn per_site(self) -> bool {
        self.site_per_process
    }

    /// An isolator; `site_per_process` turns per-site isolation on.
    pub fn new(site_per_process: bool) -> (r: Self)
        ensures
            r.per_site() == site_per_process,
    {
        ProcessIsolator { site_per_process }
    }

    /// Whether navigating from `current_origin` to `new_origin` needs a new
    /// process: only under per-site isolation, when the two origins differ.
    pub fn requires_new_process(&self, current_origin: &str, new_origin: &str) -> (b: bool)
        ensures
            b == (self.per_site() && origin_of(current_origin@) != origin_of(new_origin@)),
    {
        if !self.site_per_process {
            return false;
        }
        let a = origin_exec(current_origin);
        let b = origin_exec(new_origin);
        !str_eq(a.as_str(), b.as_str())
    }
}

// ---------------------------------------------------------------------------
// Safe browsing
// ---------------------------------------------------------------------------

#[verifier::external_type_specification]
#[verifier::external_body]
pub struct ExRegex(regex::Regex);

/// Whether the `regex` crate accepts `pattern` as a regular expression.
pub uninterp spec fn regex_compiles(pattern: Seq<char>) -> bool;

/// Whether the regular expression `pattern` matches somewhere in `text`.
pub uninterp spec fn regex_matches(pattern: Seq<char>, text: Seq<char>) -> bool;

/// A regular expression, with the source it was compiled from.
pub struct CompiledPattern {
    source: String,
    compiled: regex::Regex,
}

impl CompiledPattern {
    /// The source the expression was compiled from.
    pub closed spec fn source(self) -> Seq<char> {
        self.source@
    }
}

/// Compiles `pattern` with `regex::Regex::new`. The contract claims that the
/// result is present exactly when the crate accepts the pattern, and that it
/// remembers `pattern` as its source.
#[verifier::external_body]
pub(crate) fn compile_pattern(pattern: &str) -> (r: Option<CompiledPattern>)
    ensures
        r is Some <==> regex_compiles(pattern@),
        r matches Some(p) ==> p.source() == pattern@,
{
    match regex::Regex::new(pattern) {
        Ok(re) => Some(CompiledPattern { source: pattern.to_string(), compiled: re }),
        Err(_) => None,
    }
}

/// `regex::Regex::is_match` on the compiled expression of `p`. The contract
/// claims that the answer is whether the expression compiled from the
/// source of `p` matches somewhere in `text`; it rests on `compile_pattern`
/// being the only place that builds a `CompiledPattern` (its fields are
/// private to this module).
#[verifier::external_body]
pub(crate) fn pattern_is_match(p: &CompiledPattern, text: &str) -> (b: bool)
    ensures
        b == regex_matches(p.source(), text@),
{
    p.compiled.is_match(text)
}

/// The heuristic patterns a safe-browsing manager starts with.
pub open spec fn default_phishing_patterns() -> Seq<Seq<char>> {
    seq!["paypa[l1]\\.com"@, "amaz0n\\.com"@]
}

/// The patterns that compile.
pub open spec fn compiles() -> spec_fn(Seq<char>) -> bool {
    |p: Seq<char>| regex_compiles(p)
}

/// Whether a URL, already lowercased, is safe: it contains no blocked domain
/// and no heuristic pattern matches it.
pub open spec fn url_is_safe(blocked: Set<Seq<char>>, patterns: Seq<Seq<char>>, lower_url: Seq<char>) -> bool {
    &&& !exists|d: Seq<char>| #[trigger] blocked.contains(d) && contains_seq(lower_url, d)
    &&& !exists|i: int| 0 <= i < patterns.len() && regex_matches(#[trigger] patterns[i], lower_url)
}

/// A local blocklist of domains and a list of phishing heuristics.
pub struct SafeBrowsingManager {
    malicious_domains: Vec<String>,
    phishing_patterns: Vec<CompiledPattern>,
}

impl SafeBrowsingManager {
    /// The blocked domains (lowercased).
    pub closed spec fn blocked(self) -> Set<Seq<char>> {
        Set::new(|d: Seq<char>| strs(self.malicious_domains@).contains(d))
    }

    /// The sources of the heuristic patterns, in order.
    pub closed spec fn pattern_sources(self) -> Seq<Seq<char>> {
        self.phishing_patterns@.map_values(|p: CompiledPattern| p.source())
    }

    /// A manager with an empty blocklist and those default heuristics that compile.
    pub fn new() -> (r: Self)
        ensures
            r.blocked() == Set::<Seq<char>>::empty(),
            r.pattern_sources() == keep(default_phishing_patterns(), compiles()),
    {
        let mut patterns: Vec<CompiledPattern> = Vec::new();
        let a = "paypa[l1]\\.com";
        let b = "amaz0n\\.com";
        if let Some(p) = compile_pattern(a) {
            patterns.push(p);
        }
        let ghost after_a = patterns@.map_values(|p: CompiledPattern| p.source());
        proof {
            lemma_keep_push(Seq::<Seq<char>>::empty(), compiles(), a@);
            assert(after_a =~= keep(seq![a@], compiles()));
        }
        if let Some(p) = compile_pattern(b) {
            patterns.push(p);
        }
        proof {
            lemma_keep_push(seq![a@], compiles(), b@);
            assert(seq![a@].push(b@) =~= default_phishing_patterns());
            assert(patterns@.map_values(|p: CompiledPattern| p.source()) =~= keep(
                default_phishing_patterns(),
                compiles(),
            ));
        }
        let r = SafeBrowsingManager { malicious_domains: Vec::new(), phishing_patterns: patterns };
        assert(r.blocked() =~= Set::<Seq<char>>::empty());
        r
    }

    /// Adds `domain`, lowercased, to the blocklist.
    pub fn add_malicious_domain(&mut self, domain: &str)
        ensures
            final(self).blocked() == old(self).blocked().insert(lowercase_of(domain@)),
            final(self).pattern_sources() == old(self).pattern_sources(),
    {
        let d = to_lowercase(domain);
        let ghost v = lowercase_of(domain@);
        let ghost before = strs(self.malicious_domains@);
        if !list_has(&self.malicious_domains, d.as_str()) {
            self.malicious_domains.push(d);
            proof {
                let after = strs(self.malicious_domains@);
                assert(after =~= before.push(v));
                assert forall|x: Seq<char>| after.contains(x) <==> (before.contains(x) || x == v) by {
                    if after.contains(x) {
                        let k = choose|k: int| 0 <= k < after.len() && after[k] == x;
                        if k < before.len() {
                            assert(before[k] == x);
                        }
                    }
                    if before.contains(x) {
                        let k = choose|k: int| 0 <= k < before.len() && before[k] == x;
                        assert(after[k] == x);
                    }
                    if x == v {
                        assert(after[before.len() as int] == x);
                    }
                }
            }
        }
        assert(self.blocked() =~= old(self).blocked().insert(v));
    }

    /// Whether the URL `lower_url`, already lowercased, is safe to load.
    pub fn is_safe_lowercase(&self, lower_url: &str) -> (b: bool)
        ensures
            b == url_is_safe(self.blocked(), self.pattern_sources(), lower_url@),
    {
        let mut i: usize = 0;
        while i < self.malicious_domains.len()
            invariant
                i <= self.malicious_domains@.len(),
                forall|k: int| 0 <= k < i ==> !contains_seq(lower_url@, #[trigger] strs(self.malicious_domains@)[k]),
            decreases self.malicious_domains.len() - i,
        {
            if str_contains(lower_url, self.malicious_domains[i].as_str()) {
                assert(self.blocked().contains(strs(self.malicious_domains@)[i as int]));
                return false;
            }
            i = i + 1;
        }
        assert forall|d: Seq<char>| #[trigger] self.blocked().contains(d) implies !contains_seq(lower_url@, d) by {
            let k = choose|k: int| 0 <= k < strs(self.malicious_domains@).len() && strs(self.malicious_domains@)[k] == d;
        }
        let mut j: usize = 0;
        while j < self.phishing_patterns.len()
            invariant
                j <= self.phishing_patterns@.len(),
                forall|k: int| 0 <= k < j ==> !regex_matches(#[trigger] self.pattern_sources()[k], lower_url@),
            decreases self.phishing_patterns.len() - j,
        {
            if pattern_is_match(&self.phishing_patterns[j], lower_url) {
                assert(regex_matches(self.pattern_sources()[j as int], lower_url@));
                return false;
            }
            j = j + 1;
        }
        true
    }

    /// Whether `url` is safe to load: its lowercase form contains no blocked
    /// domain and matches no heuristic pattern.
    pub fn is_safe(&self, url: &str) -> (b: bool)
        ensures
            b == url_is_safe(self.blocked(), self.pattern_sources(), lowercase_of(url@)),
    {
        let lower = to_lowercase(url);
        self.is_safe_lowercase(lower.as_str())
    }
}

/// A URL that contains a blocked domain is never safe.
pub proof fn law_blocked_domain_is_unsafe(
    blocked: Set<Seq<char>>,
    patterns: Seq<Seq<char>>,
    domain: Seq<char>,
    lower_url: Seq<char>,
)
    requires
        contains_seq(lower_url, domain),
    ensures
        !url_is_safe(blocked.insert(domain), patterns, lower_url),
{
    assert(blocked.insert(domain).contains(domain));
}

} // verus!
