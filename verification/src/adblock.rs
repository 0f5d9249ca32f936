//! Ad and tracker blocking by domain list and URL patterns.
use vstd::prelude::*;
use crate::text::{
    chars_of, contains_seq, starts_with_seq, str_contains, str_eq, str_starts_with, string_of_range,
};
use crate::security::{compile_pattern, pattern_is_match, regex_compiles, regex_matches};

verus! {

/// Counters of what the filter has blocked.
pub struct BlockStats {
    pub ads_blocked: u64,
    pub trackers_blocked: u64,
    pub bytes_saved: u64,
}

impl Clone for BlockStats {
    fn clone(&self) -> (r: Self)
        ensures
            r == *self,
    {
        BlockStats {
            ads_blocked: self.ads_blocked,
            trackers_blocked: self.trackers_blocked,
            bytes_saved: self.bytes_saved,
        }
    }
}

impl Default for BlockStats {
    fn default() -> (r: Self)
        ensures
            r.ads_blocked == 0 && r.trackers_blocked == 0 && r.bytes_saved == 0,
    {
        BlockStats { ads_blocked: 0, trackers_blocked: 0, bytes_saved: 0 }
    }
}

/// Some listed domain occurs in `url`.
pub open spec fn matches_domain(domains: Seq<Seq<char>>, url: Seq<char>) -> bool {
    exists|i: int| 0 <= i < domains.len() && contains_seq(url, #[trigger] domains[i])
}

/// Some pattern is a regular expression that matches somewhere in `url`
/// (a pattern the `regex` crate refuses matches nothing).
pub open spec fn matches_pattern(patterns: Seq<Seq<char>>, url: Seq<char>) -> bool {
    exists|i: int| 0 <= i < patterns.len() && pattern_hits(#[trigger] patterns[i], url)
}

/// The regular expression `pattern` compiles and matches somewhere in `url`.
pub open spec fn pattern_hits(pattern: Seq<char>, url: Seq<char>) -> bool {
    regex_compiles(pattern) && regex_matches(pattern, url)
}

/// Whether the filter blocks `url`.
pub open spec fn blocks(domains: Seq<Seq<char>>, patterns: Seq<Seq<char>>, url: Seq<char>) -> bool {
    matches_domain(domains, url) || matches_pattern(patterns, url)
}

/// The prefix that marks a custom rule as a URL pattern.
pub open spec fn regex_prefix() -> Seq<char> {
    "regex:"@
}

/// The domain list after a custom rule is added: a rule without the pattern
/// prefix joins the list unless it is already there.
pub open spec fn domains_after_rule(domains: Seq<Seq<char>>, rule: Seq<char>) -> Seq<Seq<char>> {
    if starts_with_seq(rule, regex_prefix()) || domains.contains(rule) {
        domains
    } else {
        domains.push(rule)
    }
}

/// The pattern list after a custom rule is added: a rule with the pattern
/// prefix joins the list without the prefix.
pub open spec fn patterns_after_rule(patterns: Seq<Seq<char>>, rule: Seq<char>) -> Seq<Seq<char>> {
    if starts_with_seq(rule, regex_prefix()) {
        patterns.push(rule.subrange(6, rule.len() as int))
    } else {
        patterns
    }
}

/// Blocks requests to known ad and tracker hosts and to URLs that match
/// ad-like patterns, and counts what it blocks.
pub struct AdBlockFilter {
    blocklist: Vec<String>,
    regex_filters: Vec<String>,
    stats: BlockStats,
}

impl AdBlockFilter {
    /// The listed domains, each taken as a character sequence.
    pub closed spec fn domains(self) -> Seq<Seq<char>> {
        self.blocklist@.map_values(|s: String| s@)
    }

    /// The URL patterns, each taken as a character sequence.
    pub closed spec fn patterns(self) -> Seq<Seq<char>> {
        self.regex_filters@.map_values(|s: String| s@)
    }

    /// The counters.
    pub closed spec fn counters(self) -> BlockStats {
        self.stats
    }

    /// A filter holding the default rules and zero counters.
    pub fn new() -> (r: Self)
        ensures
            r.domains() == default_domains(),
            r.patterns() == default_patterns(),
            r.counters() == (BlockStats { ads_blocked: 0, trackers_blocked: 0, bytes_saved: 0 }),
    {
        let mut filter = AdBlockFilter {
            blocklist: Vec::new(),
            regex_filters: Vec::new(),
            stats: BlockStats::default(),
        };
        filter.load_default_rules();
        filter
    }

    /// Adds the common ad and tracker domains and the default URL patterns.
    fn load_default_rules(&mut self)
        requires
            old(self).blocklist@.len() == 0,
            old(self).regex_filters@.len() == 0,
        ensures
            final(self).domains() == default_domains(),
            final(self).patterns() == default_patterns(),
            final(self).stats == old(self).stats,
    {
        self.blocklist.push(String::from_str("doubleclick.net"));
        self.blocklist.push(String::from_str("googleadservices.com"));
        self.blocklist.push(String::from_str("googlesyndication.com"));
        self.blocklist.push(String::from_str("facebook.com/tr"));
        self.blocklist.push(String::from_str("analytics.google.com"));
        self.blocklist.push(String::from_str("stats.g.doubleclick.net"));
        self.blocklist.push(String::from_str("adservice.google.com"));
        self.blocklist.push(String::from_str("tpc.googlesyndication.com"));
        self.blocklist.push(String::from_str("www.googletagservices.com"));
        self.blocklist.push(String::from_str("connect.facebook.net"));
        self.regex_filters.push(String::from_str(".*/ad[s]?/.*"));
        self.regex_filters.push(String::from_str(".*banner.*\\.(gif|jpg|png).*"));
        self.regex_filters.push(String::from_str(".*tracking.*pixel.*"));
        self.regex_filters.push(String::from_str(".*analytics\\.js.*"));
        assert(self.domains() =~= default_domains());
        assert(self.patterns() =~= default_patterns());
    }

    /// Whether `url` is blocked: a listed domain occurs in it (counted as an
    /// ad) or else a pattern, as a regular expression, matches it (counted as
    /// a tracker).
    pub fn should_block(&mut self, url: &str) -> (b: bool)
        requires
            old(self).counters().ads_blocked < u64::MAX,
            old(self).counters().trackers_blocked < u64::MAX,
        ensures
            b == blocks(old(self).domains(), old(self).patterns(), url@),
            final(self).domains() == old(self).domains(),
            final(self).patterns() == old(self).patterns(),
            final(self).counters().bytes_saved == old(self).counters().bytes_saved,
            final(self).counters().ads_blocked == old(self).counters().ads_blocked + (if matches_domain(
                old(self).domains(),
                url@,
            ) {
                1int
            } else {
                0int
            }),
            final(self).counters().trackers_blocked == old(self).counters().trackers_blocked + (
            if !matches_domain(old(self).domains(), url@) && matches_pattern(
                old(self).patterns(),
                url@,
            ) {
                1int
            } else {
                0int
            }),
    {
        let ghost ds = self.domains();
        let ghost ps = self.patterns();
        let mut i: usize = 0;
        while i < self.blocklist.len()
            invariant
                ds == self.domains(),
                ps == self.patterns(),
                self.stats == old(self).stats,
                self.blocklist@ == old(self).blocklist@,
                self.regex_filters@ == old(self).regex_filters@,
                self.stats.ads_blocked < u64::MAX,
                i <= self.blocklist@.len(),
                forall|k: int| 0 <= k < i ==> !contains_seq(url@, #[trigger] ds[k]),
            decreases self.blocklist.len() - i,
        {
            if str_contains(url, self.blocklist[i].as_str()) {
                assert(contains_seq(url@, ds[i as int]));
                self.stats.ads_blocked = self.stats.ads_blocked + 1;
                return true;
            }
            i = i + 1;
        }
        let mut j: usize = 0;
        while j < self.regex_filters.len()
            invariant
                ds == self.domains(),
                ps == self.patterns(),
                self.stats == old(self).stats,
                self.blocklist@ == old(self).blocklist@,
                self.regex_filters@ == old(self).regex_filters@,
                self.stats.trackers_blocked < u64::MAX,
                !matches_domain(ds, url@),
                j <= self.regex_filters@.len(),
                forall|k: int| 0 <= k < j ==> !pattern_hits(#[trigger] ps[k], url@),
            decreases self.regex_filters.len() - j,
        {
            let hit = match compile_pattern(self.regex_filters[j].as_str()) {
                Some(re) => pattern_is_match(&re, url),
                None => false,
            };
            if hit {
                assert(pattern_hits(ps[j as int], url@));
                self.stats.trackers_blocked = self.stats.trackers_blocked + 1;
                return true;
            }
            assert(!pattern_hits(ps[j as int], url@));
            j = j + 1;
        }
        false
    }

    /// A copy of the counters.
    pub fn get_stats(&self) -> (r: BlockStats)
        ensures
            r == self.counters(),
    {
        self.stats.clone()
    }

    /// Adds a rule: `regex:<pattern>` adds a URL pattern, anything else adds a
    /// domain to the list (once).
    pub fn add_custom_rule(&mut self, rule: String)
        ensures
            final(self).domains() == domains_after_rule(old(self).domains(), rule@),
            final(self).patterns() == patterns_after_rule(old(self).patterns(), rule@),
            final(self).counters() == old(self).counters(),
    {
        let prefix = "regex:";
        proof {
            reveal_strlit("regex:");
        }
        if str_starts_with(rule.as_str(), prefix) {
            let rv = chars_of(rule.as_str());
            let pattern = string_of_range(&rv, 6, rv.len());
            self.regex_filters.push(pattern);
            assert(self.patterns() =~= patterns_after_rule(old(self).patterns(), rule@));
        } else {
            let ghost ds = self.domains();
            let mut i: usize = 0;
            let mut present = false;
            while i < self.blocklist.len()
                invariant
                    ds == self.domains(),
                    self.stats == old(self).stats,
                    self.blocklist@ == old(self).blocklist@,
                    self.regex_filters@ == old(self).regex_filters@,
                    i <= self.blocklist@.len(),
                    !present ==> forall|k: int| 0 <= k < i ==> ds[k] != rule@,
                    present ==> ds.contains(rule@),
                decreases self.blocklist.len() - i,
            {
                if str_eq(self.blocklist[i].as_str(), rule.as_str()) {
                    present = true;
                    assert(ds[i as int] == rule@);
                }
                i = i + 1;
            }
            if !present {
                assert(!ds.contains(rule@));
                self.blocklist.push(rule);
                assert(self.domains() =~= ds.push(rule@));
            }
        }
    }
}

/// The domains blocked by default.
pub open spec fn default_domains() -> Seq<Seq<char>> {
    seq![
        "doubleclick.net"@,
        "googleadservices.com"@,
        "googlesyndication.com"@,
        "facebook.com/tr"@,
        "analytics.google.com"@,
        "stats.g.doubleclick.net"@,
        "adservice.google.com"@,
        "tpc.googlesyndication.com"@,
        "www.googletagservices.com"@,
        "connect.facebook.net"@,
    ]
}

/// The URL patterns blocked by default.
pub open spec fn default_patterns() -> Seq<Seq<char>> {
    seq![
        ".*/ad[s]?/.*"@,
        ".*banner.*\\.(gif|jpg|png).*"@,
        ".*tracking.*pixel.*"@,
        ".*analytics\\.js.*"@,
    ]
}

/// A URL that contains a domain added as a custom rule is blocked.
pub proof fn law_custom_domain_blocks(
    domains: Seq<Seq<char>>,
    patterns: Seq<Seq<char>>,
    rule: Seq<char>,
    url: Seq<char>,
)
    requires
        !starts_with_seq(rule, regex_prefix()),
        contains_seq(url, rule),
    ensures
        blocks(domains_after_rule(domains, rule), patterns_after_rule(patterns, rule), url),
{
    let d2 = domains_after_rule(domains, rule);
    if domains.contains(rule) {
        let k = choose|k: int| 0 <= k < domains.len() && domains[k] == rule;
        assert(contains_seq(url, d2[k]));
    } else {
        assert(d2[domains.len() as int] == rule);
    }
}

/// Adding rules never unblocks a URL.
pub proof fn law_rules_only_add(
    domains: Seq<Seq<char>>,
    patterns: Seq<Seq<char>>,
    rule: Seq<char>,
    url: Seq<char>,
)
    requires
        blocks(domains, patterns, url),
    ensures
        blocks(domains_after_rule(domains, rule), patterns_after_rule(patterns, rule), url),
{
    let d2 = domains_after_rule(domains, rule);
    let p2 = patterns_after_rule(patterns, rule);
    if matches_domain(domains, url) {
        let k = choose|k: int| 0 <= k < domains.len() && contains_seq(url, #[trigger] domains[k]);
        assert(d2[k] == domains[k]);
    } else {
        let k = choose|k: int| 0 <= k < patterns.len() && pattern_hits(#[trigger] patterns[k], url);
        assert(p2[k] == patterns[k]);
    }
}

} // verus!
