//! Developer tools: find-in-page with match navigation, and the routing of
//! DevTools protocol messages to their replies.
use vstd::prelude::*;
use crate::text::{lowercase_of, to_lowercase};
use vstd::utf8::{encode_utf8, is_char_boundary};
use vstd::string::StringSliceAdditionalSpecFns;

verus! {

/// Protocol messages for DevTools communication.
pub enum DevToolsMessage {
    DomEnable { id: u64 },
    DomGetDocument { id: u64, depth: i32 },
    DomInspectNode { id: u64, node_id: u64 },
    RuntimeEvaluate { id: u64, expression: String },
    NetworkEnable { id: u64 },
    ConsoleEnable { id: u64 },
}

/// A protocol-level error reported back to the DevTools client.
pub struct DevToolsError {
    pub code: i32,
    pub message: String,
}

/// What a DevTools session answers to a message: the request id it answers
/// and the kind of payload it carries.
pub enum DevToolsReply {
    /// An empty JSON object as result.
    Empty { id: u64 },
    /// The root DOM node (node id 1), if the session holds one.
    Document { id: u64 },
    /// The fixed result of a `Runtime.evaluate` request.
    Evaluation { id: u64 },
    /// No result, only an error.
    Failure { id: u64, error: DevToolsError },
}

/// The node id of the document root in a session's DOM tree.
pub const ROOT_NODE_ID: u64 = 1;

/// The JSON-RPC code for an unknown method.
pub const METHOD_NOT_FOUND: i32 = -32601;

/// Decides how a DevTools session answers `msg`: `DOM.enable` with an empty
/// result, `DOM.getDocument` with the root node, `Runtime.evaluate` with the
/// fixed evaluation result, and every other method with the error
/// "Method not found" (code -32601) under request id 0.
pub fn route_message(msg: &DevToolsMessage) -> (r: DevToolsReply)
    ensures
        match *msg {
            DevToolsMessage::DomEnable { id } => r matches DevToolsReply::Empty { id: rid } && rid
                == id,
            DevToolsMessage::DomGetDocument { id, .. } => r matches DevToolsReply::Document {
                id: rid,
            } && rid == id,
            DevToolsMessage::RuntimeEvaluate { id, .. } => r matches DevToolsReply::Evaluation {
                id: rid,
            } && rid == id,
            _ => r matches DevToolsReply::Failure { id: rid, error } && rid == 0 && error.code
                == METHOD_NOT_FOUND && error.message@ == "Method not found"@,
        },
{
    match msg {
        DevToolsMessage::DomEnable { id } => DevToolsReply::Empty { id: *id },
        DevToolsMessage::DomGetDocument { id, .. } => DevToolsReply::Document { id: *id },
        DevToolsMessage::RuntimeEvaluate { id, .. } => DevToolsReply::Evaluation { id: *id },
        _ => DevToolsReply::Failure {
            id: 0,
            error: DevToolsError {
                code: METHOD_NOT_FOUND,
                message: String::from_str("Method not found"),
            },
        },
    }
}

/// Severity of a console message.
pub enum ConsoleLevel {
    Log,
    Warning,
    Error,
    Info,
    Debug,
}

/// One message in the DevTools console.
pub struct ConsoleMessage {
    pub level: ConsoleLevel,
    pub text: String,
    pub timestamp: u64,
    pub source: String,
}

/// One occurrence of the search query in the page text.
pub struct FindMatch {
    pub text: String,
    pub start_offset: usize,
    pub end_offset: usize,
}

impl Clone for FindMatch {
    fn clone(&self) -> (r: Self)
        ensures
            r == *self,
    {
        FindMatch { text: self.text.clone(), start_offset: self.start_offset, end_offset: self.end_offset }
    }
}

/// `t` occurs in `s` starting at index `i`.
pub open spec fn occurs_in<T>(s: Seq<T>, t: Seq<T>, i: int) -> bool {
    0 <= i && i + t.len() <= s.len() && s.subrange(i, i + t.len()) == t
}

/// Start positions of all (possibly overlapping) occurrences of `t` in `s`
/// at or after `i`, in increasing order.
pub open spec fn positions_from<T>(s: Seq<T>, t: Seq<T>, i: int) -> Seq<int>
    decreases s.len() + 1 - i,
{
    if i < 0 || i + t.len() > s.len() {
        Seq::empty()
    } else if occurs_in(s, t, i) {
        seq![i] + positions_from(s, t, i + 1)
    } else {
        positions_from(s, t, i + 1)
    }
}

/// Start positions of all occurrences of `t` in `s`, in increasing order.
pub open spec fn match_positions<T>(s: Seq<T>, t: Seq<T>) -> Seq<int> {
    positions_from(s, t, 0)
}

/// The text a search scans: the text itself, lowercased unless the search
/// is case sensitive.
pub open spec fn searched_text(s: Seq<char>, case_sensitive: bool) -> Seq<char> {
    if case_sensitive {
        s
    } else {
        lowercase_of(s)
    }
}

/// The UTF-8 bytes a search scans.
pub open spec fn search_bytes(s: Seq<char>, case_sensitive: bool) -> Seq<u8> {
    encode_utf8(searched_text(s, case_sensitive))
}

/// The byte positions at which a search finds the query in the content.
pub open spec fn find_positions(content: Seq<char>, query: Seq<char>, case_sensitive: bool) -> Seq<int> {
    match_positions(search_bytes(content, case_sensitive), search_bytes(query, case_sensitive))
}

/// Whether a scan of the text `searched` for `pattern` runs to its end,
/// cutting matches of `n` bytes out of `content`: the pattern is not empty;
/// when it is found, its first byte is a whole character, so that the scan
/// can step one byte past a match; and every match position, with `n`,
/// cuts the content at character boundaries.
pub open spec fn scan_completes(content: Seq<char>, n: int, searched: Seq<char>, pattern: Seq<char>) -> bool {
    &&& encode_utf8(pattern).len() > 0
    &&& scan_positions(searched, pattern).len() > 0 ==> encode_utf8(pattern)[0] < 0x80
    &&& forall|k: int|
        0 <= k < scan_positions(searched, pattern).len() ==> cuts_at(
            encode_utf8(content),
            #[trigger] scan_positions(searched, pattern)[k],
            n,
        )
}

/// The byte positions at which `pattern` occurs in `searched`.
pub open spec fn scan_positions(searched: Seq<char>, pattern: Seq<char>) -> Seq<int> {
    match_positions(encode_utf8(searched), encode_utf8(pattern))
}

/// Bytes `p .. p + n` lie inside `cb` and both ends are character boundaries.
pub open spec fn cuts_at(cb: Seq<u8>, p: int, n: int) -> bool {
    p + n <= cb.len() && is_char_boundary(cb, p) && is_char_boundary(cb, p + n)
}

/// Whether a search runs to its end (see `scan_completes`).
pub open spec fn search_completes(content: Seq<char>, query: Seq<char>, case_sensitive: bool) -> bool {
    scan_completes(
        content,
        encode_utf8(query).len() as int,
        searched_text(content, case_sensitive),
        searched_text(query, case_sensitive),
    )
}

/// `found` records the matches of `n` bytes of `content` at positions `pos`,
/// in order.
pub open spec fn records_matches(found: Seq<FindMatch>, content: Seq<char>, pos: Seq<int>, n: int) -> bool {
    &&& found.len() == pos.len()
    &&& forall|k: int| 0 <= k < pos.len() ==> is_match_at(#[trigger] found[k], encode_utf8(content), pos[k], n)
}

/// `m` is the match of `len` bytes at byte position `p` of `content_bytes`.
pub open spec fn is_match_at(m: FindMatch, content_bytes: Seq<u8>, p: int, len: int) -> bool {
    &&& m.start_offset == p
    &&& m.end_offset == p + len
    &&& encode_utf8(m.text@) == content_bytes.subrange(p, p + len)
}

/// The match index that `next_match` moves to.
pub open spec fn next_index(current: Option<usize>, len: nat) -> int {
    match current {
        Some(i) => (i + 1) % (len as int),
        None => 0,
    }
}

/// The match index that `previous_match` moves to.
pub open spec fn previous_index(current: Option<usize>, len: nat) -> int {
    match current {
        Some(i) => if i == 0 {
            len - 1
        } else {
            i - 1
        },
        None => 0,
    }
}

/// Whether `t` occurs in `s` at index `i`.
fn bytes_occur_at(s: &Vec<u8>, t: &Vec<u8>, i: usize) -> (b: bool)
    ensures
        b == occurs_in(s@, t@, i as int),
{
    if t.len() > s.len() || i > s.len() - t.len() {
        return false;
    }
    let mut k: usize = 0;
    while k < t.len()
        invariant
            i + t.len() <= s.len(),
            k <= t.len(),
            forall|j: int| 0 <= j < k ==> s@[i + j] == t@[j],
        decreases t.len() - k,
    {
        if s[i + k] != t[k] {
            assert(s@.subrange(i as int, i + t@.len())[k as int] != t@[k as int]);
            return false;
        }
        k = k + 1;
    }
    assert(s@.subrange(i as int, i + t@.len()) =~= t@);
    true
}

/// The text of `content` from byte `at`, `len` bytes long; both ends are
/// character boundaries.
fn cut(content: &str, at: usize, len: usize) -> (r: String)
    requires
        vstd::utf8::valid_utf8(content.spec_bytes()),
        at + len <= content.spec_bytes().len(),
        is_char_boundary(content.spec_bytes(), at as int),
        is_char_boundary(content.spec_bytes(), at + len),
    ensures
        encode_utf8(r@) == content.spec_bytes().subrange(at as int, at + len),
{
    let ghost cb = content.spec_bytes();
    let (_, rest) = content.split_at(at);
    let ghost rb = rest.spec_bytes();
    proof {
        vstd::utf8::valid_utf8_split(cb, at as int);
        assert(rb =~= cb.subrange(at as int, cb.len() as int));
        if len == rb.len() {
            vstd::utf8::is_char_boundary_start_end_of_seq(rb);
        } else {
            vstd::utf8::is_char_boundary_iff_not_is_continuation_byte(cb, at + len);
            vstd::utf8::is_char_boundary_iff_not_is_continuation_byte(rb, len as int);
            assert(rb[len as int] == cb[at + len]);
        }
    }
    let (piece, _) = rest.split_at(len);
    let r = piece.to_owned();
    assert(piece.spec_bytes() =~= cb.subrange(at as int, at + len));
    r
}

/// Whether a scan of `searched` for `pattern`, cutting `n`-byte matches out
/// of `content`, runs to its end.
fn scan_can_complete(content: &str, n: usize, searched: &str, pattern: &str) -> (b: bool)
    ensures
        b == scan_completes(content@, n as int, searched@, pattern@),
{
    let sb = vstd::slice::slice_to_vec(searched.as_bytes());
    let qb = vstd::slice::slice_to_vec(pattern.as_bytes());
    let cn = content.as_bytes().len();
    let ghost s = encode_utf8(searched@);
    let ghost t = encode_utf8(pattern@);
    let ghost cb = encode_utf8(content@);
    let ghost all = scan_positions(searched@, pattern@);
    let len = sb.len();
    let m = qb.len();
    if m == 0 {
        return false;
    }
    if m > len {
        assert(all =~= Seq::<int>::empty());
        return true;
    }
    let mut i: usize = 0;
    let ghost mut pre: Seq<int> = Seq::empty();
    while i <= len - m
        invariant
            len == s.len(),
            m == t.len(),
            sb@ == s,
            qb@ == t,
            all == match_positions(s, t),
            all == scan_positions(searched@, pattern@),
            t == encode_utf8(pattern@),
            cb == encode_utf8(content@),
            content.spec_bytes() == cb,
            cn == cb.len(),
            0 < m <= len,
            i <= len - m + 1,
            pre + positions_from(s, t, i as int) == all,
            pre.len() > 0 ==> t[0] < 0x80,
            forall|k: int| 0 <= k < pre.len() ==> #[trigger] cuts_at(cb, pre[k], n as int),
        decreases len - m + 1 - i,
    {
        if bytes_occur_at(&sb, &qb, i) {
            proof {
                assert(all[pre.len() as int] == i);
            }
            let ok = qb[0] < 0x80 && n <= cn && i <= cn - n && content.is_char_boundary(i)
                && content.is_char_boundary(i + n);
            if !ok {
                proof {
                    let k = pre.len() as int;
                    assert(0 <= k < all.len());
                    if t[0] < 0x80 {
                        assert(!cuts_at(encode_utf8(content@), all[k], n as int));
                    }
                    assert(!scan_completes(content@, n as int, searched@, pattern@));
                }
                return false;
            }
            proof {
                assert(pre.push(i as int) + positions_from(s, t, i + 1) =~= pre + (seq![i as int]
                    + positions_from(s, t, i + 1)));
                pre = pre.push(i as int);
            }
        }
        i = i + 1;
    }
    proof {
        assert(positions_from(s, t, i as int) =~= Seq::<int>::empty());
        assert(pre =~= all);
    }
    true
}

/// Find-in-page: the matches of the last search and the selected one.
pub struct FindInPage {
    matches: Vec<FindMatch>,
    current_index: Option<usize>,
}

impl FindInPage {
    #[verifier::type_invariant]
    spec fn inv(self) -> bool {
        match self.current_index {
            Some(i) => i < self.matches.len(),
            None => true,
        }
    }

    /// The matches of the last search, in document order.
    pub closed spec fn found(self) -> Seq<FindMatch> {
        self.matches@
    }

    /// The index of the selected match, if any.
    pub closed spec fn selected(self) -> Option<usize> {
        self.current_index
    }

    /// An empty search with nothing selected.
    pub fn new() -> (r: Self)
        ensures
            r.found() == Seq::<FindMatch>::empty(),
            r.selected() == None::<usize>,
    {
        FindInPage { matches: Vec::new(), current_index: None }
    }

    /// Searches `content` for `query` and records every occurrence, overlapping
    /// ones included, in document order; nothing is selected afterwards.
    /// Unless `case_sensitive`, both are lowercased before they are compared.
    /// Offsets are byte offsets into `content`. Returns the number of matches.
    pub fn find(&mut self, content: &str, query: &str, case_sensitive: bool) -> (count: usize)
        requires
            search_completes(content@, query@, case_sensitive),
        ensures
            count == find_positions(content@, query@, case_sensitive).len(),
            records_matches(
                final(self).found(),
                content@,
                find_positions(content@, query@, case_sensitive),
                encode_utf8(query@).len() as int,
            ),
            final(self).selected() == None::<usize>,
    {
        let searched_content = if case_sensitive {
            content.to_owned()
        } else {
            to_lowercase(content)
        };
        let searched_query = if case_sensitive {
            query.to_owned()
        } else {
            to_lowercase(query)
        };
        self.find_in_searched(content, query, searched_content.as_str(), searched_query.as_str())
    }

    /// Searches as `find` does, when the search can run to its end; returns
    /// `None`, with nothing changed, on the inputs on which `find` cannot
    /// (see `search_completes`).
    pub fn try_find(&mut self, content: &str, query: &str, case_sensitive: bool) -> (r: Option<usize>)
        ensures
            search_completes(content@, query@, case_sensitive) ==> ({
                &&& r == Some(find_positions(content@, query@, case_sensitive).len() as usize)
                &&& records_matches(
                    final(self).found(),
                    content@,
                    find_positions(content@, query@, case_sensitive),
                    encode_utf8(query@).len() as int,
                )
                &&& final(self).selected() == None::<usize>
            }),
            !search_completes(content@, query@, case_sensitive) ==> r is None && final(self).found() == old(
                self,
            ).found() && final(self).selected() == old(self).selected(),
    {
        let searched_content = if case_sensitive {
            content.to_owned()
        } else {
            to_lowercase(content)
        };
        let searched_query = if case_sensitive {
            query.to_owned()
        } else {
            to_lowercase(query)
        };
        let qn = query.as_bytes().len();
        if scan_can_complete(content, qn, searched_content.as_str(), searched_query.as_str()) {
            Some(self.find_in_searched(content, query, searched_content.as_str(), searched_query.as_str()))
        } else {
            None
        }
    }

    /// Records every occurrence of `searched_query` in `searched_content`
    /// (the query and the content as the search compares them), overlapping
    /// ones included, in order, each as the text of `content` at its byte
    /// offsets, as long as `query`; nothing is selected afterwards. Returns
    /// the number of matches.
    pub fn find_in_searched(&mut self, content: &str, query: &str, searched_content: &str, searched_query: &str) -> (count: usize)
        requires
            scan_completes(content@, encode_utf8(query@).len() as int, searched_content@, searched_query@),
        ensures
            ({
                let pos = match_positions(encode_utf8(searched_content@), encode_utf8(searched_query@));
                &&& count == pos.len()
                &&& records_matches(final(self).found(), content@, pos, encode_utf8(query@).len() as int)
            }),
            final(self).selected() == None::<usize>,
    {
        self.current_index = None;
        self.matches = Vec::new();
        let sb = vstd::slice::slice_to_vec(searched_content.as_bytes());
        let qb = vstd::slice::slice_to_vec(searched_query.as_bytes());
        let qn = query.as_bytes().len();
        let cn = content.as_bytes().len();
        let ghost s = encode_utf8(searched_content@);
        let ghost t = encode_utf8(searched_query@);
        let ghost cb = encode_utf8(content@);
        let ghost all = scan_positions(searched_content@, searched_query@);
        proof {
            vstd::utf8::encode_utf8_valid_utf8(content@);
        }
        let n = sb.len();
        let m = qb.len();
        let mut found: Vec<FindMatch> = Vec::new();
        let ghost mut pos: Seq<int> = Seq::empty();
        if m <= n {
            let mut i: usize = 0;
            while i <= n - m
                invariant
                    n == s.len(),
                    m == t.len(),
                    sb@ == s,
                    qb@ == t,
                    all == match_positions(s, t),
                    all == scan_positions(searched_content@, searched_query@),
                    cb == encode_utf8(content@),
                    content.spec_bytes() == cb,
                    vstd::utf8::valid_utf8(cb),
                    qn == encode_utf8(query@).len(),
                    cn == cb.len(),
                    scan_completes(content@, qn as int, searched_content@, searched_query@),
                    m > 0,
                    m <= n,
                    i <= n - m + 1,
                    pos + positions_from(s, t, i as int) == all,
                    found@.len() == pos.len(),
                    forall|k: int| 0 <= k < pos.len() ==> is_match_at(#[trigger] found@[k], cb, pos[k], qn as int),
                decreases n - m + 1 - i,
            {
                let hit = bytes_occur_at(&sb, &qb, i);
                if hit {
                    proof {
                        let k = pos.len() as int;
                        assert(all[k] == i);
                        assert(0 <= k < all.len());
                        assert(cuts_at(encode_utf8(content@), all[k], qn as int));
                    }
                    let text = cut(content, i, qn);
                    found.push(FindMatch { text, start_offset: i, end_offset: i + qn });
                    proof {
                        assert(pos.push(i as int) + positions_from(s, t, i + 1) =~= pos + (seq![
                            i as int,
                        ] + positions_from(s, t, i + 1)));
                        pos = pos.push(i as int);
                    }
                }
                i = i + 1;
            }
            proof {
                assert(positions_from(s, t, i as int) =~= Seq::<int>::empty());
                assert(pos =~= all);
            }
        } else {
            proof {
                assert(match_positions(s, t) =~= Seq::<int>::empty());
            }
        }
        let count = found.len();
        self.matches = found;
        count
    }

    /// Selects the match after the selected one (wrapping around), or the
    /// first match when none is selected, and returns it; `None`, with
    /// nothing changed, when the last search found nothing.
    pub fn next_match(&mut self) -> (r: Option<&FindMatch>)
        ensures
            old(self).found().len() == 0 ==> r.is_none() && *final(self) == *old(self),
            old(self).found().len() > 0 ==> {
                let idx = next_index(old(self).selected(), old(self).found().len());
                &&& final(self).found() == old(self).found()
                &&& final(self).selected() == Some(idx as usize)
                &&& r == Some(&old(self).found()[idx])
            },
    {
        proof {
            use_type_invariant(&*self);
        }
        if self.matches.len() == 0 {
            return None;
        }
        let len = self.matches.len();
        let next_idx = match self.current_index {
            Some(idx) => (idx + 1) % len,
            None => 0,
        };
        self.current_index = Some(next_idx);
        Some(&self.matches[next_idx])
    }

    /// Selects the match before the selected one (wrapping around), or the
    /// first match when none is selected, and returns it; `None`, with
    /// nothing changed, when the last search found nothing.
    pub fn previous_match(&mut self) -> (r: Option<&FindMatch>)
        ensures
            old(self).found().len() == 0 ==> r.is_none() && *final(self) == *old(self),
            old(self).found().len() > 0 ==> {
                let idx = previous_index(old(self).selected(), old(self).found().len());
                &&& final(self).found() == old(self).found()
                &&& final(self).selected() == Some(idx as usize)
                &&& r == Some(&old(self).found()[idx])
            },
    {
        proof {
            use_type_invariant(&*self);
        }
        if self.matches.len() == 0 {
            return None;
        }
        let len = self.matches.len();
        let prev_idx = match self.current_index {
            Some(idx) => if idx == 0 {
                len - 1
            } else {
                idx - 1
            },
            None => 0,
        };
        self.current_index = Some(prev_idx);
        Some(&self.matches[prev_idx])
    }
}

/// Stepping to the next match and then back to the previous one returns to
/// the match that was selected before.
pub proof fn law_next_then_previous(i: usize, len: nat)
    requires
        i < len <= usize::MAX,
    ensures
        previous_index(Some(next_index(Some(i), len) as usize), len) == i,
{
    if i + 1 < len {
        vstd::arithmetic::div_mod::lemma_small_mod((i + 1) as nat, len);
    } else {
        vstd::arithmetic::div_mod::lemma_mod_self_0(len as int);
    }
}

/// Stepping to the previous match and then to the next one returns to the
/// match that was selected before.
pub proof fn law_previous_then_next(i: usize, len: nat)
    requires
        i < len <= usize::MAX,
    ensures
        next_index(Some(previous_index(Some(i), len) as usize), len) == i,
{
    if i == 0 {
        vstd::arithmetic::div_mod::lemma_mod_self_0(len as int);
    } else {
        vstd::arithmetic::div_mod::lemma_small_mod(i as nat, len);
    }
}

/// A search records no more matches than a vector holds.
pub proof fn lemma_found_fits(f: FindInPage)
    ensures
        f.found().len() <= usize::MAX,
{
    vstd::std_specs::vec::axiom_spec_len(&f.matches);
}

/// From a selected match, stepping on selects the following match (the
/// first after the last), and stepping back the preceding one (the last
/// before the first).
pub proof fn law_steps_move_by_one(i: usize, len: nat)
    requires
        i < len,
    ensures
        i + 1 < len ==> next_index(Some(i), len) == i + 1,
        i + 1 == len ==> next_index(Some(i), len) == 0,
        i > 0 ==> previous_index(Some(i), len) == i - 1,
        i == 0 ==> previous_index(Some(i), len) == len - 1,
{
    if i + 1 < len {
        vstd::arithmetic::div_mod::lemma_small_mod((i + 1) as nat, len);
    } else {
        vstd::arithmetic::div_mod::lemma_mod_self_0(len as int);
    }
}

/// With no match selected, stepping back and stepping on both select the
/// first match found.
pub proof fn law_first_step_selects_first_match(len: nat)
    requires
        len > 0,
    ensures
        previous_index(None, len) == 0,
        next_index(None, len) == 0,
        previous_index(None, len) == next_index(None, len),
{
}

/// On a finder with a selected match, stepping to the next match and back,
/// or back and then on, returns to the selected match.
pub proof fn law_navigation_returns(f: FindInPage, i: usize)
    requires
        f.selected() == Some(i),
        i < f.found().len(),
    ensures
        previous_index(Some(next_index(f.selected(), f.found().len()) as usize), f.found().len()) == i,
        next_index(Some(previous_index(f.selected(), f.found().len()) as usize), f.found().len()) == i,
{
    lemma_found_fits(f);
    law_next_then_previous(i, f.found().len());
    law_previous_then_next(i, f.found().len());
}

/// Every match that a search records is a real occurrence of the query.
pub proof fn law_positions_are_occurrences<T>(s: Seq<T>, t: Seq<T>, i: int, k: int)
    requires
        0 <= i,
        0 <= k < positions_from(s, t, i).len(),
    ensures
        occurs_in(s, t, positions_from(s, t, i)[k]),
        i <= positions_from(s, t, i)[k],
    decreases s.len() + 1 - i,
{
    if i + t.len() > s.len() {
    } else if occurs_in(s, t, i) {
        if k > 0 {
            law_positions_are_occurrences(s, t, i + 1, k - 1);
        }
    } else {
        law_positions_are_occurrences(s, t, i + 1, k);
    }
}

/// No occurrence of the query is missed by a search.
pub proof fn law_occurrences_are_found<T>(s: Seq<T>, t: Seq<T>, i: int, p: int)
    requires
        0 <= i <= p,
        occurs_in(s, t, p),
    ensures
        positions_from(s, t, i).contains(p),
    decreases p - i,
{
    if i == p {
        assert(positions_from(s, t, i)[0] == p);
    } else if occurs_in(s, t, i) {
        law_occurrences_are_found(s, t, i + 1, p);
        let r = positions_from(s, t, i + 1);
        let k = choose|k: int| 0 <= k < r.len() && r[k] == p;
        assert((seq![i] + r)[k + 1] == p);
    } else {
        law_occurrences_are_found(s, t, i + 1, p);
    }
}

} // verus!
