//! Browsing data: history, bookmarks, cookies and saved sessions.
use vstd::prelude::*;
use crate::seqs::{keep, lemma_keep_step, lemma_prefix_push, prefix};
use crate::text::{contains_seq, str_contains, str_eq};

verus! {

/// The result type of the data store; the error carries a message.
pub type Result<T> = core::result::Result<T, String>;

#[verifier::external_type_specification]
#[verifier::external_body]
pub struct ExPathBuf(std::path::PathBuf);

/// One visit to a page.
pub struct HistoryEntry {
    pub id: i64,
    pub url: String,
    pub title: String,
    pub timestamp: u64,
    pub visit_count: u32,
}

impl Clone for HistoryEntry {
    fn clone(&self) -> (r: Self)
        ensures
            r == *self,
    {
        HistoryEntry {
            id: self.id,
            url: self.url.clone(),
            title: self.title.clone(),
            timestamp: self.timestamp,
            visit_count: self.visit_count,
        }
    }
}

/// A saved link, filed in a folder.
pub struct Bookmark {
    pub id: i64,
    pub url: String,
    pub title: String,
    pub folder: String,
    pub position: i32,
    pub date_added: u64,
}

impl Clone for Bookmark {
    fn clone(&self) -> (r: Self)
        ensures
            r == *self,
    {
        Bookmark {
            id: self.id,
            url: self.url.clone(),
            title: self.title.clone(),
            folder: self.folder.clone(),
            position: self.position,
            date_added: self.date_added,
        }
    }
}

/// A cookie stored for a domain.
pub struct Cookie {
    pub id: i64,
    pub name: String,
    pub value: String,
    pub domain: String,
    pub path: String,
    pub expires: Option<u64>,
    pub secure: bool,
    pub httponly: bool,
}

impl Clone for Cookie {
    fn clone(&self) -> (r: Self)
        ensures
            r == *self,
    {
        Cookie {
            id: self.id,
            name: self.name.clone(),
            value: self.value.clone(),
            domain: self.domain.clone(),
            path: self.path.clone(),
            expires: self.expires,
            secure: self.secure,
            httponly: self.httponly,
        }
    }
}

/// The saved state of one browser window.
pub struct SessionData {
    pub id: i64,
    pub window_id: String,
    pub tabs_json: String,
    pub active_tab_index: i32,
    pub timestamp: u64,
}

impl Clone for SessionData {
    fn clone(&self) -> (r: Self)
        ensures
            r == *self,
    {
        SessionData {
            id: self.id,
            window_id: self.window_id.clone(),
            tabs_json: self.tabs_json.clone(),
            active_tab_index: self.active_tab_index,
            timestamp: self.timestamp,
        }
    }
}

/// The current time in whole seconds since the Unix epoch, read from the
/// system clock (`SystemTime::now`); 0 when the clock reads earlier than the
/// epoch. Nothing is promised of the value: it depends on the clock.
#[verifier::external_body]
pub(crate) fn now() -> (t: u64) {
    std::time::SystemTime::now().duration_since(std::time::UNIX_EPOCH).map(|d| d.as_secs()).unwrap_or(0)
}

/// The history entries that a search for `q` returns: those whose URL or title
/// contains `q`.
pub open spec fn history_hit(q: Seq<char>) -> spec_fn(HistoryEntry) -> bool {
    |e: HistoryEntry| contains_seq(e.url@, q) || contains_seq(e.title@, q)
}

/// The bookmarks listed for a folder filter: all of them, or those in the folder.
pub open spec fn in_folder(folder: Option<Seq<char>>) -> spec_fn(Bookmark) -> bool {
    |b: Bookmark|
        match folder {
            Some(f) => b.folder@ == f,
            None => true,
        }
}

/// The cookies returned for a domain: those whose domain contains it.
pub open spec fn for_domain(d: Seq<char>) -> spec_fn(Cookie) -> bool {
    |c: Cookie| contains_seq(c.domain@, d)
}

/// Index of the latest session saved for `w`, or -1.
pub open spec fn latest_session(s: Seq<SessionData>, w: Seq<char>) -> int
    decreases s.len(),
{
    if s.len() == 0 {
        -1
    } else if s.last().window_id@ == w {
        s.len() - 1
    } else {
        latest_session(s.drop_last(), w)
    }
}

/// The bookmark that adding `url` titled `title` to `folder` at
/// `date_added` makes, as the `n`-th bookmark (counting from 0): its id and
/// position are `n + 1`.
pub open spec fn new_bookmark(
    n: int,
    url: Seq<char>,
    title: Seq<char>,
    folder: Seq<char>,
    date_added: u64,
    b: Bookmark,
) -> bool {
    &&& b.id == n + 1
    &&& b.url@ == url
    &&& b.title@ == title
    &&& b.folder@ == folder
    &&& b.position == (b.id as i32)
    &&& b.date_added == date_added
}

/// `s` is the session that saving window `window_id` with `tabs_json` and
/// `active_tab_index` at `timestamp` records: it has id 1.
pub open spec fn saved_session(
    window_id: Seq<char>,
    tabs_json: Seq<char>,
    active_tab_index: i32,
    timestamp: u64,
    s: SessionData,
) -> bool {
    &&& s.id == 1
    &&& s.window_id@ == window_id
    &&& s.tabs_json@ == tabs_json
    &&& s.active_tab_index == active_tab_index
    &&& s.timestamp == timestamp
}

/// The history entry that a visit recorded at `timestamp` adds, as the
/// `n`-th entry (counting from 0).
pub open spec fn new_history_entry(n: int, url: Seq<char>, title: Seq<char>, timestamp: u64, e: HistoryEntry) -> bool {
    &&& e.id == n + 1
    &&& e.url@ == url
    &&& e.title@ == title
    &&& e.timestamp == timestamp
    &&& e.visit_count == 1
}

/// Browsing data held by the browser.
pub struct DatabaseManager {
    history: Vec<HistoryEntry>,
    bookmarks: Vec<Bookmark>,
    cookies: Vec<Cookie>,
    sessions: Vec<SessionData>,
}

impl DatabaseManager {
    /// The history entries, oldest first.
    pub closed spec fn history_log(self) -> Seq<HistoryEntry> {
        self.history@
    }

    /// The bookmarks, in the order they were added.
    pub closed spec fn bookmark_list(self) -> Seq<Bookmark> {
        self.bookmarks@
    }

    /// The cookies, in the order they were set.
    pub closed spec fn cookie_jar(self) -> Seq<Cookie> {
        self.cookies@
    }

    /// The saved sessions, in the order they were saved.
    pub closed spec fn session_log(self) -> Seq<SessionData> {
        self.sessions@
    }

    /// An empty store; the path names where it lives on disk and is not read.
    pub fn new(_db_path: std::path::PathBuf) -> (r: Result<Self>)
        ensures
            r matches Ok(db) && db.history_log().len() == 0 && db.bookmark_list().len() == 0
                && db.cookie_jar().len() == 0 && db.session_log().len() == 0,
    {
        Ok(DatabaseManager {
            history: Vec::new(),
            bookmarks: Vec::new(),
            cookies: Vec::new(),
            sessions: Vec::new(),
        })
    }

    /// Records a visit to `url` titled `title` at the current time, as a new
    /// entry numbered one past the entries recorded so far.
    pub fn add_history_entry(&mut self, url: &str, title: &str) -> (r: Result<()>)
        requires
            old(self).history_log().len() < i64::MAX,
        ensures
            r is Ok,
            final(self).history_log().len() == old(self).history_log().len() + 1,
            final(self).history_log().drop_last() == old(self).history_log(),
            new_history_entry(
                old(self).history_log().len() as int,
                url@,
                title@,
                final(self).history_log().last().timestamp,
                final(self).history_log().last(),
            ),
            final(self).bookmark_list() == old(self).bookmark_list(),
            final(self).cookie_jar() == old(self).cookie_jar(),
            final(self).session_log() == old(self).session_log(),
    {
        let timestamp = now();
        self.add_history_entry_at(url, title, timestamp)
    }

    /// Records a visit to `url` titled `title` at `timestamp`, as a new entry
    /// numbered one past the entries recorded so far.
    pub fn add_history_entry_at(&mut self, url: &str, title: &str, timestamp: u64) -> (r: Result<()>)
        requires
            old(self).history_log().len() < i64::MAX,
        ensures
            r is Ok,
            final(self).history_log().len() == old(self).history_log().len() + 1,
            final(self).history_log().drop_last() == old(self).history_log(),
            new_history_entry(
                old(self).history_log().len() as int,
                url@,
                title@,
                timestamp,
                final(self).history_log().last(),
            ),
            final(self).bookmark_list() == old(self).bookmark_list(),
            final(self).cookie_jar() == old(self).cookie_jar(),
            final(self).session_log() == old(self).session_log(),
    {
        let n = self.history.len();
        let id = n as i64 + 1;
        self.history.push(
            HistoryEntry {
                id,
                url: url.to_owned(),
                title: title.to_owned(),
                timestamp,
                visit_count: 1,
            },
        );
        assert(self.history@.drop_last() =~= old(self).history@);
        Ok(())
    }

    /// The first `limit` history entries, oldest first.
    pub fn get_history(&self, limit: usize) -> (r: Result<Vec<HistoryEntry>>)
        ensures
            r matches Ok(v) && v@ == prefix(self.history_log(), limit as int),
    {
        let mut out: Vec<HistoryEntry> = Vec::new();
        let mut i: usize = 0;
        while i < self.history.len() && i < limit
            invariant
                i <= self.history@.len(),
                i <= limit,
                out@ == self.history@.subrange(0, i as int),
            decreases self.history.len() - i,
        {
            out.push(self.history[i].clone());
            i = i + 1;
            assert(out@ =~= self.history@.subrange(0, i as int));
        }
        assert(out@ =~= prefix(self.history@, limit as int));
        Ok(out)
    }

    /// The first `limit` history entries whose URL or title contains `query`,
    /// oldest first.
    pub fn search_history(&self, query: &str, limit: usize) -> (r: Result<Vec<HistoryEntry>>)
        ensures
            r matches Ok(v) && v@ == prefix(keep(self.history_log(), history_hit(query@)), limit as int),
    {
        let mut out: Vec<HistoryEntry> = Vec::new();
        let mut i: usize = 0;
        let ghost p = history_hit(query@);
        let ghost h = self.history@;
        assert(h.subrange(0, 0) =~= Seq::<HistoryEntry>::empty());
        while i < self.history.len()
            invariant
                h == self.history@,
                p == history_hit(query@),
                i <= h.len(),
                out@ == prefix(keep(h.subrange(0, i as int), p), limit as int),
            decreases self.history.len() - i,
        {
            let e = &self.history[i];
            proof {
                lemma_keep_step(h, p, i as int);
                lemma_prefix_push(keep(h.subrange(0, i as int), p), h[i as int], limit as int);
                if keep(h.subrange(0, i as int), p).len() >= limit {
                    assert(prefix(keep(h.subrange(0, i as int), p), limit as int).len() == limit);
                } else {
                    assert(prefix(keep(h.subrange(0, i as int), p), limit as int) =~= keep(
                        h.subrange(0, i as int),
                        p,
                    ));
                }
            }
            let hit = str_contains(e.url.as_str(), query) || str_contains(e.title.as_str(), query);
            if hit && out.len() < limit {
                out.push(e.clone());
            }
            i = i + 1;
        }
        assert(h.subrange(0, h.len() as int) =~= h);
        Ok(out)
    }

    /// Removes every history entry.
    pub fn clear_history(&mut self) -> (r: Result<()>)
        ensures
            r is Ok,
            final(self).history_log().len() == 0,
            final(self).bookmark_list() == old(self).bookmark_list(),
            final(self).cookie_jar() == old(self).cookie_jar(),
            final(self).session_log() == old(self).session_log(),
    {
        self.history.clear();
        Ok(())
    }

    /// Adds a bookmark to `folder` at the current time and returns its id, one
    /// past the number of bookmarks added so far; its position is that id.
    pub fn add_bookmark(&mut self, url: &str, title: &str, folder: &str) -> (r: Result<i64>)
        requires
            old(self).bookmark_list().len() < i64::MAX,
        ensures
            r matches Ok(id) && id == old(self).bookmark_list().len() + 1,
            final(self).bookmark_list().len() == old(self).bookmark_list().len() + 1,
            final(self).bookmark_list().drop_last() == old(self).bookmark_list(),
            new_bookmark(
                old(self).bookmark_list().len() as int,
                url@,
                title@,
                folder@,
                final(self).bookmark_list().last().date_added,
                final(self).bookmark_list().last(),
            ),
            final(self).history_log() == old(self).history_log(),
            final(self).cookie_jar() == old(self).cookie_jar(),
            final(self).session_log() == old(self).session_log(),
    {
        let date_added = now();
        self.add_bookmark_at(url, title, folder, date_added)
    }

    /// Adds a bookmark to `folder`, added at `date_added`, and returns its id,
    /// one past the number of bookmarks added so far; its position is that id.
    pub fn add_bookmark_at(&mut self, url: &str, title: &str, folder: &str, date_added: u64) -> (r: Result<i64>)
        requires
            old(self).bookmark_list().len() < i64::MAX,
        ensures
            r matches Ok(id) && id == old(self).bookmark_list().len() + 1,
            final(self).bookmark_list().len() == old(self).bookmark_list().len() + 1,
            final(self).bookmark_list().drop_last() == old(self).bookmark_list(),
            new_bookmark(
                old(self).bookmark_list().len() as int,
                url@,
                title@,
                folder@,
                date_added,
                final(self).bookmark_list().last(),
            ),
            final(self).history_log() == old(self).history_log(),
            final(self).cookie_jar() == old(self).cookie_jar(),
            final(self).session_log() == old(self).session_log(),
    {
        let n = self.bookmarks.len();
        let id = n as i64 + 1;
        #[verifier::truncate]
        let position = id as i32;
        self.bookmarks.push(
            Bookmark {
                id,
                url: url.to_owned(),
                title: title.to_owned(),
                folder: folder.to_owned(),
                position,
                date_added,
            },
        );
        assert(self.bookmarks@.drop_last() =~= old(self).bookmarks@);
        Ok(id)
    }

    /// The bookmarks in `folder`, or all of them, in the order they were added.
    pub fn get_bookmarks(&self, folder: Option<&str>) -> (r: Result<Vec<Bookmark>>)
        ensures
            r matches Ok(v) && v@ == keep(
                self.bookmark_list(),
                in_folder(
                    match folder {
                        Some(f) => Some(f@),
                        None => None,
                    },
                ),
            ),
    {
        let ghost fv = match folder {
            Some(f) => Some(f@),
            None => None::<Seq<char>>,
        };
        let ghost p = in_folder(fv);
        let ghost h = self.bookmarks@;
        let mut out: Vec<Bookmark> = Vec::new();
        let mut i: usize = 0;
        assert(h.subrange(0, 0) =~= Seq::<Bookmark>::empty());
        while i < self.bookmarks.len()
            invariant
                h == self.bookmarks@,
                p == in_folder(fv),
                fv == match folder {
                    Some(f) => Some(f@),
                    None => None::<Seq<char>>,
                },
                i <= h.len(),
                out@ == keep(h.subrange(0, i as int), p),
            decreases self.bookmarks.len() - i,
        {
            let b = &self.bookmarks[i];
            proof {
                lemma_keep_step(h, p, i as int);
            }
            let wanted = match folder {
                Some(f) => str_eq(b.folder.as_str(), f),
                None => true,
            };
            if wanted {
                out.push(b.clone());
            }
            i = i + 1;
        }
        assert(h.subrange(0, h.len() as int) =~= h);
        Ok(out)
    }

    /// Stores a copy of `cookie`.
    pub fn set_cookie(&mut self, cookie: &Cookie) -> (r: Result<()>)
        ensures
            r is Ok,
            final(self).cookie_jar() == old(self).cookie_jar().push(*cookie),
            final(self).history_log() == old(self).history_log(),
            final(self).bookmark_list() == old(self).bookmark_list(),
            final(self).session_log() == old(self).session_log(),
    {
        self.cookies.push(cookie.clone());
        Ok(())
    }

    /// The cookies whose domain contains `domain`, in the order they were set.
    pub fn get_cookies_for_domain(&self, domain: &str) -> (r: Result<Vec<Cookie>>)
        ensures
            r matches Ok(v) && v@ == keep(self.cookie_jar(), for_domain(domain@)),
    {
        let ghost p = for_domain(domain@);
        let ghost h = self.cookies@;
        let mut out: Vec<Cookie> = Vec::new();
        let mut i: usize = 0;
        assert(h.subrange(0, 0) =~= Seq::<Cookie>::empty());
        while i < self.cookies.len()
            invariant
                h == self.cookies@,
                p == for_domain(domain@),
                i <= h.len(),
                out@ == keep(h.subrange(0, i as int), p),
            decreases self.cookies.len() - i,
        {
            let c = &self.cookies[i];
            proof {
                lemma_keep_step(h, p, i as int);
            }
            if str_contains(c.domain.as_str(), domain) {
                out.push(c.clone());
            }
            i = i + 1;
        }
        assert(h.subrange(0, h.len() as int) =~= h);
        Ok(out)
    }

    /// Saves the state of window `window_id` at the current time, as a
    /// session with id 1.
    pub fn save_session(&mut self, window_id: &str, tabs_json: &str, active_tab_index: i32) -> (r: Result<()>)
        ensures
            r is Ok,
            final(self).session_log().len() == old(self).session_log().len() + 1,
            final(self).session_log().drop_last() == old(self).session_log(),
            saved_session(
                window_id@,
                tabs_json@,
                active_tab_index,
                final(self).session_log().last().timestamp,
                final(self).session_log().last(),
            ),
            final(self).history_log() == old(self).history_log(),
            final(self).bookmark_list() == old(self).bookmark_list(),
            final(self).cookie_jar() == old(self).cookie_jar(),
    {
        let timestamp = now();
        self.save_session_at(window_id, tabs_json, active_tab_index, timestamp)
    }

    /// Saves the state of window `window_id` at `timestamp`, as a session
    /// with id 1.
    pub fn save_session_at(&mut self, window_id: &str, tabs_json: &str, active_tab_index: i32, timestamp: u64) -> (r: Result<()>)
        ensures
            r is Ok,
            final(self).session_log().len() == old(self).session_log().len() + 1,
            final(self).session_log().drop_last() == old(self).session_log(),
            saved_session(window_id@, tabs_json@, active_tab_index, timestamp, final(self).session_log().last()),
            final(self).history_log() == old(self).history_log(),
            final(self).bookmark_list() == old(self).bookmark_list(),
            final(self).cookie_jar() == old(self).cookie_jar(),
    {
        self.sessions.push(
            SessionData {
                id: 1,
                window_id: window_id.to_owned(),
                tabs_json: tabs_json.to_owned(),
                active_tab_index,
                timestamp,
            },
        );
        assert(self.sessions@.drop_last() =~= old(self).sessions@);
        Ok(())
    }

    /// The latest session saved for `window_id`, if any: the window's state
    /// as it was last saved.
    pub fn load_session(&self, window_id: &str) -> (r: Result<Option<SessionData>>)
        ensures
            r matches Ok(o) && match o {
                Some(s) => {
                    let k = latest_session(self.session_log(), window_id@);
                    k != -1 && s == self.session_log()[k]
                },
                None => latest_session(self.session_log(), window_id@) == -1,
            },
    {
        let ghost h = self.sessions@;
        let mut i: usize = self.sessions.len();
        assert(h.subrange(0, h.len() as int) =~= h);
        while i > 0
            invariant
                h == self.sessions@,
                i <= h.len(),
                latest_session(h.subrange(0, i as int), window_id@) == latest_session(h, window_id@),
            decreases i,
        {
            let s = &self.sessions[i - 1];
            proof {
                let q = h.subrange(0, i as int);
                assert(q.drop_last() =~= h.subrange(0, i - 1));
                assert(q.last() == h[i - 1]);
            }
            if str_eq(s.window_id.as_str(), window_id) {
                return Ok(Some(s.clone()));
            }
            i = i - 1;
        }
        Ok(None)
    }

    /// Every saved session, in the order saved.
    pub fn get_all_sessions(&self) -> (r: Result<Vec<SessionData>>)
        ensures
            r matches Ok(v) && v@ == self.session_log(),
    {
        let v = self.sessions.clone();
        assert(v@ =~= self.sessions@);
        Ok(v)
    }
}

/// A visit that matches a search shows up last among the search's results
/// over the history it was added to.
pub proof fn law_recorded_visit_is_found(h: Seq<HistoryEntry>, e: HistoryEntry, q: Seq<char>)
    requires
        contains_seq(e.url@, q) || contains_seq(e.title@, q),
    ensures
        keep(h.push(e), history_hit(q)).last() == e,
        keep(h.push(e), history_hit(q)).drop_last() == keep(h, history_hit(q)),
{
    crate::seqs::lemma_keep_push(h, history_hit(q), e);
}

/// A bookmark added to a folder is listed last for that folder.
pub proof fn law_added_bookmark_is_listed(bs: Seq<Bookmark>, b: Bookmark)
    ensures
        keep(bs.push(b), in_folder(Some(b.folder@))).last() == b,
        keep(bs.push(b), in_folder(None)).last() == b,
{
    crate::seqs::lemma_keep_push(bs, in_folder(Some(b.folder@)), b);
    crate::seqs::lemma_keep_push(bs, in_folder(None), b);
}

/// The session loaded for a window is the one saved for it last.
pub proof fn law_saved_session_is_loaded(s: Seq<SessionData>, x: SessionData)
    ensures
        latest_session(s.push(x), x.window_id@) == s.len(),
        s.push(x)[s.len() as int] == x,
{
}

/// Saving a session for one window does not change which session is loaded
/// for any other window.
pub proof fn law_other_windows_keep_their_session(s: Seq<SessionData>, x: SessionData, w: Seq<char>)
    requires
        w != x.window_id@,
    ensures
        latest_session(s.push(x), w) == latest_session(s, w),
{
    assert(s.push(x).drop_last() =~= s);
}

} // verus!
