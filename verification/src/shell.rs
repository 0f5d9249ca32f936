//! The browser shell: tabs, the active tab, the address bar and the window
//! size, driven by the messages of the user interface.
use vstd::prelude::*;
use std::collections::HashMap;

verus! {

broadcast use vstd::std_specs::hash::group_hash_axioms;

/// The URL a new tab opens with.
pub open spec fn blank_url() -> Seq<char> {
    "about:blank"@
}

/// One tab of the browser window.
pub struct BrowserTab {
    pub id: usize,
    pub title: String,
    pub url: String,
    pub can_go_back: bool,
    pub can_go_forward: bool,
    pub is_loading: bool,
}

/// A tab, with its strings taken as character sequences.
pub struct TabView {
    pub id: usize,
    pub title: Seq<char>,
    pub url: Seq<char>,
    pub can_go_back: bool,
    pub can_go_forward: bool,
    pub is_loading: bool,
}

impl View for BrowserTab {
    type V = TabView;

    open spec fn view(&self) -> TabView {
        TabView {
            id: self.id,
            title: self.title@,
            url: self.url@,
            can_go_back: self.can_go_back,
            can_go_forward: self.can_go_forward,
            is_loading: self.is_loading,
        }
    }
}

impl Clone for BrowserTab {
    fn clone(&self) -> (r: Self)
        ensures
            r == *self,
    {
        BrowserTab {
            id: self.id,
            title: self.title.clone(),
            url: self.url.clone(),
            can_go_back: self.can_go_back,
            can_go_forward: self.can_go_forward,
            is_loading: self.is_loading,
        }
    }
}

/// A freshly opened tab with the given id and URL.
pub open spec fn fresh_tab(id: usize, url: Seq<char>) -> TabView {
    TabView {
        id,
        title: "New Tab"@,
        url,
        can_go_back: false,
        can_go_forward: false,
        is_loading: false,
    }
}

impl BrowserTab {
    /// A tab titled "New Tab" showing `url`, with no history and not loading.
    pub fn new(id: usize, url: String) -> (r: Self)
        ensures
            r@ == fresh_tab(id, url@),
    {
        BrowserTab {
            id,
            title: String::from_str("New Tab"),
            url,
            can_go_back: false,
            can_go_forward: false,
            is_loading: false,
        }
    }

    /// The text of the tab's label in the tab bar: its title, or "New Tab"
    /// when the title is empty.
    pub fn label(&self) -> (r: String)
        ensures
            r@ == tab_label(self@.title),
    {
        if self.title.as_str().is_empty() {
            String::from_str("New Tab")
        } else {
            self.title.clone()
        }
    }
}

/// The label of a tab titled `title`: the title, or "New Tab" when it is empty.
pub open spec fn tab_label(title: Seq<char>) -> Seq<char> {
    if title.len() == 0 {
        "New Tab"@
    } else {
        title
    }
}

/// What the user interface asks of the shell.
pub enum Message {
    UrlSubmitted(String),
    GoBack,
    GoForward,
    Reload,
    Stop,
    TabSelected(usize),
    NewTab,
    CloseTab(usize),
    UrlBarChanged(String),
    WindowResized(u32, u32),
}

/// The state of the shell, with strings taken as character sequences: the
/// tabs by id, the active tab's id, the id the next new tab gets, the
/// address bar and the window size.
pub struct ShellView {
    pub tabs: Map<usize, TabView>,
    pub active: Option<usize>,
    pub next_id: usize,
    pub url_bar: Seq<char>,
    pub width: u32,
    pub height: u32,
}

/// The shell's invariant: at least one tab, every tab kept under its own id,
/// and every id below the id the next new tab gets.
pub open spec fn shell_wf(s: ShellView) -> bool {
    &&& exists|k: usize| s.tabs.contains_key(k)
    &&& forall|k: usize| #[trigger] s.tabs.contains_key(k) ==> s.tabs[k].id == k && k < s.next_id
}

/// `s` with `f` applied to the active tab, if there is one.
pub open spec fn on_active(s: ShellView, f: spec_fn(TabView) -> TabView) -> ShellView {
    match s.active {
        Some(id) => if s.tabs.contains_key(id) {
            ShellView { tabs: s.tabs.insert(id, f(s.tabs[id])), ..s }
        } else {
            s
        },
        None => s,
    }
}

/// `s` with a blank tab added and made active.
pub open spec fn with_new_tab(s: ShellView) -> ShellView {
    ShellView {
        tabs: s.tabs.insert(s.next_id, fresh_tab(s.next_id, blank_url())),
        active: Some(s.next_id),
        next_id: (s.next_id + 1) as usize,
        ..s
    }
}

/// Whether message `m` in state `s` closes the active tab and leaves other
/// tabs open: one of them then becomes active, whichever the map yields.
pub open spec fn closes_active(s: ShellView, m: Message) -> bool {
    match m {
        Message::CloseTab(id) => s.active == Some(id) && !s.tabs.remove(id).dom().is_empty(),
        _ => false,
    }
}

/// The state of the shell after it handles message `m` in state `s`, but
/// for which tab becomes active when the active one is closed (see
/// `steps_to`).
pub open spec fn step(s: ShellView, m: Message) -> ShellView {
    match m {
        Message::UrlSubmitted(u) => on_active(
            s,
            |t: TabView| TabView { url: u@, is_loading: true, can_go_back: true, ..t },
        ),
        Message::GoBack => on_active(s, |t: TabView| TabView { can_go_forward: true, ..t }),
        Message::GoForward => on_active(s, |t: TabView| TabView { can_go_back: true, ..t }),
        Message::Reload => on_active(s, |t: TabView| TabView { is_loading: true, ..t }),
        Message::Stop => s,
        Message::TabSelected(id) => ShellView {
            active: Some(id),
            url_bar: if s.tabs.contains_key(id) {
                s.tabs[id].url
            } else {
                s.url_bar
            },
            ..s
        },
        Message::NewTab => with_new_tab(s),
        Message::CloseTab(id) => {
            let rest = s.tabs.remove(id);
            if rest.dom().is_empty() {
                with_new_tab(ShellView { tabs: rest, ..s })
            } else {
                ShellView { tabs: rest, ..s }
            }
        },
        Message::UrlBarChanged(text) => ShellView { url_bar: text@, ..s },
        Message::WindowResized(w, h) => ShellView { width: w, height: h, ..s },
    }
}

/// `r` is a state the shell may be in after handling `m` in state `s`: the
/// state `step` gives, except that when the active tab is closed and others
/// remain, one of the remaining tabs is active.
pub open spec fn steps_to(s: ShellView, m: Message, r: ShellView) -> bool {
    if closes_active(s, m) {
        &&& r == (ShellView { active: r.active, ..step(s, m) })
        &&& (r.active matches Some(k) && step(s, m).tabs.contains_key(k))
    } else {
        r == step(s, m)
    }
}

/// Whether handling `m` in state `s` creates a tab (and so uses up an id).
pub open spec fn creates_tab(s: ShellView, m: Message) -> bool {
    match m {
        Message::NewTab => true,
        Message::CloseTab(id) => s.tabs.remove(id).dom().is_empty(),
        _ => false,
    }
}

/// The browser window: its tabs by id, the active tab, the address bar text
/// and the window size.
pub struct BrowserShell {
    tabs: HashMap<usize, BrowserTab>,
    active_tab_id: Option<usize>,
    next_tab_id: usize,
    url_bar_text: String,
    window_width: u32,
    window_height: u32,
}

impl View for BrowserShell {
    type V = ShellView;

    closed spec fn view(&self) -> ShellView {
        ShellView {
            tabs: self.tabs@.map_values(|t: BrowserTab| t@),
            active: self.active_tab_id,
            next_id: self.next_tab_id,
            url_bar: self.url_bar_text@,
            width: self.window_width,
            height: self.window_height,
        }
    }
}

/// Every message keeps the shell's invariant, and after each one the shell
/// holds at least one tab.
pub proof fn law_step_keeps_wf(s: ShellView, m: Message, r: ShellView)
    requires
        shell_wf(s),
        creates_tab(s, m) ==> s.next_id < usize::MAX,
        steps_to(s, m, r),
    ensures
        shell_wf(r),
{
    let k0 = choose|k: usize| s.tabs.contains_key(k);
    match m {
        Message::UrlSubmitted(_) | Message::GoBack | Message::GoForward | Message::Reload => {
            assert(r.tabs.contains_key(k0));
            assert forall|k: usize| #[trigger] r.tabs.contains_key(k) implies r.tabs[k].id == k && k < r.next_id by {
                assert(s.tabs.contains_key(k));
            }
        },
        Message::NewTab => {
            assert(r.tabs.contains_key(s.next_id));
            assert forall|k: usize| #[trigger] r.tabs.contains_key(k) implies r.tabs[k].id == k && k < r.next_id by {
                if k != s.next_id {
                    assert(s.tabs.contains_key(k));
                }
            }
        },
        Message::CloseTab(id) => {
            let rest = s.tabs.remove(id);
            if rest.dom().is_empty() {
                assert(r.tabs.contains_key(s.next_id));
                assert forall|k: usize| #[trigger] r.tabs.contains_key(k) implies r.tabs[k].id == k && k
                    < r.next_id by {
                    if k != s.next_id {
                        assert(rest.contains_key(k));
                    }
                }
            } else {
                let k1 = choose|k: usize| rest.dom().contains(k);
                assert(r.tabs.contains_key(k1));
                assert forall|k: usize| #[trigger] r.tabs.contains_key(k) implies r.tabs[k].id == k && k
                    < r.next_id by {
                    assert(s.tabs.contains_key(k));
                }
            }
        },
        _ => {
            assert(r.tabs.contains_key(k0));
        },
    }
}

/// Opening a new tab and closing it again leaves the same tabs as before.
pub proof fn law_new_tab_then_close_restores_tabs(s: ShellView, r: ShellView)
    requires
        shell_wf(s),
        steps_to(step(s, Message::NewTab), Message::CloseTab(s.next_id), r),
    ensures
        r.tabs == s.tabs,
{
    let s1 = step(s, Message::NewTab);
    let k0 = choose|k: usize| s.tabs.contains_key(k);
    assert(s1.tabs.remove(s.next_id) =~= s.tabs);
    assert(s1.tabs.remove(s.next_id).dom().contains(k0));
}

/// Selecting an open tab makes it active and shows its URL in the address bar.
pub proof fn law_select_shows_url(s: ShellView, id: usize)
    requires
        s.tabs.contains_key(id),
    ensures
        step(s, Message::TabSelected(id)).url_bar == s.tabs[id].url,
        step(s, Message::TabSelected(id)).active == Some(id),
        !closes_active(s, Message::TabSelected(id)),
{
}

/// Some tab is active, and a tab with the active id is open.
pub open spec fn active_present(s: ShellView) -> bool {
    s.active matches Some(a) && s.tabs.contains_key(a)
}

/// A message that selects a tab names an open one.
pub open spec fn selects_open_tab(s: ShellView, m: Message) -> bool {
    match m {
        Message::TabSelected(id) => s.tabs.contains_key(id),
        _ => true,
    }
}

/// The active tab stays open: after every message (but the selection of a
/// tab that is not open) some open tab is active, and the id the next new
/// tab gets never goes down, so no id is given out twice.
pub proof fn law_active_tab_stays_open(s: ShellView, m: Message, r: ShellView)
    requires
        shell_wf(s),
        active_present(s),
        selects_open_tab(s, m),
        creates_tab(s, m) ==> s.next_id < usize::MAX,
        steps_to(s, m, r),
    ensures
        active_present(r),
        r.next_id >= s.next_id,
{
    let a = s.active.unwrap();
    match m {
        Message::NewTab => {
            assert(r.tabs.contains_key(s.next_id));
        },
        Message::CloseTab(id) => {
            let rest = s.tabs.remove(id);
            if rest.dom().is_empty() {
                assert(r.tabs.contains_key(s.next_id));
            } else if a != id {
                assert(rest.contains_key(a));
            }
        },
        _ => {
            assert(r.tabs.contains_key(a));
        },
    }
}

/// Closing a tab that is not the active one keeps the active tab: only the
/// closed tab goes, and the active id stays, as long as tabs remain.
pub proof fn law_closing_a_background_tab_keeps_the_active_one(s: ShellView, id: usize, r: ShellView)
    requires
        s.active is Some,
        s.active != Some(id),
        !s.tabs.remove(id).dom().is_empty(),
        steps_to(s, Message::CloseTab(id), r),
    ensures
        r.active == s.active,
        r.tabs == s.tabs.remove(id),
        r.next_id == s.next_id,
{
}

/// Navigating acts on the active tab alone: the other tabs, the set of
/// open tabs, the active id, the address bar and the next id stay; a
/// submitted URL becomes the active tab's URL and starts it loading.
pub proof fn law_navigation_changes_only_the_active_tab(s: ShellView, m: Message, r: ShellView)
    requires
        m is UrlSubmitted || m is GoBack || m is GoForward || m is Reload,
        steps_to(s, m, r),
    ensures
        r.tabs.dom() == s.tabs.dom(),
        forall|k: usize| #[trigger] r.tabs.contains_key(k) && Some(k) != s.active ==> r.tabs[k] == s.tabs[k],
        r.active == s.active,
        r.url_bar == s.url_bar,
        r.next_id == s.next_id,
        m matches Message::UrlSubmitted(u) ==> (active_present(s) ==> r.tabs[s.active.unwrap()].url == u@
            && r.tabs[s.active.unwrap()].is_loading && r.tabs[s.active.unwrap()].id == s.tabs[s.active.unwrap()].id),
{
    if let Some(a) = s.active {
        if s.tabs.contains_key(a) {
            assert(r.tabs.dom() =~= s.tabs.dom());
        }
    }
}

/// A new tab gets the next id, opens on the blank page and becomes active;
/// every tab that was open stays as it was.
pub proof fn law_new_tab_is_fresh_and_active(s: ShellView, r: ShellView)
    requires
        shell_wf(s),
        steps_to(s, Message::NewTab, r),
    ensures
        !s.tabs.contains_key(s.next_id),
        r.tabs.contains_key(s.next_id),
        r.tabs[s.next_id].url == blank_url(),
        r.tabs[s.next_id].id == s.next_id,
        r.active == Some(s.next_id),
        forall|k: usize| #[trigger] s.tabs.contains_key(k) ==> r.tabs.contains_key(k) && r.tabs[k] == s.tabs[k],
        r.tabs.dom() == s.tabs.dom().insert(s.next_id),
{
}

impl BrowserShell {
    /// One blank tab (id 0), active; an empty address bar; a 1280x720 window.
    pub fn new() -> (r: Self)
        ensures
            r@ == (ShellView {
                tabs: map![0usize => fresh_tab(0, blank_url())],
                active: Some(0usize),
                next_id: 1,
                url_bar: Seq::<char>::empty(),
                width: 1280,
                height: 720,
            }),
            shell_wf(r@),
            active_present(r@),
    {
        let first_tab = BrowserTab::new(0, String::from_str("about:blank"));
        let mut tabs: HashMap<usize, BrowserTab> = HashMap::new();
        tabs.insert(0, first_tab);
        let r = BrowserShell {
            tabs,
            active_tab_id: Some(0),
            next_tab_id: 1,
            url_bar_text: String::new(),
            window_width: 1280,
            window_height: 720,
        };
        assert(r@.tabs =~= map![0usize => fresh_tab(0, blank_url())]);
        assert(r@.tabs.contains_key(0));
        r
    }

    /// Handles `message`, changing the shell as `steps_to` says: the
    /// navigation messages act on the active tab, `TabSelected` makes a tab
    /// active and shows its URL, `NewTab` adds and activates a blank tab,
    /// `CloseTab` removes a tab (opening a blank one when it was the last,
    /// and activating one of the remaining tabs when it was the active one),
    /// and the address bar and window size follow their messages.
    pub fn update(&mut self, message: Message)
        requires
            shell_wf(old(self)@),
            creates_tab(old(self)@, message) ==> old(self)@.next_id < usize::MAX,
        ensures
            steps_to(old(self)@, message, final(self)@),
            shell_wf(final(self)@),
    {
        let ghost s = self@;
        let ghost m = message;
        match message {
            Message::UrlSubmitted(url) => {
                if let Some(tab_id) = self.active_tab_id {
                    if let Some(t) = self.tabs.get(&tab_id) {
                        let mut tab = t.clone();
                        tab.url = url;
                        tab.is_loading = true;
                        tab.can_go_back = true;
                        self.tabs.insert(tab_id, tab);
                    }
                }
                assert(self@.tabs =~= step(s, m).tabs);
            },
            Message::GoBack => {
                if let Some(tab_id) = self.active_tab_id {
                    if let Some(t) = self.tabs.get(&tab_id) {
                        let mut tab = t.clone();
                        tab.can_go_forward = true;
                        self.tabs.insert(tab_id, tab);
                    }
                }
                assert(self@.tabs =~= step(s, m).tabs);
            },
            Message::GoForward => {
                if let Some(tab_id) = self.active_tab_id {
                    if let Some(t) = self.tabs.get(&tab_id) {
                        let mut tab = t.clone();
                        tab.can_go_back = true;
                        self.tabs.insert(tab_id, tab);
                    }
                }
                assert(self@.tabs =~= step(s, m).tabs);
            },
            Message::Reload => {
                if let Some(tab_id) = self.active_tab_id {
                    if let Some(t) = self.tabs.get(&tab_id) {
                        let mut tab = t.clone();
                        tab.is_loading = true;
                        self.tabs.insert(tab_id, tab);
                    }
                }
                assert(self@.tabs =~= step(s, m).tabs);
            },
            Message::Stop => {},
            Message::TabSelected(tab_id) => {
                self.active_tab_id = Some(tab_id);
                if let Some(t) = self.tabs.get(&tab_id) {
                    self.url_bar_text = t.url.clone();
                }
            },
            Message::NewTab => {
                self.open_blank_tab();
            },
            Message::CloseTab(tab_id) => {
                self.tabs.remove(&tab_id);
                assert(self@.tabs =~= s.tabs.remove(tab_id));
                if self.tabs.is_empty() {
                    assert(s.tabs.remove(tab_id).dom().is_empty()) by {
                        assert(self.tabs@.dom() =~= s.tabs.remove(tab_id).dom());
                    }
                    self.open_blank_tab();
                } else {
                    assert(!s.tabs.remove(tab_id).dom().is_empty()) by {
                        assert(self.tabs@.dom() =~= s.tabs.remove(tab_id).dom());
                    }
                    if self.active_tab_id == Some(tab_id) {
                        self.activate_an_open_tab();
                    }
                }
            },
            Message::UrlBarChanged(text) => {
                self.url_bar_text = text;
            },
            Message::WindowResized(width, height) => {
                self.window_width = width;
                self.window_height = height;
            },
        }
        proof {
            law_step_keeps_wf(s, m, self@);
        }
    }

    /// Makes one of the open tabs active: the one with the smallest id.
    fn activate_an_open_tab(&mut self)
        requires
            !old(self)@.tabs.dom().is_empty(),
            forall|k: usize| #[trigger] old(self)@.tabs.contains_key(k) ==> k < old(self)@.next_id,
        ensures
            final(self)@ == (ShellView { active: final(self)@.active, ..old(self)@ }),
            (final(self)@.active matches Some(k) && old(self)@.tabs.contains_key(k)),
    {
        let ghost s = self@;
        let n = self.next_tab_id;
        let mut k: usize = 0;
        while k < n
            invariant
                self@ == s,
                s == old(self)@,
                n == s.next_id,
                forall|j: usize| j < k ==> !(#[trigger] s.tabs.contains_key(j)),
                forall|j: usize| #[trigger] s.tabs.contains_key(j) ==> j < n,
            decreases n - k,
        {
            if self.tabs.contains_key(&k) {
                assert(s.tabs.contains_key(k));
                self.active_tab_id = Some(k);
                return;
            }
            k = k + 1;
        }
        proof {
            let j = choose|j: usize| s.tabs.dom().contains(j);
            assert(s.tabs.contains_key(j));
        }
    }

    /// Adds a blank tab with the next id and makes it active.
    fn open_blank_tab(&mut self)
        requires
            old(self)@.next_id < usize::MAX,
        ensures
            final(self)@ == with_new_tab(old(self)@),
    {
        let id = self.next_tab_id;
        let new_tab = BrowserTab::new(id, String::from_str("about:blank"));
        self.tabs.insert(id, new_tab);
        self.active_tab_id = Some(id);
        self.next_tab_id = id + 1;
        assert(self@.tabs =~= with_new_tab(old(self)@).tabs);
    }

    /// The tabs, by id.
    pub fn tabs(&self) -> (r: &HashMap<usize, BrowserTab>)
        ensures
            r@.map_values(|t: BrowserTab| t@) == self@.tabs,
    {
        &self.tabs
    }

    /// The tab with id `id`, if it is open.
    pub fn tab(&self, id: usize) -> (r: Option<&BrowserTab>)
        ensures
            match r {
                Some(t) => self@.tabs.contains_key(id) && t@ == self@.tabs[id],
                None => !self@.tabs.contains_key(id),
            },
    {
        self.tabs.get(&id)
    }

    /// The number of open tabs.
    pub fn tab_count(&self) -> (n: usize)
        ensures
            n == self@.tabs.len(),
    {
        assert(self@.tabs.dom() =~= self.tabs@.dom());
        self.tabs.len()
    }

    /// The id of the active tab.
    pub fn active_tab_id(&self) -> (r: Option<usize>)
        ensures
            r == self@.active,
    {
        self.active_tab_id
    }

    /// The text in the address bar.
    pub fn url_bar_text(&self) -> (r: &String)
        ensures
            r@ == self@.url_bar,
    {
        &self.url_bar_text
    }

    /// The id the next new tab gets.
    pub fn next_tab_id(&self) -> (r: usize)
        ensures
            r == self@.next_id,
    {
        self.next_tab_id
    }

    /// The window size, width first.
    pub fn window_size(&self) -> (r: (u32, u32))
        ensures
            r == (self@.width, self@.height),
    {
        (self.window_width, self.window_height)
    }
}

impl Default for BrowserShell {
    fn default() -> (r: Self)
        ensures
            r@ == (ShellView {
                tabs: map![0usize => fresh_tab(0, blank_url())],
                active: Some(0usize),
                next_id: 1,
                url_bar: Seq::<char>::empty(),
                width: 1280,
                height: 720,
            }),
    {
        Self::new()
    }
}

} // verus!
