//! Accessibility: what the screen reader announces, keyboard focus over the
//! accessibility tree with its history, live regions, and the presentation
//! preferences.
use vstd::prelude::*;
use crate::text::str_eq;

verus! {

/// How urgently a change is announced.
#[derive(Clone, Copy, Debug, PartialEq, Eq, Structural)]
pub enum Politeness {
    Off,
    Polite,
    Assertive,
}

/// A region of the page whose changes are announced.
pub struct LiveRegion {
    pub id: String,
    pub politeness: Politeness,
    pub atomic: bool,
    pub relevant: Vec<String>,
    pub last_announced: Option<String>,
}

/// What focus reads of a node of the accessibility tree: its id and its
/// accessible name.
pub struct AriaNode {
    pub id: String,
    pub name: Option<String>,
}

/// The line the screen reader speaks for `text`, if it speaks at all: not
/// when it is inactive, and not for `Off`.
pub open spec fn announcement(active: bool, text: Seq<char>, politeness: Politeness) -> Option<Seq<char>> {
    if !active {
        None
    } else {
        match politeness {
            Politeness::Off => None,
            Politeness::Polite => Some("🔊 Screen Reader (polite): "@ + text),
            Politeness::Assertive => Some("🔊 Screen Reader (assertive): "@ + text),
        }
    }
}

/// The index of the first node at or after `i` with id `id` in `nodes`, or -1.
pub open spec fn node_index_from(nodes: Seq<(Seq<char>, Option<Seq<char>>)>, id: Seq<char>, i: int) -> int
    decreases nodes.len() - i,
{
    if i < 0 || i >= nodes.len() {
        -1
    } else if nodes[i].0 == id {
        i
    } else {
        node_index_from(nodes, id, i + 1)
    }
}

/// The index of the node with id `id` in `nodes`, or -1.
pub open spec fn node_index(nodes: Seq<(Seq<char>, Option<Seq<char>>)>, id: Seq<char>) -> int {
    node_index_from(nodes, id, 0)
}

/// The accessibility tree, keyboard focus, live regions and presentation
/// preferences.
pub struct AccessibilityEngine {
    nodes: Vec<AriaNode>,
    screen_reader_active: bool,
    current_focus: Option<String>,
    focus_history: Vec<String>,
    tab_order: Vec<String>,
    live_regions: Vec<LiveRegion>,
    high_contrast: bool,
    reduced_motion: bool,
}

/// An optional string by its characters.
pub open spec fn opt_view(o: Option<String>) -> Option<Seq<char>> {
    match o {
        Some(s) => Some(s@),
        None => None,
    }
}

impl AccessibilityEngine {
    /// The nodes of the tree: id and name of each.
    pub closed spec fn tree(self) -> Seq<(Seq<char>, Option<Seq<char>>)> {
        self.nodes@.map_values(|n: AriaNode| (n.id@, opt_view(n.name)))
    }

    /// Whether a screen reader listens.
    pub closed spec fn reader_active(self) -> bool {
        self.screen_reader_active
    }

    /// The id of the focused node, if any.
    pub closed spec fn focus(self) -> Option<Seq<char>> {
        opt_view(self.current_focus)
    }

    /// The ids of the nodes focused so far, oldest first.
    pub closed spec fn history(self) -> Seq<Seq<char>> {
        self.focus_history@.map_values(|s: String| s@)
    }

    /// The ids and politeness of the live regions, in the order they were added.
    pub closed spec fn regions(self) -> Seq<(Seq<char>, Politeness)> {
        self.live_regions@.map_values(|r: LiveRegion| (r.id@, r.politeness))
    }

    /// Whether high-contrast presentation is on.
    pub closed spec fn high_contrast_on(self) -> bool {
        self.high_contrast
    }

    /// Whether reduced motion is on.
    pub closed spec fn reduced_motion_on(self) -> bool {
        self.reduced_motion
    }

    /// An empty tree with nothing focused, no live regions, a listening
    /// screen reader and both presentation preferences off.
    pub fn new() -> (r: Self)
        ensures
            r.tree() == Seq::<(Seq<char>, Option<Seq<char>>)>::empty(),
            r.reader_active(),
            r.focus() == None::<Seq<char>>,
            r.history() == Seq::<Seq<char>>::empty(),
            r.regions() == Seq::<(Seq<char>, Politeness)>::empty(),
            !r.high_contrast_on(),
            !r.reduced_motion_on(),
    {
        let r = AccessibilityEngine {
            nodes: Vec::new(),
            screen_reader_active: true,
            current_focus: None,
            focus_history: Vec::new(),
            tab_order: Vec::new(),
            live_regions: Vec::new(),
            high_contrast: false,
            reduced_motion: false,
        };
        assert(r.tree() =~= Seq::<(Seq<char>, Option<Seq<char>>)>::empty());
        assert(r.history() =~= Seq::<Seq<char>>::empty());
        assert(r.regions() =~= Seq::<(Seq<char>, Politeness)>::empty());
        r
    }

    /// The line the screen reader speaks for `text` with `politeness`.
    pub fn announce(&self, text: &str, politeness: Politeness) -> (line: Option<String>)
        ensures
            opt_view(line) == announcement(self.reader_active(), text@, politeness),
    {
        if self.screen_reader_active {
            match politeness {
                Politeness::Off => None,
                Politeness::Polite => {
                    let mut s = "🔊 Screen Reader (polite): ".to_owned();
                    s.append(text);
                    Some(s)
                },
                Politeness::Assertive => {
                    let mut s = "🔊 Screen Reader (assertive): ".to_owned();
                    s.append(text);
                    Some(s)
                },
            }
        } else {
            None
        }
    }

    /// Moves focus to the node with id `node_id` and adds it to the history,
    /// returning the announcement of its name ("Focused: " and the name), if
    /// it has one; does nothing, and returns `None`, when no node has that id.
    pub fn set_focus(&mut self, node_id: &str) -> (line: Option<String>)
        ensures
            final(self).tree() == old(self).tree(),
            final(self).reader_active() == old(self).reader_active(),
            final(self).regions() == old(self).regions(),
            final(self).high_contrast_on() == old(self).high_contrast_on(),
            final(self).reduced_motion_on() == old(self).reduced_motion_on(),
            ({
                let i = node_index(old(self).tree(), node_id@);
                if i == -1 {
                    &&& final(self).focus() == old(self).focus()
                    &&& final(self).history() == old(self).history()
                    &&& line is None
                } else {
                    &&& final(self).focus() == Some(node_id@)
                    &&& final(self).history() == old(self).history().push(node_id@)
                    &&& opt_view(line) == match old(self).tree()[i].1 {
                        Some(name) => announcement(old(self).reader_active(), "Focused: "@ + name, Politeness::Polite),
                        None => None,
                    }
                }
            }),
    {
        let ghost t = self.tree();
        let mut i: usize = 0;
        while i < self.nodes.len()
            invariant
                *self == *old(self),
                t == self.tree(),
                node_index(t, node_id@) == node_index_from(t, node_id@, i as int),
                t.len() == self.nodes@.len(),
                i <= self.nodes@.len(),
                forall|k: int| 0 <= k < i ==> t[k].0 != node_id@,
            decreases self.nodes.len() - i,
        {
            if str_eq(self.nodes[i].id.as_str(), node_id) {
                assert(t[i as int].0 == node_id@);
                let line = match &self.nodes[i].name {
                    Some(name) => {
                        let mut text = "Focused: ".to_owned();
                        text.append(name.as_str());
                        self.announce(text.as_str(), Politeness::Polite)
                    },
                    None => None,
                };
                let focused = node_id.to_owned();
                self.current_focus = Some(focused);
                self.focus_history.push(node_id.to_owned());
                proof {
                    assert(self.history() =~= old(self).history().push(node_id@));
                }
                return line;
            }
            assert(t[i as int].0 != node_id@);
            i = i + 1;
        }
        None
    }

    /// Turns high-contrast presentation on.
    pub fn enable_high_contrast(&mut self)
        ensures
            final(self).high_contrast_on(),
            final(self).tree() == old(self).tree(),
            final(self).reader_active() == old(self).reader_active(),
            final(self).focus() == old(self).focus(),
            final(self).history() == old(self).history(),
            final(self).regions() == old(self).regions(),
            final(self).reduced_motion_on() == old(self).reduced_motion_on(),
    {
        self.high_contrast = true;
    }

    /// Turns reduced motion on.
    pub fn enable_reduced_motion(&mut self)
        ensures
            final(self).reduced_motion_on(),
            final(self).tree() == old(self).tree(),
            final(self).reader_active() == old(self).reader_active(),
            final(self).focus() == old(self).focus(),
            final(self).history() == old(self).history(),
            final(self).regions() == old(self).regions(),
            final(self).high_contrast_on() == old(self).high_contrast_on(),
    {
        self.reduced_motion = true;
    }

    /// Adds a live region with id `id`, atomic, announcing additions and
    /// text changes, and not yet announced.
    pub fn add_live_region(&mut self, id: &str, politeness: Politeness)
        ensures
            final(self).regions() == old(self).regions().push((id@, politeness)),
            final(self).tree() == old(self).tree(),
            final(self).reader_active() == old(self).reader_active(),
            final(self).focus() == old(self).focus(),
            final(self).history() == old(self).history(),
            final(self).high_contrast_on() == old(self).high_contrast_on(),
            final(self).reduced_motion_on() == old(self).reduced_motion_on(),
    {
        let mut relevant: Vec<String> = Vec::new();
        relevant.push("additions".to_owned());
        relevant.push("text".to_owned());
        self.live_regions.push(
            LiveRegion { id: id.to_owned(), politeness, atomic: true, relevant, last_announced: None },
        );
        assert(self.regions() =~= old(self).regions().push((id@, politeness)));
    }
}

} // verus!
