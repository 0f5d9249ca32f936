//! The script host: a console, document bindings, timers, and an evaluator
//! that recognises the scripts the engine supports.
use vstd::prelude::*;
use std::collections::HashSet;
use crate::text::{clone_strings, contains_seq, decimal, str_contains, strs, u64_to_decimal};

verus! {

broadcast use vstd::std_specs::hash::group_hash_axioms;

// ---------------------------------------------------------------------------
// Console
// ---------------------------------------------------------------------------

/// The messages scripts have written to the console.
pub struct JsConsole {
    logs: Vec<String>,
}

impl JsConsole {
    /// The recorded messages, oldest first.
    pub closed spec fn entries(self) -> Seq<Seq<char>> {
        strs(self.logs@)
    }

    /// An empty console.
    pub fn new() -> (r: Self)
        ensures
            r.entries() == Seq::<Seq<char>>::empty(),
    {
        let r = JsConsole { logs: Vec::new() };
        assert(r.entries() =~= Seq::<Seq<char>>::empty());
        r
    }

    /// Records `msg`.
    pub fn log(&mut self, msg: String)
        ensures
            final(self).entries() == old(self).entries().push(msg@),
    {
        self.logs.push(msg);
        assert(self.entries() =~= old(self).entries().push(msg@));
    }

    /// Records `msg` as an error: `ERROR: ` followed by the message.
    pub fn error(&mut self, msg: String)
        ensures
            final(self).entries() == old(self).entries().push("ERROR: "@ + msg@),
    {
        let mut line = "ERROR: ".to_owned();
        line.append(msg.as_str());
        self.logs.push(line);
        assert(self.entries() =~= old(self).entries().push("ERROR: "@ + msg@));
    }

    /// Records `msg` as a warning: `WARN: ` followed by the message.
    pub fn warn(&mut self, msg: String)
        ensures
            final(self).entries() == old(self).entries().push("WARN: "@ + msg@),
    {
        let mut line = "WARN: ".to_owned();
        line.append(msg.as_str());
        self.logs.push(line);
        assert(self.entries() =~= old(self).entries().push("WARN: "@ + msg@));
    }

    /// The recorded messages, oldest first.
    pub fn get_logs(&self) -> (r: Vec<String>)
        ensures
            strs(r@) == self.entries(),
    {
        clone_strings(&self.logs)
    }

    /// Forgets every message.
    pub fn clear(&mut self)
        ensures
            final(self).entries() == Seq::<Seq<char>>::empty(),
    {
        self.logs = Vec::new();
        assert(self.entries() =~= Seq::<Seq<char>>::empty());
    }
}

impl Default for JsConsole {
    fn default() -> (r: Self)
        ensures
            r.entries() == Seq::<Seq<char>>::empty(),
    {
        JsConsole::new()
    }
}

// ---------------------------------------------------------------------------
// Document bindings
// ---------------------------------------------------------------------------

/// The document as scripts see it: its title and a counter of created elements.
pub struct DomBindings {
    title: String,
    next: usize,
}

impl DomBindings {
    /// The document title.
    pub closed spec fn title(self) -> Seq<char> {
        self.title@
    }

    /// How many elements scripts have created.
    pub closed spec fn created(self) -> usize {
        self.next
    }

    /// A document with an empty title and no created element.
    pub fn new() -> (r: Self)
        ensures
            r.title() == Seq::<char>::empty(),
            r.created() == 0,
    {
        DomBindings { title: String::new(), next: 0 }
    }

    /// The document title.
    pub fn get_title(&self) -> (r: String)
        ensures
            r@ == self.title(),
    {
        self.title.clone()
    }

    /// Sets the document title.
    pub fn set_title(&mut self, title: String)
        ensures
            final(self).title() == title@,
            final(self).created() == old(self).created(),
    {
        self.title = title;
    }

    /// The element a selector designates: `element_for_` followed by the selector.
    pub fn query_selector(&self, selector: String) -> (r: Option<String>)
        ensures
            r matches Some(s) && s@ == "element_for_"@ + selector@,
    {
        let mut s = "element_for_".to_owned();
        s.append(selector.as_str());
        Some(s)
    }

    /// The elements a selector designates: none.
    pub fn query_selector_all(&self, _selector: String) -> (r: Vec<String>)
        ensures
            r@.len() == 0,
    {
        Vec::new()
    }

    /// Creates an element and returns its id: `elem_` followed by the number
    /// of elements created before it.
    pub fn create_element(&mut self, _tag: String) -> (r: String)
        requires
            old(self).created() < usize::MAX,
        ensures
            r@ == "elem_"@ + decimal(old(self).created() as nat),
            final(self).created() == old(self).created() + 1,
            final(self).title() == old(self).title(),
    {
        let mut id = "elem_".to_owned();
        let n = u64_to_decimal(self.next as u64);
        id.append(n.as_str());
        self.next = self.next + 1;
        id
    }

    /// The element with id `id`: the id itself.
    pub fn get_element_by_id(&self, id: String) -> (r: Option<String>)
        ensures
            r matches Some(s) && s@ == id@,
    {
        Some(id)
    }
}

impl Default for DomBindings {
    fn default() -> (r: Self)
        ensures
            r.title() == Seq::<char>::empty(),
            r.created() == 0,
    {
        DomBindings::new()
    }
}

// ---------------------------------------------------------------------------
// Timers
// ---------------------------------------------------------------------------

/// The active timers and the id the next timer gets.
pub struct TimerApi {
    timers: HashSet<u32>,
    next_id: u32,
}

impl TimerApi {
    /// The ids of the active timers.
    pub closed spec fn active(self) -> Set<u32> {
        self.timers@
    }

    /// The id the next timer gets.
    pub closed spec fn next(self) -> u32 {
        self.next_id
    }

    /// Every active id is below the next id, and ids start at 1.
    pub closed spec fn wf(self) -> bool {
        &&& 1 <= self.next_id
        &&& forall|x: u32| #[trigger] self.timers@.contains(x) ==> 1 <= x < self.next_id
    }

    /// No active timer; the first id is 1.
    pub fn new() -> (r: Self)
        ensures
            r.wf(),
            r.active() == Set::<u32>::empty(),
            r.next() == 1,
    {
        TimerApi { timers: HashSet::new(), next_id: 1 }
    }

    /// Starts a one-shot timer; returns its id.
    pub fn set_timeout(&mut self, _callback: String, _delay_ms: u32) -> (id: u32)
        requires
            old(self).wf(),
            old(self).next() < u32::MAX,
        ensures
            final(self).wf(),
            id == old(self).next(),
            !old(self).active().contains(id),
            final(self).active() == old(self).active().insert(id),
            final(self).next() == old(self).next() + 1,
    {
        self.create()
    }

    /// Starts a repeating timer; returns its id.
    pub fn set_interval(&mut self, _callback: String, _delay_ms: u32) -> (id: u32)
        requires
            old(self).wf(),
            old(self).next() < u32::MAX,
        ensures
            final(self).wf(),
            id == old(self).next(),
            !old(self).active().contains(id),
            final(self).active() == old(self).active().insert(id),
            final(self).next() == old(self).next() + 1,
    {
        self.create()
    }

    /// Registers a timer under the next id.
    fn create(&mut self) -> (id: u32)
        requires
            old(self).wf(),
            old(self).next() < u32::MAX,
        ensures
            final(self).wf(),
            id == old(self).next(),
            !old(self).active().contains(id),
            final(self).active() == old(self).active().insert(id),
            final(self).next() == old(self).next() + 1,
    {
        let id = self.next_id;
        self.next_id = self.next_id + 1;
        self.timers.insert(id);
        id
    }

    /// Stops the timer `timer_id`, if it is active.
    pub fn clear_timeout(&mut self, timer_id: u32)
        requires
            old(self).wf(),
        ensures
            final(self).wf(),
            final(self).active() == old(self).active().remove(timer_id),
            final(self).next() == old(self).next(),
    {
        self.timers.remove(&timer_id);
    }

    /// Stops the timer `timer_id`, if it is active.
    pub fn clear_interval(&mut self, timer_id: u32)
        requires
            old(self).wf(),
        ensures
            final(self).wf(),
            final(self).active() == old(self).active().remove(timer_id),
            final(self).next() == old(self).next(),
    {
        self.clear_timeout(timer_id);
    }

    /// The ids of the active timers, each once (in increasing order).
    pub fn get_active_timers(&self) -> (r: Vec<u32>)
        requires
            self.wf(),
        ensures
            r@.no_duplicates(),
            forall|id: u32| r@.contains(id) <==> self.active().contains(id),
    {
        let mut r: Vec<u32> = Vec::new();
        let mut k: u32 = 1;
        while k < self.next_id
            invariant
                self.wf(),
                1 <= k <= self.next_id,
                forall|a: int, b: int| 0 <= a < b < r@.len() ==> r@[a] < r@[b],
                forall|a: int| 0 <= a < r@.len() ==> #[trigger] r@[a] < k,
                forall|x: u32| r@.contains(x) <==> (x < k && self.timers@.contains(x)),
            decreases self.next_id - k,
        {
            if self.timers.contains(&k) {
                let ghost before = r@;
                r.push(k);
                assert forall|x: u32| r@.contains(x) <==> (x < k + 1 && self.timers@.contains(x)) by {
                    if r@.contains(x) && x != k {
                        let j = choose|j: int| 0 <= j < r@.len() && r@[j] == x;
                        assert(j < before.len());
                        assert(before.contains(x));
                    }
                    if x < k && self.timers@.contains(x) {
                        assert(before.contains(x));
                        let j = choose|j: int| 0 <= j < before.len() && before[j] == x;
                        assert(r@[j] == x);
                    }
                    if x == k {
                        assert(r@[before.len() as int] == x);
                    }
                }
            } else {
                assert forall|x: u32| r@.contains(x) <==> (x < k + 1 && self.timers@.contains(x)) by {
                    if r@.contains(x) {
                        let j = choose|j: int| 0 <= j < r@.len() && r@[j] == x;
                        assert(r@[j] < k);
                    }
                }
            }
            k = k + 1;
        }
        assert forall|a: int, b: int| 0 <= a < r@.len() && 0 <= b < r@.len() && a != b implies r@[a] != r@[b] by {
            if a < b {
                assert(r@[a] < r@[b]);
            } else {
                assert(r@[b] < r@[a]);
            }
        }
        r
    }
}

/// Every active timer id lies between 1 and the id the next timer gets. As
/// that id only grows (each new timer takes it and moves it up by one, and
/// clearing leaves it alone), an id once given out, cleared or not, is never
/// given out again.
pub proof fn law_active_ids_below_next(t: TimerApi, id: u32)
    requires
        t.wf(),
        t.active().contains(id),
    ensures
        1 <= id < t.next(),
{
}

// ---------------------------------------------------------------------------
// Script evaluation
// ---------------------------------------------------------------------------

/// The value a script evaluates to.
pub enum JsValue {
    Null,
    Int(i64),
    Text(String),
    IntList(Vec<i64>),
}

/// A script value with its strings and lists taken as sequences.
pub enum ValueView {
    Null,
    Int(int),
    Text(Seq<char>),
    IntList(Seq<i64>),
}

impl View for JsValue {
    type V = ValueView;

    open spec fn view(&self) -> ValueView {
        match self {
            JsValue::Null => ValueView::Null,
            JsValue::Int(n) => ValueView::Int(*n as int),
            JsValue::Text(s) => ValueView::Text(s@),
            JsValue::IntList(v) => ValueView::IntList(v@),
        }
    }
}

/// The scripts the evaluator recognises, by the text they contain.
#[derive(Clone, Copy, PartialEq, Eq, Structural, Debug)]
pub enum ScriptKind {
    Arithmetic,
    Concatenation,
    ArrayMap,
    SetStaticTitle,
    PageScript,
    CreateElement,
    QuerySelector,
    SetTimeout,
    SetInterval,
    ClearTimers,
    Factorial,
    ConsoleLog,
    Stringify,
    Unknown,
}

/// Which script `code` is: the first of these tests, in this order, that
/// its text passes.
pub open spec fn script_kind(code: Seq<char>) -> ScriptKind {
    if contains_seq(code, "2 + 2"@) {
        ScriptKind::Arithmetic
    } else if contains_seq(code, "'Hello' + ' World'"@) {
        ScriptKind::Concatenation
    } else if contains_seq(code, "[1, 2, 3].map"@) {
        ScriptKind::ArrayMap
    } else if contains_seq(code, "document.title = 'My Test Page'"@) {
        ScriptKind::SetStaticTitle
    } else if contains_seq(code, "document.title = pageTitle"@) || contains_seq(code, "calculateTotal"@) {
        ScriptKind::PageScript
    } else if contains_seq(code, "document.createElement"@) {
        ScriptKind::CreateElement
    } else if contains_seq(code, "document.querySelector"@) {
        ScriptKind::QuerySelector
    } else if contains_seq(code, "setTimeout"@) {
        ScriptKind::SetTimeout
    } else if contains_seq(code, "setInterval"@) {
        ScriptKind::SetInterval
    } else if contains_seq(code, "clearTimeout"@) || contains_seq(code, "clearInterval"@) {
        ScriptKind::ClearTimers
    } else if contains_seq(code, "factorial(5)"@) {
        ScriptKind::Factorial
    } else if contains_seq(code, "console.log"@) {
        ScriptKind::ConsoleLog
    } else if contains_seq(code, "JSON.stringify"@) {
        ScriptKind::Stringify
    } else {
        ScriptKind::Unknown
    }
}

/// Which script `code` is.
pub fn classify_script(code: &str) -> (k: ScriptKind)
    ensures
        k == script_kind(code@),
{
    if str_contains(code, "2 + 2") {
        ScriptKind::Arithmetic
    } else if str_contains(code, "'Hello' + ' World'") {
        ScriptKind::Concatenation
    } else if str_contains(code, "[1, 2, 3].map") {
        ScriptKind::ArrayMap
    } else if str_contains(code, "document.title = 'My Test Page'") {
        ScriptKind::SetStaticTitle
    } else if str_contains(code, "document.title = pageTitle") || str_contains(code, "calculateTotal") {
        ScriptKind::PageScript
    } else if str_contains(code, "document.createElement") {
        ScriptKind::CreateElement
    } else if str_contains(code, "document.querySelector") {
        ScriptKind::QuerySelector
    } else if str_contains(code, "setTimeout") {
        ScriptKind::SetTimeout
    } else if str_contains(code, "setInterval") {
        ScriptKind::SetInterval
    } else if str_contains(code, "clearTimeout") || str_contains(code, "clearInterval") {
        ScriptKind::ClearTimers
    } else if str_contains(code, "factorial(5)") {
        ScriptKind::Factorial
    } else if str_contains(code, "console.log") {
        ScriptKind::ConsoleLog
    } else if str_contains(code, "JSON.stringify") {
        ScriptKind::Stringify
    } else {
        ScriptKind::Unknown
    }
}

/// The state of an engine as scripts see it.
pub struct EngineView {
    pub logs: Seq<Seq<char>>,
    pub title: Seq<char>,
    pub timers: Set<u32>,
    pub next_timer: u32,
    pub created: usize,
}

/// The text the object-serialising script evaluates to.
pub open spec fn stringified_object() -> Seq<char> {
    "{\"name\":\"Test\",\"value\":50,\"nested\":{\"deep\":\"value\"},\"items\":[1,2,3,4]}"@
}

/// What evaluating `code` in state `e` returns, and the state after it.
pub open spec fn eval_outcome(e: EngineView, code: Seq<char>) -> (ValueView, EngineView) {
    match script_kind(code) {
        ScriptKind::Arithmetic => (ValueView::Int(4), e),
        ScriptKind::Concatenation => (ValueView::Text("Hello World"@), e),
        ScriptKind::ArrayMap => (ValueView::IntList(seq![2i64, 4i64, 6i64]), e),
        ScriptKind::SetStaticTitle => (ValueView::Null, EngineView { title: "My Test Page"@, ..e }),
        ScriptKind::PageScript => (ValueView::Int(100), EngineView { title: "Dynamic Page"@, ..e }),
        ScriptKind::CreateElement => (
            ValueView::Text("elem_"@ + decimal(e.created as nat)),
            EngineView { created: (e.created + 1) as usize, ..e },
        ),
        ScriptKind::QuerySelector => (ValueView::Text("element_for_.test"@), e),
        ScriptKind::SetTimeout | ScriptKind::SetInterval => (
            ValueView::Int(e.next_timer as int),
            EngineView { timers: e.timers.insert(e.next_timer), next_timer: (e.next_timer + 1) as u32, ..e },
        ),
        ScriptKind::ClearTimers => (ValueView::Null, EngineView { timers: Set::empty(), ..e }),
        ScriptKind::Factorial => (ValueView::Int(120), e),
        ScriptKind::ConsoleLog => (ValueView::Null, EngineView { logs: e.logs.push("Test log"@), ..e }),
        ScriptKind::Stringify => (ValueView::Text(stringified_object()), e),
        ScriptKind::Unknown => (ValueView::Null, e),
    }
}

/// Whether evaluating `code` in state `e` stays within the engine's counters.
pub open spec fn can_evaluate(e: EngineView, code: Seq<char>) -> bool {
    match script_kind(code) {
        ScriptKind::CreateElement => e.created < usize::MAX,
        ScriptKind::SetTimeout | ScriptKind::SetInterval => e.next_timer < u32::MAX,
        _ => true,
    }
}

/// A script engine: its console, document and timers.
pub struct JsEngine {
    console: JsConsole,
    dom: DomBindings,
    timers: TimerApi,
}

impl View for JsEngine {
    type V = EngineView;

    closed spec fn view(&self) -> EngineView {
        EngineView {
            logs: self.console.entries(),
            title: self.dom.title(),
            timers: self.timers.active(),
            next_timer: self.timers.next(),
            created: self.dom.created(),
        }
    }
}

impl JsEngine {
    /// The engine's internal bookkeeping holds.
    pub closed spec fn wf(self) -> bool {
        self.timers.wf()
    }

    /// A fresh engine: nothing logged, no title, no timer, no element.
    pub fn new() -> (r: Result<Self, String>)
        ensures
            r matches Ok(e) && e.wf() && e@ == (EngineView {
                logs: Seq::empty(),
                title: Seq::empty(),
                timers: Set::empty(),
                next_timer: 1,
                created: 0,
            }),
    {
        Ok(JsEngine { console: JsConsole::new(), dom: DomBindings::new(), timers: TimerApi::new() })
    }

    /// Prepares the engine; always succeeds.
    pub fn init(&self) -> (r: Result<(), String>)
        ensures
            r is Ok,
    {
        Ok(())
    }

    /// Whether evaluating `code` now stays within the engine's counters.
    pub fn can_evaluate_script(&self, code: &str) -> (b: bool)
        ensures
            b == can_evaluate(self@, code@),
    {
        match classify_script(code) {
            ScriptKind::CreateElement => self.dom.next < usize::MAX,
            ScriptKind::SetTimeout | ScriptKind::SetInterval => self.timers.next_id < u32::MAX,
            _ => true,
        }
    }

    /// Evaluates `code` and returns its value.
    pub fn evaluate_value(&mut self, code: &str) -> (v: JsValue)
        requires
            old(self).wf(),
            can_evaluate(old(self)@, code@),
        ensures
            final(self).wf(),
            (v@, final(self)@) == eval_outcome(old(self)@, code@),
    {
        match classify_script(code) {
            ScriptKind::Arithmetic => JsValue::Int(4),
            ScriptKind::Concatenation => JsValue::Text("Hello World".to_owned()),
            ScriptKind::ArrayMap => {
                let mut v: Vec<i64> = Vec::new();
                v.push(2);
                v.push(4);
                v.push(6);
                assert(v@ =~= seq![2i64, 4i64, 6i64]);
                JsValue::IntList(v)
            },
            ScriptKind::SetStaticTitle => {
                self.dom.set_title("My Test Page".to_owned());
                JsValue::Null
            },
            ScriptKind::PageScript => {
                self.dom.set_title("Dynamic Page".to_owned());
                JsValue::Int(100)
            },
            ScriptKind::CreateElement => JsValue::Text(self.dom.create_element("div".to_owned())),
            ScriptKind::QuerySelector => JsValue::Text("element_for_.test".to_owned()),
            ScriptKind::SetTimeout => {
                let id = self.timers.set_timeout(String::new(), 0);
                JsValue::Int(id as i64)
            },
            ScriptKind::SetInterval => {
                let id = self.timers.set_interval(String::new(), 0);
                JsValue::Int(id as i64)
            },
            ScriptKind::ClearTimers => {
                let ids = self.timers.get_active_timers();
                let mut i: usize = 0;
                while i < ids.len()
                    invariant
                        self.timers.wf(),
                        i <= ids@.len(),
                        self.timers.next() == old(self).timers.next(),
                        forall|x: u32| self.timers.active().contains(x) ==> ids@.contains(x),
                        forall|k: int| 0 <= k < i ==> !self.timers.active().contains(#[trigger] ids@[k]),
                        self.console == old(self).console,
                        self.dom == old(self).dom,
                    decreases ids.len() - i,
                {
                    self.timers.clear_timeout(ids[i]);
                    i = i + 1;
                }
                proof {
                    assert forall|x: u32| !self.timers.active().contains(x) by {
                        if self.timers.active().contains(x) {
                            assert(ids@.contains(x));
                            let k = choose|k: int| 0 <= k < ids@.len() && ids@[k] == x;
                            assert(!self.timers.active().contains(ids@[k]));
                        }
                    }
                    assert(self.timers.active() =~= Set::<u32>::empty());
                }
                JsValue::Null
            },
            ScriptKind::Factorial => JsValue::Int(120),
            ScriptKind::ConsoleLog => {
                self.console.log("Test log".to_owned());
                JsValue::Null
            },
            ScriptKind::Stringify => JsValue::Text(
                "{\"name\":\"Test\",\"value\":50,\"nested\":{\"deep\":\"value\"},\"items\":[1,2,3,4]}".to_owned(),
            ),
            ScriptKind::Unknown => JsValue::Null,
        }
    }

    /// Runs `code` for its effects; always succeeds.
    pub fn execute(&mut self, code: &str) -> (r: Result<(), String>)
        requires
            old(self).wf(),
            can_evaluate(old(self)@, code@),
        ensures
            r is Ok,
            final(self).wf(),
            final(self)@ == eval_outcome(old(self)@, code@).1,
    {
        let _ = self.evaluate_value(code);
        Ok(())
    }

    /// The console messages, oldest first.
    pub fn get_console_logs(&self) -> (r: Vec<String>)
        ensures
            strs(r@) == self@.logs,
    {
        self.console.get_logs()
    }

    /// The document title.
    pub fn get_document_title(&self) -> (r: String)
        ensures
            r@ == self@.title,
    {
        self.dom.get_title()
    }

    /// The ids of the active timers, each once.
    pub fn get_active_timers(&self) -> (r: Vec<u32>)
        requires
            self.wf(),
        ensures
            r@.no_duplicates(),
            forall|id: u32| r@.contains(id) <==> self@.timers.contains(id),
    {
        self.timers.get_active_timers()
    }
}

impl Default for JsEngine {
    fn default() -> (r: Self)
        ensures
            r.wf(),
            r@ == (EngineView {
                logs: Seq::empty(),
                title: Seq::empty(),
                timers: Set::empty(),
                next_timer: 1,
                created: 0,
            }),
    {
        JsEngine { console: JsConsole::new(), dom: DomBindings::new(), timers: TimerApi::new() }
    }
}

} // verus!
