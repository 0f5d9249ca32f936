//! The document model: the elements an HTML source declares, the attribute
//! values read from their tags, and the selectors a style sheet names.
use vstd::prelude::*;
use crate::devtools::{match_positions, positions_from};
use crate::seqs::{keep, lemma_keep_step};
use crate::text::{
    chars_of, contains_seq, copy_range, find_char_exec, find_char_from, find_first, find_from_exec, lemma_find_char_from,
    lemma_find_from, occurs_at, occurs_at_exec, split_char, split_char_exec, string_of_chars, strs,
    trim_char, trim_start_char, trim_ws, trim_ws_exec, words, words_exec,
};

verus! {

/// An element of a document: its tag, `id` and classes.
#[derive(Clone, Debug)]
pub struct DomElement {
    pub tag_name: String,
    pub id: Option<String>,
    pub classes: Vec<String>,
    pub attributes: Vec<(String, String)>,
}

/// The elements of a document, in the order they were found.
#[derive(Clone, Debug)]
pub struct Document {
    pub elements: Vec<DomElement>,
}

/// An element with its strings taken as character sequences.
pub struct ElementView {
    pub tag_name: Seq<char>,
    pub id: Option<Seq<char>>,
    pub classes: Seq<Seq<char>>,
}

/// An optional string taken as a character sequence.
pub open spec fn opt_chars(o: Option<String>) -> Option<Seq<char>> {
    match o {
        Some(s) => Some(s@),
        None => None,
    }
}

impl View for DomElement {
    type V = ElementView;

    open spec fn view(&self) -> ElementView {
        ElementView { tag_name: self.tag_name@, id: opt_chars(self.id), classes: strs(self.classes@) }
    }
}

/// The tags the parser looks for, in the order it looks for them.
pub open spec fn element_tags() -> Seq<Seq<char>> {
    seq![
        "html"@, "head"@, "title"@, "body"@, "header"@, "main"@, "article"@, "footer"@, "div"@, "h1"@,
        "h2"@, "p"@,
    ]
}

/// The value of attribute `name` in the text of a tag: what lies between
/// the first `name="` and the next `"`.
pub open spec fn attr_value(tag: Seq<char>, name: Seq<char>) -> Option<Seq<char>> {
    let needle = name + "=\""@;
    let f = find_first(tag, needle);
    if f < 0 {
        None
    } else {
        let start = f + needle.len();
        let e = find_char_from(tag, '"', start);
        if e < 0 {
            None
        } else {
            Some(tag.subrange(start, e))
        }
    }
}

/// The text of the tag that starts at `p`: up to the next `>`, or to the end.
pub open spec fn tag_text(html: Seq<char>, p: int) -> Seq<char> {
    let e = find_char_from(html, '>', p);
    if e >= 0 {
        html.subrange(p, e)
    } else {
        html.subrange(p, html.len() as int)
    }
}

/// The element a tag `tag` found at `p` stands for.
pub open spec fn element_at(html: Seq<char>, tag: Seq<char>, p: int) -> ElementView {
    let text = tag_text(html, p);
    ElementView {
        tag_name: tag,
        id: attr_value(text, "id"@),
        classes: match attr_value(text, "class"@) {
            Some(v) => words(v),
            None => Seq::empty(),
        },
    }
}

/// The elements of every occurrence of `<tag` in `html`, in order.
pub open spec fn elements_for(html: Seq<char>, tag: Seq<char>) -> Seq<ElementView> {
    match_positions(html, "<"@ + tag).map_values(|p: int| element_at(html, tag, p))
}

/// The elements of the tags `tags`, tag by tag.
pub open spec fn elements_of_tags(html: Seq<char>, tags: Seq<Seq<char>>) -> Seq<ElementView>
    decreases tags.len(),
{
    if tags.len() == 0 {
        Seq::empty()
    } else {
        elements_of_tags(html, tags.drop_last()) + elements_for(html, tags.last())
    }
}

/// The elements a document declares.
pub open spec fn parsed_elements(html: Seq<char>) -> Seq<ElementView> {
    elements_of_tags(html, element_tags())
}

/// The elements of a list, as views.
pub open spec fn element_views(v: Seq<DomElement>) -> Seq<ElementView> {
    v.map_values(|e: DomElement| e@)
}

/// The tag the parser looks for in round `i`.
fn element_tag(i: usize) -> (r: &'static str)
    requires
        i < 12,
    ensures
        r@ == element_tags()[i as int],
{
    if i == 0 {
        "html"
    } else if i == 1 {
        "head"
    } else if i == 2 {
        "title"
    } else if i == 3 {
        "body"
    } else if i == 4 {
        "header"
    } else if i == 5 {
        "main"
    } else if i == 6 {
        "article"
    } else if i == 7 {
        "footer"
    } else if i == 8 {
        "div"
    } else if i == 9 {
        "h1"
    } else if i == 10 {
        "h2"
    } else {
        "p"
    }
}

/// The value of attribute `name` in the characters of a tag.
fn attr_in(tv: &Vec<char>, name: &str) -> (r: Option<String>)
    ensures
        opt_chars(r) == attr_value(tv@, name@),
{
    let mut needle = name.to_owned();
    needle.append("=\"");
    let nv = chars_of(needle.as_str());
    proof {
        reveal_strlit("=\"");
        lemma_find_from(tv@, nv@, 0);
    }
    assert(nv@ == name@ + "=\""@);
    match find_from_exec(tv, &nv, 0) {
        None => None,
        Some(f) => {
            assert(occurs_at(tv@, nv@, f as int));
            let tn = tv.len();
            let nn = nv.len();
            assert(f + nn <= tn);
            let start = f + nn;
            proof {
                lemma_find_char_from(tv@, '"', start as int);
            }
            match find_char_exec(tv, '"', start) {
                None => None,
                Some(e) => Some(string_of_chars(&copy_range(tv, start, e))),
            }
        },
    }
}

/// The value of attribute `name` in the text of a tag: what lies between
/// the first `name="` and the next `"`.
pub fn extract_attr(tag: &str, name: &str) -> (r: Option<String>)
    ensures
        opt_chars(r) == attr_value(tag@, name@),
{
    let tv = chars_of(tag);
    attr_in(&tv, name)
}

/// The words of `v`, as strings.
fn word_strings(v: &Vec<char>) -> (r: Vec<String>)
    ensures
        strs(r@) == words(v@),
{
    let ws = words_exec(v);
    let mut r: Vec<String> = Vec::new();
    let mut i: usize = 0;
    while i < ws.len()
        invariant
            ws@.len() == words(v@).len(),
            forall|k: int| 0 <= k < ws@.len() ==> (#[trigger] ws@[k])@ == words(v@)[k],
            i <= ws@.len(),
            strs(r@) == words(v@).subrange(0, i as int),
        decreases ws.len() - i,
    {
        let w = string_of_chars(&ws[i]);
        let ghost before = r@;
        r.push(w);
        proof {
            assert(strs(r@) =~= strs(before).push(w@));
            assert(words(v@).subrange(0, i + 1) =~= words(v@).subrange(0, i as int).push(words(v@)[i as int]));
        }
        i = i + 1;
    }
    assert(words(v@).subrange(0, words(v@).len() as int) =~= words(v@));
    r
}

/// The element of the tag `tag` found at `p`.
fn element_at_exec(hv: &Vec<char>, tag: &str, p: usize) -> (e: DomElement)
    requires
        p < hv@.len(),
    ensures
        e@ == element_at(hv@, tag@, p as int),
        e.attributes@.len() == 0,
{
    proof {
        lemma_find_char_from(hv@, '>', p as int);
    }
    let end = match find_char_exec(hv, '>', p) {
        Some(k) => k,
        None => hv.len(),
    };
    let text = copy_range(hv, p, end);
    assert(text@ == tag_text(hv@, p as int));
    let id = attr_in(&text, "id");
    let classes = match attr_in(&text, "class") {
        Some(v) => {
            let cv = chars_of(v.as_str());
            word_strings(&cv)
        },
        None => {
            let r: Vec<String> = Vec::new();
            assert(strs(r@) =~= Seq::<Seq<char>>::empty());
            r
        },
    };
    DomElement { tag_name: tag.to_owned(), id, classes, attributes: Vec::new() }
}

/// Reads the elements an HTML source declares: for each tag the parser
/// knows, in its order, every occurrence of `<` and the tag, with the `id`
/// and classes read from the tag's text.
pub fn parse_document(html: &str) -> (d: Document)
    ensures
        element_views(d.elements@) == parsed_elements(html@),
        forall|k: int| 0 <= k < d.elements@.len() ==> (#[trigger] d.elements@[k]).attributes@.len() == 0,
{
    let hv = chars_of(html);
    let n = hv.len();
    let mut out: Vec<DomElement> = Vec::new();
    let mut t: usize = 0;
    assert(element_tags().subrange(0, 0) =~= Seq::<Seq<char>>::empty());
    assert(element_views(out@) =~= Seq::<ElementView>::empty());
    while t < 12
        invariant
            hv@ == html@,
            n == hv@.len(),
            t <= 12,
            element_views(out@) == elements_of_tags(hv@, element_tags().subrange(0, t as int)),
            forall|k: int| 0 <= k < out@.len() ==> (#[trigger] out@[k]).attributes@.len() == 0,
        decreases 12 - t,
    {
        let tag = element_tag(t);
        let mut pat = "<".to_owned();
        pat.append(tag);
        let pv = chars_of(pat.as_str());
        let m = pv.len();
        let ghost s = hv@;
        let ghost pt = pv@;
        let ghost base = element_views(out@);
        let ghost mut pos: Seq<int> = Seq::empty();
        proof {
            reveal_strlit("<");
            assert(pt == "<"@ + tag@);
            assert(m >= 1);
        }
        if m <= n {
            let mut i: usize = 0;
            while i <= n - m
                invariant
                    hv@ == s,
                    n == s.len(),
                    pv@ == pt,
                    m == pt.len(),
                    1 <= m <= n,
                    i <= n - m + 1,
                    pos + positions_from(s, pt, i as int) == match_positions(s, pt),
                    element_views(out@) == base + pos.map_values(|p: int| element_at(s, tag@, p)),
                    forall|k: int| 0 <= k < out@.len() ==> (#[trigger] out@[k]).attributes@.len() == 0,
                decreases n - m + 1 - i,
            {
                if occurs_at_exec(&hv, &pv, i) {
                    let e = element_at_exec(&hv, tag, i);
                    let ghost before = out@;
                    out.push(e);
                    proof {
                        assert(pos.push(i as int) + positions_from(s, pt, i + 1) =~= pos + (seq![i as int]
                            + positions_from(s, pt, i + 1)));
                        assert(element_views(out@) =~= element_views(before).push(e@));
                        assert(pos.push(i as int).map_values(|p: int| element_at(s, tag@, p)) =~= pos.map_values(
                            |p: int| element_at(s, tag@, p),
                        ).push(element_at(s, tag@, i as int)));
                        pos = pos.push(i as int);
                        assert forall|k: int| 0 <= k < out@.len() implies (#[trigger] out@[k]).attributes@.len()
                            == 0 by {
                            if k < before.len() {
                                assert(out@[k] == before[k]);
                            }
                        }
                    }
                }
                i = i + 1;
            }
            proof {
                assert(positions_from(s, pt, i as int) =~= Seq::<int>::empty());
                assert(pos =~= match_positions(s, pt));
            }
        } else {
            proof {
                assert(match_positions(s, pt) =~= Seq::<int>::empty());
                assert(pos.map_values(|p: int| element_at(s, tag@, p)) =~= Seq::<ElementView>::empty());
                assert(base + Seq::<ElementView>::empty() =~= base);
            }
        }
        proof {
            let q = element_tags().subrange(0, t + 1);
            assert(q.drop_last() =~= element_tags().subrange(0, t as int));
            assert(q.last() == tag@);
            assert(elements_for(s, tag@) == pos.map_values(|p: int| element_at(s, tag@, p)));
        }
        t = t + 1;
    }
    assert(element_tags().subrange(0, 12) =~= element_tags());
    Document { elements: out }
}

// ---------------------------------------------------------------------------
// Style sheets
// ---------------------------------------------------------------------------

/// The selector a piece of a style sheet names: trimmed, stripped of
/// leading `}`, trimmed again.
pub open spec fn selector_of(piece: Seq<char>) -> Seq<char> {
    trim_ws(trim_start_char(trim_ws(piece), '}'))
}

/// Every other piece, starting with the first.
pub open spec fn even_pieces(ps: Seq<Seq<char>>) -> Seq<Seq<char>> {
    Seq::new(((ps.len() + 1) / 2) as nat, |i: int| ps[2 * i])
}

/// Whether a selector is non-empty.
pub open spec fn nonempty() -> spec_fn(Seq<char>) -> bool {
    |s: Seq<char>| s.len() > 0
}

/// The selectors a style sheet names: `default` for a blank sheet;
/// otherwise, of the pieces between `{`, every other one from the first,
/// read as a selector, keeping the non-empty ones.
pub open spec fn sheet_selectors(css: Seq<char>) -> Seq<Seq<char>> {
    if trim_ws(css).len() == 0 {
        seq!["default"@]
    } else {
        keep(even_pieces(split_char(css, '{')).map_values(|p: Seq<char>| selector_of(p)), nonempty())
    }
}

/// The selector that a piece of a style sheet names.
fn selector_exec(piece: &Vec<char>) -> (r: Vec<char>)
    ensures
        r@ == selector_of(piece@),
{
    let a = trim_ws_exec(piece);
    let n = a.len();
    let mut i: usize = 0;
    while i < n && a[i] == '}'
        invariant
            n == a@.len(),
            i <= n,
            forall|k: int| 0 <= k < i ==> a@[k] == '}',
        decreases n - i,
    {
        i = i + 1;
    }
    proof {
        crate::text::lemma_trim_start(a@, '}', i as int);
    }
    let b = copy_range(&a, i, n);
    trim_ws_exec(&b)
}

/// The selectors a style sheet names, in order.
pub fn style_selectors(css: &str) -> (r: Vec<String>)
    ensures
        strs(r@) == sheet_selectors(css@),
{
    let cv = chars_of(css);
    let t = trim_ws_exec(&cv);
    if t.len() == 0 {
        let mut r: Vec<String> = Vec::new();
        r.push("default".to_owned());
        assert(strs(r@) =~= seq!["default"@]);
        return r;
    }
    let pieces = split_char_exec(&cv, '{');
    let ghost ps = split_char(css@, '{');
    let ghost sels = even_pieces(ps).map_values(|p: Seq<char>| selector_of(p));
    let mut r: Vec<String> = Vec::new();
    let mut k: usize = 0;
    let count = pieces.len() / 2 + pieces.len() % 2;
    assert(sels.subrange(0, 0) =~= Seq::<Seq<char>>::empty());
    while k < count
        invariant
            count == sels.len(),
            count == pieces@.len() / 2 + pieces@.len() % 2,
            pieces@.len() == ps.len(),
            forall|j: int| 0 <= j < pieces@.len() ==> (#[trigger] pieces@[j])@ == ps[j],
            sels == even_pieces(ps).map_values(|p: Seq<char>| selector_of(p)),
            sels.len() == (ps.len() + 1) / 2,
            k <= sels.len(),
            strs(r@) == keep(sels.subrange(0, k as int), nonempty()),
        decreases count - k,
    {
        proof {
            lemma_keep_step(sels, nonempty(), k as int);
        }
        assert(2 * k < pieces@.len()) by (nonlinear_arith)
            requires
                k < count,
                count == pieces@.len() / 2 + pieces@.len() % 2,
        ;
        let plen = pieces.len();
        assert(2 * k < plen);
        let idx: usize = 2 * k;
        let sel = selector_exec(&pieces[idx]);
        assert(sel@ == sels[k as int]);
        if sel.len() > 0 {
            let s = string_of_chars(&sel);
            let ghost before = r@;
            r.push(s);
            assert(strs(r@) =~= strs(before).push(s@));
        }
        k = k + 1;
    }
    assert(sels.subrange(0, sels.len() as int) =~= sels);
    r
}

/// An element's id and classes are read from its own tag alone, the text
/// from its start up to the first `>`: two documents that agree on that
/// text give the element the same id and classes, whatever follows it.
pub proof fn law_attributes_come_from_own_tag(h1: Seq<char>, h2: Seq<char>, tag: Seq<char>, p: int, e: int)
    requires
        0 <= p <= e,
        e < h1.len(),
        e < h2.len(),
        h1[e] == '>',
        forall|k: int| p <= k < e ==> h1[k] != '>',
        h1.subrange(p, e + 1) == h2.subrange(p, e + 1),
    ensures
        element_at(h1, tag, p).id == element_at(h2, tag, p).id,
        element_at(h1, tag, p).classes == element_at(h2, tag, p).classes,
        tag_text(h1, p) == h1.subrange(p, e),
{
    assert forall|k: int| p <= k <= e implies h2[k] == h1[k] by {
        assert(h1.subrange(p, e + 1)[k - p] == h2.subrange(p, e + 1)[k - p]);
        assert(h1.subrange(p, e + 1)[k - p] == h1[k]);
        assert(h2.subrange(p, e + 1)[k - p] == h2[k]);
    }
    lemma_find_char_from(h1, '>', p);
    lemma_find_char_from(h2, '>', p);
    let r1 = find_char_from(h1, '>', p);
    let r2 = find_char_from(h2, '>', p);
    assert(r1 == e);
    assert(r2 == e);
    assert(h1.subrange(p, e) =~= h2.subrange(p, e));
}

/// An attribute's value is the quoted text after the first `name="` of the
/// tag: the tag holds `name="value"`, the value holds no `"`, and a tag
/// without `name="` has no value for it.
pub proof fn law_attribute_value_is_quoted(tag: Seq<char>, name: Seq<char>)
    ensures
        attr_value(tag, name) matches Some(v) ==> {
            &&& contains_seq(tag, name + "=\""@ + v + "\""@)
            &&& forall|k: int| 0 <= k < v.len() ==> v[k] != '"'
        },
        !contains_seq(tag, name + "=\""@) ==> attr_value(tag, name) is None,
{
    let needle = name + "=\""@;
    lemma_find_from(tag, needle, 0);
    let f = find_first(tag, needle);
    if f >= 0 {
        let start = f + needle.len();
        lemma_find_char_from(tag, '"', start);
        let e = find_char_from(tag, '"', start);
        if e >= 0 {
            let v = tag.subrange(start, e);
            let whole = needle + v + "\""@;
            reveal_strlit("\"");
            assert(tag.subrange(f, e + 1) =~= whole) by {
                assert(tag.subrange(f, start) == needle);
            }
            assert(occurs_at(tag, whole, f));
        }
    } else {
        if contains_seq(tag, needle) {
            let k = choose|k: int| #[trigger] occurs_at(tag, needle, k);
            assert(!occurs_at(tag, needle, k));
        }
    }
}

} // verus!
