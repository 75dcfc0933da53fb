//! XML events, and the tokenizer that produces them.
//!
//! The decoder works on plain owned events: tag names, attribute pairs with
//! their values unescaped, text runs, and the end of the stream.  One
//! trusted call tokenizes the whole input; its result is a function of the
//! bytes alone and carries the name [`xml_events_of`].  The reader hands
//! text through untrimmed and in pieces (a run split at each character or
//! entity reference), so verified code then joins the pieces of every text
//! node and trims the node whole; [`spec_join_texts`] says exactly what
//! that pass does.

use vstd::prelude::*;
use quick_xml::events::Event;
use crate::error::{OdsError, OdsErrorView};

verus! {

pub struct XmlAttr {
    pub key: String,
    pub value: String,
}

pub struct AttrView {
    pub key: Seq<char>,
    pub value: Seq<char>,
}

impl View for XmlAttr {
    type V = AttrView;

    open spec fn view(&self) -> AttrView {
        AttrView { key: self.key@, value: self.value@ }
    }
}

impl DeepView for XmlAttr {
    type V = AttrView;

    open spec fn deep_view(&self) -> AttrView {
        self.view()
    }
}

pub enum XmlEvent {
    Start { name: String, attrs: Vec<XmlAttr> },
    Empty { name: String, attrs: Vec<XmlAttr> },
    End { name: String },
    Text { text: String },
    Eof,
    Other,
}

pub enum EventView {
    Start(Seq<char>, Seq<AttrView>),
    Empty(Seq<char>, Seq<AttrView>),
    End(Seq<char>),
    Text(Seq<char>),
    Eof,
    Other,
}

impl View for XmlEvent {
    type V = EventView;

    open spec fn view(&self) -> EventView {
        match self {
            XmlEvent::Start { name, attrs } => EventView::Start(name@, attrs.deep_view()),
            XmlEvent::Empty { name, attrs } => EventView::Empty(name@, attrs.deep_view()),
            XmlEvent::End { name } => EventView::End(name@),
            XmlEvent::Text { text } => EventView::Text(text@),
            XmlEvent::Eof => EventView::Eof,
            XmlEvent::Other => EventView::Other,
        }
    }
}

impl DeepView for XmlEvent {
    type V = EventView;

    open spec fn deep_view(&self) -> EventView {
        self.view()
    }
}

#[verifier::external_type_specification]
#[verifier::external_body]
#[verifier::reject_recursive_types(R)]
pub struct ExXmlReader<R>(quick_xml::Reader<R>);

#[verifier::external_type_specification]
#[verifier::external_body]
pub struct ExBytesStart<'a>(quick_xml::events::BytesStart<'a>);

#[verifier::external_type_specification]
#[verifier::external_body]
pub struct ExBytesRef<'a>(quick_xml::events::BytesRef<'a>);

/// Relies on quick_xml::Reader::from_reader: a reader over the byte slice,
/// with its default configuration.
#[verifier::external_body]
fn xml_reader<'a>(bytes: &'a [u8]) -> (r: quick_xml::Reader<&'a [u8]>) {
    quick_xml::Reader::from_reader(bytes)
}

/// Relies on BytesStart::name and Attributes: the opening event with its
/// qualified tag name and the attributes in document order, values
/// unescaped; `None` on a malformed attribute list.
#[verifier::external_body]
fn tag_event(t: &quick_xml::events::BytesStart, empty: bool) -> (r: Option<XmlEvent>) {
    let name = t.name().0.to_string();
    let mut attrs: Vec<XmlAttr> = Vec::new();
    for a in t.attributes().with_checks(false) {
        let a = a.ok()?;
        let value = a.unescape_value().ok()?.into_owned();
        attrs.push(XmlAttr { key: a.key.0.to_string(), value });
    }
    Some(if empty { XmlEvent::Empty { name, attrs } } else { XmlEvent::Start { name, attrs } })
}

/// Relies on BytesRef::resolve_char_ref and resolve_predefined_entity: the
/// text a general reference stands for; `None` for an unknown entity.
#[verifier::external_body]
fn resolve_ref(t: &quick_xml::events::BytesRef) -> (r: Option<String>) {
    match t.resolve_char_ref() {
        Err(_) => None,
        Ok(Some(c)) => Some(c.to_string()),
        Ok(None) => quick_xml::escape::resolve_predefined_entity(t).map(|s| s.to_string()),
    }
}

/// Relies on quick_xml::Reader::read_event: the next event of the stream as
/// plain values; a general reference comes back as the text it stands for;
/// `None` reports a malformed document.
#[verifier::external_body]
fn next_xml_event<'a>(r: &mut quick_xml::Reader<&'a [u8]>) -> (e: Option<XmlEvent>) {
    match r.read_event() {
        Err(_) => None,
        Ok(Event::Start(t)) => tag_event(&t, false),
        Ok(Event::Empty(t)) => tag_event(&t, true),
        Ok(Event::End(t)) => Some(XmlEvent::End { name: t.name().0.to_string() }),
        Ok(Event::Text(t)) => Some(XmlEvent::Text { text: t.xml10_content().into_owned() }),
        Ok(Event::GeneralRef(t)) => resolve_ref(&t).map(|text| XmlEvent::Text { text }),
        Ok(Event::Eof) => Some(XmlEvent::Eof),
        Ok(_) => Some(XmlEvent::Other),
    }
}

/// The event list a byte sequence tokenizes to, up to and including the
/// end-of-stream marker, or nothing when the document is malformed.
/// Tokenizing the same bytes gives the same events, in every process and on
/// every machine: the reader's configuration is fixed, and nothing but its
/// input feeds it.
pub uninterp spec fn xml_events_of(b: Seq<u8>) -> Option<Seq<EventView>>;

/// Relies on quick_xml::Reader::read_event, driven over the whole input:
/// every event of the document, ending with the end-of-stream marker;
/// `None` on the first malformed piece.  Only the whole run is a function
/// of the bytes, which is why the one trusted call spans the stream.
#[verifier::external_body]
fn tokenize(bytes: &[u8]) -> (r: Option<Vec<XmlEvent>>)
    ensures
        r.deep_view() == xml_events_of(bytes@),
{
    let mut reader = xml_reader(bytes);
    let mut evs: Vec<XmlEvent> = Vec::new();
    loop {
        match next_xml_event(&mut reader) {
            None => {
                return None;
            },
            Some(XmlEvent::Eof) => {
                evs.push(XmlEvent::Eof);
                return Some(evs);
            },
            Some(e) => evs.push(e),
        }
    }
}

// ---------------------------------------------------------------------------
// joining text nodes

/// XML whitespace.
pub open spec fn is_xml_ws(c: char) -> bool {
    c == ' ' || c == '\t' || c == '\r' || c == '\n'
}

pub open spec fn ws_prefix_len(s: Seq<char>) -> int
    decreases s.len(),
{
    if s.len() == 0 || !is_xml_ws(s[0]) {
        0
    } else {
        1 + ws_prefix_len(s.drop_first())
    }
}

pub open spec fn ws_suffix_len(s: Seq<char>) -> int
    decreases s.len(),
{
    if s.len() == 0 || !is_xml_ws(s.last()) {
        0
    } else {
        1 + ws_suffix_len(s.drop_last())
    }
}

/// The text with XML whitespace taken off both ends.
pub open spec fn spec_trim_xml(s: Seq<char>) -> Seq<char> {
    let t = s.skip(ws_prefix_len(s));
    t.take(t.len() - ws_suffix_len(t))
}

proof fn lemma_ws_prefix_len_of(s: Seq<char>, k: int)
    requires
        0 <= k <= s.len(),
        forall|j: int| 0 <= j < k ==> is_xml_ws(#[trigger] s[j]),
        k == s.len() || !is_xml_ws(s[k]),
    ensures
        ws_prefix_len(s) == k,
    decreases k,
{
    if k == 0 {
    } else {
        assert(is_xml_ws(s[0]));
        lemma_ws_prefix_len_of(s.drop_first(), k - 1);
    }
}

proof fn lemma_ws_suffix_len_of(s: Seq<char>, k: int)
    requires
        0 <= k <= s.len(),
        forall|j: int| s.len() - k <= j < s.len() ==> is_xml_ws(#[trigger] s[j]),
        k == s.len() || !is_xml_ws(s[s.len() - k - 1]),
    ensures
        ws_suffix_len(s) == k,
    decreases k,
{
    if k == 0 {
    } else {
        assert(is_xml_ws(s.last()));
        lemma_ws_suffix_len_of(s.drop_last(), k - 1);
    }
}

/// Whether the character at an index is XML whitespace.
fn ws_at(s: &str, i: usize) -> (r: bool)
    requires
        i < s@.len(),
    ensures
        r == is_xml_ws(s@[i as int]),
{
    let c = s.get_char(i);
    c == ' ' || c == '\t' || c == '\r' || c == '\n'
}

fn trim_xml(s: &str) -> (r: String)
    ensures
        r@ == spec_trim_xml(s@),
{
    let n = s.unicode_len();
    let mut a: usize = 0;
    while a < n && ws_at(s, a)
        invariant
            0 <= a <= n == s@.len(),
            forall|j: int| 0 <= j < a ==> is_xml_ws(#[trigger] s@[j]),
        decreases n - a,
    {
        a = a + 1;
    }
    proof {
        lemma_ws_prefix_len_of(s@, a as int);
    }
    let ghost t = s@.skip(a as int);
    let mut b: usize = n;
    while b > a && ws_at(s, b - 1)
        invariant
            a <= b <= n == s@.len(),
            forall|j: int| b <= j < n ==> is_xml_ws(#[trigger] s@[j]),
        decreases b,
    {
        b = b - 1;
    }
    proof {
        assert(forall|j: int|
            t.len() - (n - b) <= j < t.len() ==> is_xml_ws(#[trigger] t[j]));
        if b > a {
            assert(t[t.len() - (n - b) - 1] == s@[b - 1]);
        }
        lemma_ws_suffix_len_of(t, n - b);
    }
    let r = s.substring_char(a, b).to_owned();
    proof {
        assert(r@ =~= t.take(t.len() - ws_suffix_len(t)));
    }
    r
}

/// Closes the text node under assembly: trimmed whole, dropped when
/// nothing is left.
pub open spec fn spec_join_flush(out: Seq<EventView>, pending: Option<Seq<char>>) -> Seq<
    EventView,
> {
    match pending {
        None => out,
        Some(p) => {
            let t = spec_trim_xml(p);
            if t.len() > 0 {
                out.push(EventView::Text(t))
            } else {
                out
            }
        },
    }
}

/// One event of the joining pass: text pieces accumulate; any other event
/// closes the pending node first.
pub open spec fn spec_join_step(
    out: Seq<EventView>,
    pending: Option<Seq<char>>,
    ev: EventView,
) -> (Seq<EventView>, Option<Seq<char>>) {
    match ev {
        EventView::Text(t) => (
            out,
            Some(
                match pending {
                    Some(c) => c + t,
                    None => t,
                },
            ),
        ),
        _ => (spec_join_flush(out, pending).push(ev), None),
    }
}

pub open spec fn spec_join_run(evs: Seq<EventView>) -> (Seq<EventView>, Option<Seq<char>>)
    decreases evs.len(),
{
    if evs.len() == 0 {
        (Seq::empty(), None)
    } else {
        let st = spec_join_run(evs.drop_last());
        spec_join_step(st.0, st.1, evs.last())
    }
}

/// The event list with every text node whole: consecutive text pieces are
/// joined, each completed node is trimmed of surrounding XML whitespace,
/// and nodes that trim to nothing are dropped.
pub open spec fn spec_join_texts(evs: Seq<EventView>) -> Seq<EventView> {
    let st = spec_join_run(evs);
    spec_join_flush(st.0, st.1)
}

fn dup_attrs(attrs: &Vec<XmlAttr>) -> (r: Vec<XmlAttr>)
    ensures
        r.deep_view() == attrs.deep_view(),
{
    let mut r: Vec<XmlAttr> = Vec::new();
    let mut i: usize = 0;
    while i < attrs.len()
        invariant
            0 <= i <= attrs.len(),
            r.deep_view() == attrs.deep_view().take(i as int),
        decreases attrs.len() - i,
    {
        let ghost prev = r.deep_view();
        let a = &attrs[i];
        r.push(XmlAttr { key: a.key.clone(), value: a.value.clone() });
        proof {
            assert(r.deep_view().len() == prev.len() + 1);
            assert(prev.len() == i as int);
            assert(forall|j: int| 0 <= j < prev.len() ==> #[trigger] r.deep_view()[j] == prev[j]);
            assert(r.deep_view()[i as int] == r@[i as int].deep_view());
            assert(r@[i as int].deep_view() == attrs.deep_view()[i as int]);
            assert(r.deep_view() =~= attrs.deep_view().take(i + 1));
        }
        i = i + 1;
    }
    proof {
        assert(attrs.deep_view().take(attrs@.len() as int) =~= attrs.deep_view());
    }
    r
}

/// A copy with the same view.
fn dup_event(e: &XmlEvent) -> (r: XmlEvent)
    ensures
        r.deep_view() == e.deep_view(),
{
    match e {
        XmlEvent::Start { name, attrs } => XmlEvent::Start {
            name: name.clone(),
            attrs: dup_attrs(attrs),
        },
        XmlEvent::Empty { name, attrs } => XmlEvent::Empty {
            name: name.clone(),
            attrs: dup_attrs(attrs),
        },
        XmlEvent::End { name } => XmlEvent::End { name: name.clone() },
        XmlEvent::Text { text } => XmlEvent::Text { text: text.clone() },
        XmlEvent::Eof => XmlEvent::Eof,
        XmlEvent::Other => XmlEvent::Other,
    }
}

/// Joins the text pieces of every node and trims each node whole.
fn join_texts(events: &Vec<XmlEvent>) -> (r: Vec<XmlEvent>)
    ensures
        r.deep_view() == spec_join_texts(events.deep_view()),
{
    let ghost evs = events.deep_view();
    let mut out: Vec<XmlEvent> = Vec::new();
    let mut pending: Option<String> = None;
    let mut i: usize = 0;
    while i < events.len()
        invariant
            0 <= i <= events.len(),
            evs == events.deep_view(),
            (out.deep_view(), pending.deep_view()) == spec_join_run(evs.take(i as int)),
        decreases events.len() - i,
    {
        proof {
            assert(evs.take(i + 1).drop_last() =~= evs.take(i as int));
            assert(evs.take(i + 1).last() == evs[i as int]);
        }
        match &events[i] {
            XmlEvent::Text { text } => {
                pending = crate::text_append(pending, text.as_str());
            },
            ev => {
                match pending {
                    Some(node) => {
                        let trimmed = trim_xml(node.as_str());
                        if trimmed.unicode_len() > 0 {
                            let ghost prev = out.deep_view();
                            out.push(XmlEvent::Text { text: trimmed });
                            proof {
                                assert(forall|j: int|
                                    0 <= j < prev.len() ==> #[trigger] out.deep_view()[j]
                                        == prev[j]);
                                assert(out@.last().deep_view() is Text);
                                assert(out.deep_view() =~= prev.push(
                                    out@.last().deep_view(),
                                ));
                            }
                        }
                    },
                    None => {},
                }
                pending = None;
                let ghost prev = out.deep_view();
                out.push(dup_event(ev));
                proof {
                    assert(forall|j: int|
                        0 <= j < prev.len() ==> #[trigger] out.deep_view()[j] == prev[j]);
                    assert(out@.last().deep_view() == evs[i as int]);
                    assert(out.deep_view() =~= prev.push(evs[i as int]));
                }
            },
        }
        i = i + 1;
    }
    proof {
        assert(evs.take(events@.len() as int) =~= evs);
    }
    match pending {
        Some(node) => {
            let trimmed = trim_xml(node.as_str());
            if trimmed.unicode_len() > 0 {
                let ghost prev = out.deep_view();
                out.push(XmlEvent::Text { text: trimmed });
                proof {
                    assert(forall|j: int|
                        0 <= j < prev.len() ==> #[trigger] out.deep_view()[j] == prev[j]);
                    assert(out@.last().deep_view() is Text);
                    assert(out.deep_view() =~= prev.push(out@.last().deep_view()));
                }
            }
        },
        None => {},
    }
    out
}

/// Tokenizes a whole document into owned events, text nodes whole and
/// trimmed.  Success and failure are exactly those of tokenization: the
/// result is the joining pass over the document's event list, and the one
/// error comes exactly when the bytes do not tokenize.
pub fn read_events(bytes: &[u8]) -> (r: Result<Vec<XmlEvent>, OdsError>)
    ensures
        match r {
            Ok(evs) => xml_events_of(bytes@) is Some && evs.deep_view() == spec_join_texts(
                xml_events_of(bytes@).unwrap(),
            ),
            Err(e) => xml_events_of(bytes@) is None && e@ == OdsErrorView::MalformedXml(
                "event stream"@,
            ),
        },
{
    let raw = match tokenize(bytes) {
        Some(v) => v,
        None => {
            return Err(OdsError::MalformedXml("event stream".to_owned()));
        },
    };
    Ok(join_texts(&raw))
}

} // verus!
