//! Walking the events of an XML document: the element stack, skipping an
//! element, reading its text, and stepping from child element to child element.

use vstd::prelude::*;

verus! {

/// An event of an XML document: the start of an element with its name and
/// attributes, the end of an element, character data, an error of the
/// parser (after which no event follows), or any other event.
pub enum XmlEvent {
    StartElement(String, Vec<(String, String)>),
    EndElement(String),
    Characters(String),
    Error,
    Other,
}

/// The model of an event.
pub enum XmlEventV {
    StartElement(Seq<char>, Seq<(Seq<char>, Seq<char>)>),
    EndElement(Seq<char>),
    Characters(Seq<char>),
    Error,
    Other,
}

/// The model of a list of attributes.
pub open spec fn attrs_view(a: Seq<(String, String)>) -> Seq<(Seq<char>, Seq<char>)> {
    a.map_values(|p: (String, String)| (p.0@, p.1@))
}

impl View for XmlEvent {
    type V = XmlEventV;

    open spec fn view(&self) -> XmlEventV {
        match self {
            XmlEvent::StartElement(n, a) => XmlEventV::StartElement(n@, attrs_view(a@)),
            XmlEvent::EndElement(n) => XmlEventV::EndElement(n@),
            XmlEvent::Characters(t) => XmlEventV::Characters(t@),
            XmlEvent::Error => XmlEventV::Error,
            XmlEvent::Other => XmlEventV::Other,
        }
    }
}

/// The models of a list of events.
pub open spec fn events_view(v: Seq<XmlEvent>) -> Seq<XmlEventV> {
    v.map_values(|e: XmlEvent| e@)
}

/// The events that the `xml-rs` pull parser gives for the document `bytes`,
/// in order, ending with an error where the document has one.
pub uninterp spec fn xml_events_of(bytes: Seq<u8>) -> Seq<XmlEventV>;

/// The events of the document `bytes`, from `xml::reader::EventReader`:
/// start and end of elements with their local names, character data, and
/// the parser's error as the last event where there is one. What the parser
/// reports is not restated here; the result is named by `xml_events_of`.
#[verifier::external_body]
pub(crate) fn xml_events(bytes: &[u8]) -> (r: Vec<XmlEvent>)
    ensures
        events_view(r@) == xml_events_of(bytes@),
{
    let mut out = Vec::new();
    for ev in xml::reader::EventReader::new(bytes) {
        out.push(match ev {
            Ok(xml::reader::XmlEvent::StartElement { name, attributes, .. }) => XmlEvent::StartElement(
                name.local_name,
                attributes.into_iter().map(|a| (a.name.local_name, a.value)).collect(),
            ),
            Ok(xml::reader::XmlEvent::EndElement { name }) => XmlEvent::EndElement(name.local_name),
            Ok(xml::reader::XmlEvent::Characters(text)) => XmlEvent::Characters(text),
            Ok(_) => XmlEvent::Other,
            Err(_) => XmlEvent::Error,
        });
    }
    out
}

/// The name of a start or end event.
pub open spec fn ev_name(e: XmlEventV) -> Seq<char> {
    match e {
        XmlEventV::StartElement(n, _) => n,
        XmlEventV::EndElement(n) => n,
        _ => Seq::empty(),
    }
}

/// Whether, from event `i` on, with the open elements `names`, every end
/// event closes the innermost open element.
pub open spec fn ends_match(evs: Seq<XmlEventV>, i: int, names: Seq<Seq<char>>) -> bool
    decreases evs.len() - i,
{
    if i < 0 || i >= evs.len() {
        true
    } else {
        match evs[i] {
            XmlEventV::StartElement(n, _) => ends_match(evs, i + 1, names.push(n)),
            XmlEventV::EndElement(n) => names.len() > 0 && names.last() == n && ends_match(evs, i + 1, names.drop_last()),
            _ => ends_match(evs, i + 1, names),
        }
    }
}

/// The names held by a stack of references to names.
pub open spec fn names_of(s: Seq<&String>) -> Seq<Seq<char>> {
    s.map_values(|n: &String| n@)
}

/// Whether every end event of `v` closes the innermost open element.
pub fn check_nesting(v: &Vec<XmlEvent>) -> (r: bool)
    ensures
        r == ends_match(events_view(v@), 0, Seq::empty()),
{
    let ghost evs = events_view(v@);
    let mut open: Vec<&String> = Vec::new();
    let mut i: usize = 0;
    assert(names_of(open@) =~= Seq::<Seq<char>>::empty());
    while i < v.len()
        invariant
            0 <= i <= v@.len(),
            evs == events_view(v@),
            ends_match(evs, 0, Seq::empty()) == ends_match(evs, i as int, names_of(open@)),
        decreases v@.len() - i,
    {
        let ghost names = names_of(open@);
        assert(evs[i as int] == v@[i as int]@);
        match &v[i] {
            XmlEvent::StartElement(n, _) => {
                open.push(n);
                assert(names_of(open@) =~= names.push(n@));
            },
            XmlEvent::EndElement(n) => {
                let k = open.len();
                if k == 0 {
                    return false;
                }
                if !crate::text::str_eq(open[k - 1].as_str(), n.as_str()) {
                    return false;
                }
                open.pop();
                assert(names_of(open@) =~= names.drop_last());
            },
            _ => {},
        }
        i = i + 1;
    }
    true
}

/// The state of a walk: the next event, and the positions of the start
/// events of the open elements.
pub struct St {
    pub pos: int,
    pub stack: Seq<int>,
}

/// One step of the walk: the position of the event taken, where there is
/// one, and the state after it.
pub open spec fn st_next(evs: Seq<XmlEventV>, st: St) -> (Option<int>, St) {
    if st.pos < 0 || st.pos >= evs.len() {
        (None, st)
    } else {
        match evs[st.pos] {
            XmlEventV::StartElement(_, _) => (Some(st.pos), St { pos: st.pos + 1, stack: st.stack.push(st.pos) }),
            XmlEventV::EndElement(_) => (Some(st.pos), St { pos: st.pos + 1, stack: st.stack.drop_last() }),
            _ => (Some(st.pos), St { pos: st.pos + 1, stack: st.stack }),
        }
    }
}

/// The walk from `st` to the end of the element open at depth `depth`;
/// `Err` where the events run out first.
pub open spec fn skip_loop(evs: Seq<XmlEventV>, st: St, depth: int) -> Result<St, ()>
    decreases evs.len() - st.pos,
{
    if st.stack.len() < depth {
        Ok(st)
    } else if st.pos < 0 || st.pos >= evs.len() {
        Err(())
    } else {
        skip_loop(evs, st_next(evs, st).1, depth)
    }
}

/// The character data from `st` to the end of the element open at depth
/// `depth`, after `acc`; `Err` at a parser error or where the events run out.
pub open spec fn text_loop(evs: Seq<XmlEventV>, st: St, depth: int, acc: Seq<char>) -> Result<(Seq<char>, St), ()>
    decreases evs.len() - st.pos,
{
    if st.stack.len() < depth {
        Ok((acc, st))
    } else if st.pos < 0 || st.pos >= evs.len() {
        Err(())
    } else {
        match evs[st.pos] {
            XmlEventV::Characters(t) => text_loop(evs, st_next(evs, st).1, depth, acc + t),
            XmlEventV::Error => Err(()),
            _ => text_loop(evs, st_next(evs, st).1, depth, acc),
        }
    }
}

/// The walk from `st` to the next child element of the element open at
/// depth `depth`: the position of its start event, or `None` at the end of
/// the element; `Err` at a parser error or where the events run out.
pub open spec fn child_loop(evs: Seq<XmlEventV>, st: St, depth: int) -> Result<(Option<int>, St), ()>
    decreases evs.len() - st.pos,
{
    if st.stack.len() < depth {
        Ok((None, st))
    } else if st.pos < 0 || st.pos >= evs.len() {
        Err(())
    } else {
        match evs[st.pos] {
            XmlEventV::StartElement(_, _) => Ok((Some(st.pos), st_next(evs, st).1)),
            XmlEventV::Error => Err(()),
            _ => child_loop(evs, st_next(evs, st).1, depth),
        }
    }
}

/// The position of the first start event from `i` on, where there is one
/// before a parser error.
pub open spec fn first_start(evs: Seq<XmlEventV>, i: int) -> Option<int>
    decreases evs.len() - i,
{
    if i < 0 || i >= evs.len() {
        None
    } else {
        match evs[i] {
            XmlEventV::StartElement(_, _) => Some(i),
            XmlEventV::Error => None,
            _ => first_start(evs, i + 1),
        }
    }
}

/// A walk to the end of the element open at depth `depth` stops one level
/// above it: just past that element's end.
pub proof fn lemma_skip_leaves_element(evs: Seq<XmlEventV>, st: St, depth: int)
    requires
        depth >= 1,
        st.stack.len() >= depth - 1,
    ensures
        skip_loop(evs, st, depth) matches Ok(s) ==> s.stack.len() == depth - 1,
    decreases evs.len() - st.pos,
{
    if st.stack.len() >= depth && 0 <= st.pos < evs.len() {
        lemma_skip_leaves_element(evs, st_next(evs, st).1, depth);
    }
}

/// Reading the text of the element open at depth `depth` stops one level
/// above it: just past that element's end.
pub proof fn lemma_text_leaves_element(evs: Seq<XmlEventV>, st: St, depth: int, acc: Seq<char>)
    requires
        depth >= 1,
        st.stack.len() >= depth - 1,
    ensures
        text_loop(evs, st, depth, acc) matches Ok((_, s)) ==> s.stack.len() == depth - 1,
    decreases evs.len() - st.pos,
{
    if st.stack.len() >= depth && 0 <= st.pos < evs.len() {
        match evs[st.pos] {
            XmlEventV::Characters(t) => lemma_text_leaves_element(evs, st_next(evs, st).1, depth, acc + t),
            XmlEventV::Error => {},
            _ => lemma_text_leaves_element(evs, st_next(evs, st).1, depth, acc),
        }
    }
}

/// From a walk at depth `depth`, the step to the next child either enters
/// a child, one level down, or leaves the element, one level up.
pub proof fn lemma_child_step(evs: Seq<XmlEventV>, st: St, depth: int)
    requires
        depth >= 1,
        depth - 1 <= st.stack.len() <= depth,
    ensures
        child_loop(evs, st, depth) matches Ok((Some(_), s)) ==> s.stack.len() == depth + 1,
        child_loop(evs, st, depth) matches Ok((None, s)) ==> s.stack.len() == depth - 1,
    decreases evs.len() - st.pos,
{
    if st.stack.len() >= depth && 0 <= st.pos < evs.len() {
        match evs[st.pos] {
            XmlEventV::StartElement(_, _) => {},
            XmlEventV::Error => {},
            _ => lemma_child_step(evs, st_next(evs, st).1, depth),
        }
    }
}

/// A walk over the events of a document, inside its root element.
pub struct XmlIter {
    events: Vec<XmlEvent>,
    pos: usize,
    stack: Vec<usize>,
}

impl XmlIter {
    /// The events of the document.
    pub closed spec fn evs(&self) -> Seq<XmlEventV> {
        events_view(self.events@)
    }

    /// The state of the walk.
    pub closed spec fn st(&self) -> St {
        St { pos: self.pos as int, stack: self.stack@.map_values(|i: usize| i as int) }
    }

    /// The names of the open elements.
    pub open spec fn open_names(&self) -> Seq<Seq<char>> {
        self.st().stack.map_values(|i: int| ev_name(self.evs()[i]))
    }

    /// Whether the walk is consistent: every open element is a start event
    /// before the next event, and the end events from the next one on close
    /// the innermost open element.
    pub open spec fn wf(&self) -> bool {
        &&& 0 <= self.st().pos <= self.evs().len()
        &&& self.evs().len() <= usize::MAX
        &&& forall|k: int| 0 <= k < self.st().stack.len() ==> {
            let i = #[trigger] self.st().stack[k];
            &&& 0 <= i < self.st().pos
            &&& self.evs()[i] is StartElement
        }
        &&& ends_match(self.evs(), self.st().pos, self.open_names())
    }

    /// The position of the next event.
    pub fn pos(&self) -> (p: usize)
        ensures
            p == self.st().pos,
    {
        self.pos
    }

    /// The depth of the walk: the number of open elements.
    pub fn depth(&self) -> (d: usize)
        ensures
            d == self.st().stack.len(),
    {
        self.stack.len()
    }

    /// Starts a walk at the root element of the events `events`: just after
    /// its start event, with it open. `Err` where a parser error or the end
    /// comes first.
    pub fn new(events: Vec<XmlEvent>) -> (r: Result<XmlIter, ()>)
        requires
            ends_match(events_view(events@), 0, Seq::empty()),
        ensures
            match first_start(events_view(events@), 0) {
                Some(i) => r matches Ok(it) && it.wf() && it.evs() == events_view(events@)
                    && it.st() == (St { pos: i + 1, stack: seq![i] }),
                None => r is Err,
            },
    {
        let ghost evs = events_view(events@);
        let mut i: usize = 0;
        while i < events.len()
            invariant
                0 <= i <= events@.len(),
                evs == events_view(events@),
                first_start(evs, 0) == first_start(evs, i as int),
                ends_match(evs, 0, Seq::empty()) == ends_match(evs, i as int, Seq::empty()),
                ends_match(evs, 0, Seq::empty()),
            decreases events@.len() - i,
        {
            assert(evs[i as int] == events@[i as int]@);
            match &events[i] {
                XmlEvent::StartElement(_, _) => {
                    let it = XmlIter { events, pos: i + 1, stack: vec![i] };
                    proof {
                        assert(it.st().stack =~= seq![i as int]);
                        assert(it.open_names() =~= seq![ev_name(evs[i as int])]);
                        assert(it.open_names() =~= Seq::<Seq<char>>::empty().push(ev_name(evs[i as int])));
                    }
                    return Ok(it);
                },
                XmlEvent::Error => {
                    return Err(());
                },
                XmlEvent::EndElement(_) => {
                    return Err(());
                },
                _ => {},
            }
            i = i + 1;
        }
        Err(())
    }

    /// Starts a walk at the root element of the events `events` where every
    /// end event closes the innermost open element (see `new`); `Err` where
    /// one does not, or where there is no root element.
    pub fn from_events(events: Vec<XmlEvent>) -> (r: Result<XmlIter, ()>)
        ensures
            match (ends_match(events_view(events@), 0, Seq::empty()), first_start(events_view(events@), 0)) {
                (true, Some(i)) => r matches Ok(it) && it.wf() && it.evs() == events_view(events@)
                    && it.st() == (St { pos: i + 1, stack: seq![i] }),
                _ => r is Err,
            },
    {
        if !check_nesting(&events) {
            return Err(());
        }
        XmlIter::new(events)
    }

    /// Starts a walk at the root element of the XML document `bytes`, its
    /// events as `xml-rs` gives them (see `from_events`).
    pub fn from_document(bytes: &[u8]) -> (r: Result<XmlIter, ()>)
        ensures
            match (ends_match(xml_events_of(bytes@), 0, Seq::empty()), first_start(xml_events_of(bytes@), 0)) {
                (true, Some(i)) => r matches Ok(it) && it.wf() && it.evs() == xml_events_of(bytes@)
                    && it.st() == (St { pos: i + 1, stack: seq![i] }),
                _ => r is Err,
            },
    {
        XmlIter::from_events(xml_events(bytes))
    }

    /// The name of the innermost open element.
    pub fn tag_name(&self) -> (r: &str)
        requires
            self.wf(),
            self.st().stack.len() > 0,
        ensures
            r@ == self.open_names().last(),
    {
        let k = self.stack.len() - 1;
        let i = self.stack[k];
        assert(self.st().stack[k as int] == i as int);
        assert(self.evs()[i as int] == self.events@[i as int]@);
        match &self.events[i] {
            XmlEvent::StartElement(n, _) => n.as_str(),
            _ => {
                assert(false);
                ""
            },
        }
    }

    /// The attributes of the innermost open element.
    pub fn attributes(&self) -> (r: &[(String, String)])
        requires
            self.wf(),
            self.st().stack.len() > 0,
        ensures
            self.evs()[self.st().stack.last()] matches XmlEventV::StartElement(_, a) && attrs_view(r@) == a,
    {
        let k = self.stack.len() - 1;
        let i = self.stack[k];
        assert(self.st().stack[k as int] == i as int);
        assert(self.evs()[i as int] == self.events@[i as int]@);
        match &self.events[i] {
            XmlEvent::StartElement(_, a) => a.as_slice(),
            _ => {
                assert(false);
                &[]
            },
        }
    }

    /// Takes the next event: opens an element at its start, closes the
    /// innermost one at its end. Gives the position of the event taken, or
    /// `None` at the end of the events.
    pub fn next(&mut self) -> (r: Option<usize>)
        requires
            old(self).wf(),
        ensures
            final(self).wf(),
            final(self).evs() == old(self).evs(),
            (r, final(self).st()) == ({
                let (o, s) = st_next(old(self).evs(), old(self).st());
                (match o { Some(i) => Some(i as usize), None => None }, s)
            }),
    {
        let ghost evs = self.evs();
        let ghost names = self.open_names();
        if self.pos >= self.events.len() {
            return None;
        }
        let p = self.pos;
        assert(evs[p as int] == self.events@[p as int]@);
        match &self.events[p] {
            XmlEvent::StartElement(_, _) => {
                self.stack.push(p);
                proof {
                    assert(self.st().stack =~= old(self).st().stack.push(p as int));
                    assert(self.open_names() =~= names.push(ev_name(evs[p as int])));
                }
            },
            XmlEvent::EndElement(_) => {
                self.stack.pop();
                proof {
                    assert(self.st().stack =~= old(self).st().stack.drop_last());
                    assert(self.open_names() =~= names.drop_last());
                }
            },
            _ => {},
        }
        self.pos = p + 1;
        Some(p)
    }

    /// Walks to the end of the element open at depth `depth`. `Err` where
    /// the events run out first.
    fn skip_to(&mut self, depth: usize) -> (r: Result<(), ()>)
        requires
            old(self).wf(),
        ensures
            final(self).wf(),
            final(self).evs() == old(self).evs(),
            match skip_loop(old(self).evs(), old(self).st(), depth as int) {
                Ok(s) => r is Ok && final(self).st() == s,
                Err(_) => r is Err,
            },
    {
        let ghost evs = self.evs();
        while self.stack.len() >= depth
            invariant
                self.wf(),
                self.evs() == evs,
                evs == old(self).evs(),
                skip_loop(evs, old(self).st(), depth as int) == skip_loop(evs, self.st(), depth as int),
            decreases evs.len() - self.st().pos,
        {
            match self.next() {
                None => {
                    return Err(());
                },
                Some(_) => {},
            }
        }
        Ok(())
    }

    /// Walks past the end of the innermost open element (see `skip_loop`).
    pub fn skip_node(&mut self) -> (r: Result<(), ()>)
        requires
            old(self).wf(),
        ensures
            final(self).wf(),
            final(self).evs() == old(self).evs(),
            match skip_loop(old(self).evs(), old(self).st(), old(self).st().stack.len() as int) {
                Ok(s) => r is Ok && final(self).st() == s,
                Err(_) => r is Err,
            },
            r is Ok && old(self).st().stack.len() > 0 ==> final(self).st().stack.len() == old(self).st().stack.len() - 1,
    {
        let depth = self.stack.len();
        proof {
            if depth > 0 {
                lemma_skip_leaves_element(self.evs(), self.st(), depth as int);
            }
        }
        self.skip_to(depth)
    }

    /// Walks to the next child element of the element open at depth `depth`
    /// (see `child_loop`).
    pub fn next_child(&mut self, depth: usize) -> (r: Result<Option<usize>, ()>)
        requires
            old(self).wf(),
        ensures
            final(self).wf(),
            final(self).evs() == old(self).evs(),
            final(self).st().pos >= old(self).st().pos,
            match child_loop(old(self).evs(), old(self).st(), depth as int) {
                Ok((o, s)) => r matches Ok(x) && final(self).st() == s && match o {
                    Some(i) => x matches Some(j) && j == i && s.stack.len() > 0 && s.pos > old(self).st().pos,
                    None => x is None,
                },
                Err(_) => r is Err,
            },
            depth >= 1 && depth - 1 <= old(self).st().stack.len() <= depth ==> match r {
                Ok(Some(_)) => final(self).st().stack.len() == depth + 1,
                Ok(None) => final(self).st().stack.len() == depth - 1,
                Err(_) => true,
            },
    {
        let ghost evs = self.evs();
        proof {
            if depth >= 1 && depth - 1 <= self.st().stack.len() <= depth {
                lemma_child_step(evs, self.st(), depth as int);
            }
        }
        while self.stack.len() >= depth
            invariant
                self.wf(),
                self.evs() == evs,
                evs == old(self).evs(),
                self.st().pos >= old(self).st().pos,
                child_loop(evs, old(self).st(), depth as int) == child_loop(evs, self.st(), depth as int),
                depth >= 1 && depth - 1 <= old(self).st().stack.len() <= depth ==> {
                    &&& child_loop(evs, old(self).st(), depth as int) matches Ok((Some(_), s)) ==> s.stack.len() == depth + 1
                    &&& child_loop(evs, old(self).st(), depth as int) matches Ok((None, s)) ==> s.stack.len() == depth - 1
                },
            decreases evs.len() - self.st().pos,
        {
            let p = self.pos;
            match self.next() {
                None => {
                    return Err(());
                },
                Some(i) => {
                    assert(evs[i as int] == self.events@[i as int]@);
                    match &self.events[i] {
                        XmlEvent::StartElement(_, _) => {
                            return Ok(Some(i));
                        },
                        XmlEvent::Error => {
                            return Err(());
                        },
                        _ => {},
                    }
                },
            }
        }
        Ok(None)
    }

    /// The character data of the innermost open element, up to its end
    /// (see `text_loop`).
    pub fn inner_text(&mut self) -> (r: Result<String, ()>)
        requires
            old(self).wf(),
        ensures
            final(self).wf(),
            final(self).evs() == old(self).evs(),
            final(self).st().pos >= old(self).st().pos,
            match text_loop(old(self).evs(), old(self).st(), old(self).st().stack.len() as int, Seq::empty()) {
                Ok((t, s)) => r matches Ok(x) && x@ == t && final(self).st() == s,
                Err(_) => r is Err,
            },
            r is Ok && old(self).st().stack.len() > 0 ==> final(self).st().stack.len() == old(self).st().stack.len() - 1,
    {
        let ghost evs = self.evs();
        let depth = self.stack.len();
        proof {
            if depth > 0 {
                lemma_text_leaves_element(evs, self.st(), depth as int, Seq::empty());
            }
        }
        let mut s = String::new();
        while self.stack.len() >= depth
            invariant
                self.wf(),
                self.evs() == evs,
                evs == old(self).evs(),
                self.st().pos >= old(self).st().pos,
                depth == old(self).st().stack.len(),
                text_loop(evs, old(self).st(), depth as int, Seq::empty()) == text_loop(evs, self.st(), depth as int, s@),
            decreases evs.len() - self.st().pos,
        {
            match self.next() {
                None => {
                    return Err(());
                },
                Some(i) => {
                    assert(evs[i as int] == self.events@[i as int]@);
                    match &self.events[i] {
                        XmlEvent::Characters(text) => {
                            s.append(text.as_str());
                        },
                        XmlEvent::Error => {
                            return Err(());
                        },
                        _ => {},
                    }
                },
            }
        }
        Ok(s)
    }
}

/// A type that can be read from the element of an XML document that the
/// walk is inside: from just after the element's start up to its end.
pub trait FromXml: Sized + View {
    /// The value read from the open element of the walk at `st`, and the
    /// state after it; `Err` where the element cannot be read as one.
    spec fn spec_from_xml(evs: Seq<XmlEventV>, st: St) -> Result<(Self::V, St), ()>;

    /// Reads a value from the open element (see `spec_from_xml`).
    fn from_xml(iter: &mut XmlIter) -> (r: Result<Self, ()>)
        requires
            old(iter).wf(),
            old(iter).st().stack.len() > 0,
        ensures
            final(iter).wf(),
            final(iter).evs() == old(iter).evs(),
            match Self::spec_from_xml(old(iter).evs(), old(iter).st()) {
                Ok((v, s)) => r matches Ok(x) && x@ == v && final(iter).st() == s,
                Err(_) => r is Err,
            },
    ;
}

} // verus!
