//! The XML event stream, reduced to plain values for the state machine.

use vstd::prelude::*;

verus! {

use crate::text::str_eq_str;

/// The XML reader's event type, declared so that values of it can be
/// carried through; nothing inside it is visible to verified code.
#[verifier::external_type_specification]
#[verifier::external_body]
pub struct ExXmlEvent(xml::reader::XmlEvent);

/// View of an attribute.
pub ghost struct AttrV {
    pub name: Seq<char>,
    pub value: Seq<char>,
}

/// One attribute of a start element: its local name and its value.
pub struct Attr {
    pub name: String,
    pub value: String,
}

impl View for Attr {
    type V = AttrV;

    open spec fn view(&self) -> AttrV {
        AttrV { name: self.name@, value: self.value@ }
    }
}

impl DeepView for Attr {
    type V = AttrV;

    open spec fn deep_view(&self) -> AttrV {
        self.view()
    }
}

/// View of an event token.
pub ghost enum TokenV {
    Start { name: Seq<char>, attrs: Seq<AttrV> },
    End { name: Seq<char> },
    Text { content: Seq<char> },
    Ignored,
}

/// One event of a file's stream, as plain values: an element start
/// with its attributes, an element end, character or CDATA content,
/// or anything else (ignored by the state machine).
pub enum XmlToken {
    Start { name: String, attrs: Vec<Attr> },
    End { name: String },
    Text { content: String },
    Ignored,
}

impl View for XmlToken {
    type V = TokenV;

    open spec fn view(&self) -> TokenV {
        match self {
            XmlToken::Start { name, attrs } => TokenV::Start {
                name: name@,
                attrs: attrs.deep_view(),
            },
            XmlToken::End { name } => TokenV::End { name: name@ },
            XmlToken::Text { content } => TokenV::Text { content: content@ },
            XmlToken::Ignored => TokenV::Ignored,
        }
    }
}

impl DeepView for XmlToken {
    type V = TokenV;

    open spec fn deep_view(&self) -> TokenV {
        self.view()
    }
}

/// Relies on xml::reader::EventReader: pulls the event stream out of a
/// document held in memory; reading stops at the first malformed
/// token, keeping the events seen before it.
#[verifier::external_body]
fn read_events(content: &str) -> (r: Vec<xml::reader::XmlEvent>) {
    let mut events = Vec::new();
    for e in xml::reader::EventReader::new(content.as_bytes()) {
        match e {
            Ok(ev) => events.push(ev),
            Err(_) => break,
        }
    }
    events
}

/// Relies on the fields of xml::reader::XmlEvent: the variants the
/// state machine reads are carried over one to one, element and
/// attribute names reduced to their local parts; every other variant
/// becomes `Ignored`.
#[verifier::external_body]
fn convert_event(e: xml::reader::XmlEvent) -> (r: XmlToken) {
    match e {
        xml::reader::XmlEvent::StartElement { name, attributes, .. } => XmlToken::Start {
            name: name.local_name,
            attrs: attributes
                .into_iter()
                .map(|a| Attr { name: a.name.local_name, value: a.value })
                .collect(),
        },
        xml::reader::XmlEvent::EndElement { name } => XmlToken::End { name: name.local_name },
        xml::reader::XmlEvent::CData(content) => XmlToken::Text { content },
        xml::reader::XmlEvent::Characters(content) => XmlToken::Text { content },
        _ => XmlToken::Ignored,
    }
}

/// Reads a document held in memory as a sequence of plain tokens.
/// What the tokens are for a given document is up to the XML reader;
/// everything after this point is verified for every token sequence.
pub fn tokenize(content: &str) -> Vec<XmlToken> {
    let mut events = read_events(content);
    let mut tokens: Vec<XmlToken> = Vec::new();
    while events.len() > 0
        decreases events.len(),
    {
        let e = events.remove(0);
        tokens.push(convert_event(e));
    }
    tokens
}

/// First value among `attrs` whose name is `key`, if any.
pub open spec fn spec_find_attr(attrs: Seq<AttrV>, key: Seq<char>) -> Option<Seq<char>>
    decreases attrs.len(),
{
    if attrs.len() == 0 {
        None
    } else if attrs[0].name == key {
        Some(attrs[0].value)
    } else {
        spec_find_attr(attrs.drop_first(), key)
    }
}

/// Hands back the value of the first attribute named `matched_name`,
/// if there is one.
pub fn search_matched_attr(attributes: &Vec<Attr>, matched_name: &str) -> (r: Option<String>)
    ensures
        match r {
            Some(v) => spec_find_attr(attributes.deep_view(), matched_name@) == Some(v@),
            None => spec_find_attr(attributes.deep_view(), matched_name@) is None,
        },
{
    let ghost av = attributes.deep_view();
    let mut i: usize = 0;
    proof {
        assert(av.len() == attributes@.len());
        assert(av.skip(0) =~= av);
    }
    while i < attributes.len()
        invariant
            0 <= i <= attributes.len(),
            av == attributes.deep_view(),
            av.len() == attributes@.len(),
            spec_find_attr(av, matched_name@) == spec_find_attr(av.skip(i as int), matched_name@),
        decreases attributes.len() - i,
    {
        proof {
            assert(av[i as int] == attributes@[i as int].deep_view());
            assert(av.skip(i as int)[0] == av[i as int]);
            assert(av.skip(i as int).drop_first() =~= av.skip(i as int + 1));
        }
        if str_eq_str(attributes[i].name.as_str(), matched_name) {
            return Some(attributes[i].value.clone());
        }
        i = i + 1;
    }
    None
}

} // verus!
