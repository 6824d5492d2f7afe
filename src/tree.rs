//! A generic XML element tree: read from the tokens of a text, and written
//! back as text.
use crate::xml::{
    escape, escaped, next_token, open_reader, pending, step_view, unescape, unescaped,
    xml_tokens, TokenStep, TokenView, XmlToken,
};
use strong_xml::XmlReader;
use vstd::prelude::*;
use vstd::string::StringExecFns;

verus! {

/// Why a text could not be read as an XML tree, or a tree as a record.
#[derive(Debug, Clone, Copy, PartialEq, Eq, Structural)]
pub enum XmlFault {
    /// The tokenizer found text that is not well-formed XML.
    Syntax,
    /// The text ended inside an element.
    UnexpectedEof,
    /// A token stood where the structure allows none of its kind.
    UnexpectedToken,
    /// An end tag does not close the element that is open.
    TagMismatch,
    /// An entity or character reference is unterminated or unknown.
    BadReference,
    /// A required attribute or child element is absent.
    MissingField,
    /// An attribute or element text does not parse as its field's type.
    BadValue,
}

/// An attribute: namespace prefix (empty if none), name, and value with its
/// references replaced.
pub struct Attribute {
    pub prefix: String,
    pub name: String,
    pub value: String,
}

pub struct AttributeView {
    pub prefix: Seq<char>,
    pub name: Seq<char>,
    pub value: Seq<char>,
}

impl View for Attribute {
    type V = AttributeView;

    open spec fn view(&self) -> AttributeView {
        AttributeView { prefix: self.prefix@, name: self.name@, value: self.value@ }
    }
}

/// An element: its name, attributes and child elements in document order,
/// and the last piece of character data directly inside it, if any.
pub struct Element {
    pub prefix: String,
    pub name: String,
    pub attributes: Vec<Attribute>,
    pub children: Vec<Element>,
    pub text: Option<String>,
}

pub struct ElementView {
    pub prefix: Seq<char>,
    pub name: Seq<char>,
    pub attributes: Seq<AttributeView>,
    pub children: Seq<ElementView>,
    pub text: Option<Seq<char>>,
}

pub open spec fn opt_str(o: Option<String>) -> Option<Seq<char>> {
    match o {
        Some(s) => Some(s@),
        None => None,
    }
}

pub open spec fn blank_element(prefix: Seq<char>, name: Seq<char>) -> ElementView {
    ElementView { prefix, name, attributes: Seq::empty(), children: Seq::empty(), text: None }
}

pub open spec fn attributes_view(s: Seq<Attribute>) -> Seq<AttributeView> {
    s.map_values(|a: Attribute| a@)
}

pub open spec fn element_view(e: Element) -> ElementView
    decreases e,
{
    ElementView {
        prefix: e.prefix@,
        name: e.name@,
        attributes: attributes_view(e.attributes@),
        children: Seq::new(
            e.children.len() as nat,
            |i: int|
                if 0 <= i < e.children.len() {
                    element_view(e.children[i])
                } else {
                    blank_element(Seq::empty(), Seq::empty())
                },
        ),
        text: opt_str(e.text),
    }
}

impl View for Element {
    type V = ElementView;

    open spec fn view(&self) -> ElementView {
        element_view(*self)
    }
}

pub open spec fn with_attribute(e: ElementView, a: AttributeView) -> ElementView {
    ElementView { attributes: e.attributes.push(a), ..e }
}

pub open spec fn with_child(e: ElementView, c: ElementView) -> ElementView {
    ElementView { children: e.children.push(c), ..e }
}

pub open spec fn with_text(e: ElementView, t: Seq<char>) -> ElementView {
    ElementView { text: Some(t), ..e }
}

/// Reads the rest of a start tag (after `<name`): its attributes, then
/// either `/>` or `>` followed by the element's content. Gives the element
/// and the steps that follow it.
pub open spec fn read_tag_rest(ts: Seq<TokenStep>, e: ElementView) -> Result<
    (ElementView, Seq<TokenStep>),
    XmlFault,
>
    decreases ts.len(),
{
    if ts.len() == 0 {
        Err(XmlFault::UnexpectedEof)
    } else {
        match ts[0] {
            Err(_) => Err(XmlFault::Syntax),
            Ok(TokenView::Attribute { prefix, local, value }) => match unescaped(value) {
                Some(v) => read_tag_rest(
                    ts.drop_first(),
                    with_attribute(e, AttributeView { prefix, name: local, value: v }),
                ),
                None => Err(XmlFault::BadReference),
            },
            Ok(TokenView::EmptyEnd) => Ok((e, ts.drop_first())),
            Ok(TokenView::OpenEnd) => read_content(ts.drop_first(), e),
            Ok(_) => Err(XmlFault::UnexpectedToken),
        }
    }
}

/// Reads the content of an open element up to and including its end tag.
/// Comments and processing instructions are passed over.
pub open spec fn read_content(ts: Seq<TokenStep>, e: ElementView) -> Result<
    (ElementView, Seq<TokenStep>),
    XmlFault,
>
    decreases ts.len(),
{
    if ts.len() == 0 {
        Err(XmlFault::UnexpectedEof)
    } else {
        match ts[0] {
            Err(_) => Err(XmlFault::Syntax),
            Ok(TokenView::Start { prefix, local }) => match read_tag_rest(
                ts.drop_first(),
                blank_element(prefix, local),
            ) {
                Ok((c, rest)) => if rest.len() < ts.len() {
                    read_content(rest, with_child(e, c))
                } else {
                    Err(XmlFault::UnexpectedToken)
                },
                Err(f) => Err(f),
            },
            Ok(TokenView::Close { prefix, local }) => if prefix == e.prefix && local == e.name {
                Ok((e, ts.drop_first()))
            } else {
                Err(XmlFault::TagMismatch)
            },
            Ok(TokenView::Text(t)) => match unescaped(t) {
                Some(u) => read_content(ts.drop_first(), with_text(e, u)),
                None => Err(XmlFault::BadReference),
            },
            Ok(TokenView::Cdata(t)) => read_content(ts.drop_first(), with_text(e, t)),
            Ok(TokenView::Other) => read_content(ts.drop_first(), e),
            Ok(_) => Err(XmlFault::UnexpectedToken),
        }
    }
}

/// The root element of a document: declarations and comments before it
/// are passed over, and nothing after it is read.
pub open spec fn read_document(ts: Seq<TokenStep>) -> Result<ElementView, XmlFault>
    decreases ts.len(),
{
    if ts.len() == 0 {
        Err(XmlFault::UnexpectedEof)
    } else {
        match ts[0] {
            Err(_) => Err(XmlFault::Syntax),
            Ok(TokenView::Other) => read_document(ts.drop_first()),
            Ok(TokenView::Start { prefix, local }) => match read_tag_rest(
                ts.drop_first(),
                blank_element(prefix, local),
            ) {
                Ok((e, _)) => Ok(e),
                Err(f) => Err(f),
            },
            Ok(_) => Err(XmlFault::UnexpectedToken),
        }
    }
}

/// The tree that a text reads as.
pub open spec fn tree_of(text: Seq<char>) -> Result<ElementView, XmlFault> {
    read_document(xml_tokens(text))
}

pub proof fn lemma_read_consumes(ts: Seq<TokenStep>, e: ElementView)
    ensures
        read_tag_rest(ts, e) matches Ok((_, rest)) ==> rest.len() < ts.len(),
        read_content(ts, e) matches Ok((_, rest)) ==> rest.len() < ts.len(),
    decreases ts.len(),
{
    if ts.len() > 0 {
        match ts[0] {
            Ok(TokenView::Attribute { prefix, local, value }) => {
                if let Some(v) = unescaped(value) {
                    lemma_read_consumes(
                        ts.drop_first(),
                        with_attribute(e, AttributeView { prefix, name: local, value: v }),
                    );
                }
            },
            Ok(TokenView::OpenEnd) => {
                lemma_read_consumes(ts.drop_first(), e);
            },
            _ => {},
        }
        match ts[0] {
            Ok(TokenView::Start { prefix, local }) => {
                if let Ok((c, rest)) = read_tag_rest(ts.drop_first(), blank_element(prefix, local)) {
                    if rest.len() < ts.len() {
                        lemma_read_consumes(rest, with_child(e, c));
                    }
                }
            },
            Ok(TokenView::Text(t)) => {
                if let Some(u) = unescaped(t) {
                    lemma_read_consumes(ts.drop_first(), with_text(e, u));
                }
            },
            Ok(TokenView::Cdata(t)) => {
                lemma_read_consumes(ts.drop_first(), with_text(e, t));
            },
            Ok(TokenView::Other) => {
                lemma_read_consumes(ts.drop_first(), e);
            },
            _ => {},
        }
    }
}

pub open spec fn read_result(
    r: Result<Element, XmlFault>,
    s: Result<(ElementView, Seq<TokenStep>), XmlFault>,
    after: Seq<TokenStep>,
) -> bool {
    match s {
        Ok((v, rest)) => r is Ok && r->Ok_0@ == v && after == rest,
        Err(f) => r == Err::<Element, XmlFault>(f),
    }
}

fn attach_text(e: &mut Element, t: String)
    ensures
        final(e)@ == with_text(old(e)@, t@),
{
    e.text = Some(t);
    assert(final(e)@.children =~= old(e)@.children);
    assert(final(e)@.attributes =~= old(e)@.attributes);
}

fn attach_attribute(e: &mut Element, a: Attribute)
    ensures
        final(e)@ == with_attribute(old(e)@, a@),
{
    e.attributes.push(a);
    assert(final(e)@.children =~= old(e)@.children);
    assert(attributes_view(e.attributes@) =~= attributes_view(old(e).attributes@).push(a@));
}

fn attach_child(e: &mut Element, c: Element)
    ensures
        final(e)@ == with_child(old(e)@, c@),
{
    let ghost cv = c@;
    let ghost before = *e;
    e.children.push(c);
    let ghost after = *e;
    assert(after.children@ == before.children@.push(c));
    assert(after@.children.len() == before@.children.len() + 1);
    assert forall|i: int| 0 <= i < after@.children.len() implies after@.children[i]
        == before@.children.push(cv)[i] by {
        if i < before.children.len() {
            assert(after.children[i] == before.children[i]);
        }
    }
    assert(after@.children =~= before@.children.push(cv));
    assert(after@.attributes =~= before@.attributes);
}

fn blank(prefix: String, name: String) -> (e: Element)
    ensures
        e@ == blank_element(prefix@, name@),
{
    let e = Element { prefix, name, attributes: Vec::new(), children: Vec::new(), text: None };
    assert(e@.children =~= Seq::<ElementView>::empty());
    assert(e@.attributes =~= Seq::<AttributeView>::empty());
    e
}

fn read_tag_rest_exec(r: &mut XmlReader<'_>, e: Element) -> (res: Result<Element, XmlFault>)
    ensures
        read_result(res, read_tag_rest(pending(*old(r)), e@), pending(*final(r))),
    decreases pending(*old(r)).len(), 1int,
{
    let mut e = e;
    match next_token(r) {
        None => Err(XmlFault::UnexpectedEof),
        Some(Err(_)) => Err(XmlFault::Syntax),
        Some(Ok(XmlToken::Attribute(prefix, name, raw))) => match unescape(&raw) {
            Ok(value) => {
                attach_attribute(&mut e, Attribute { prefix, name, value });
                read_tag_rest_exec(r, e)
            },
            Err(_) => Err(XmlFault::BadReference),
        },
        Some(Ok(XmlToken::EmptyEnd)) => Ok(e),
        Some(Ok(XmlToken::OpenEnd)) => read_content_exec(r, e),
        Some(Ok(_)) => Err(XmlFault::UnexpectedToken),
    }
}

fn read_content_exec(r: &mut XmlReader<'_>, e: Element) -> (res: Result<Element, XmlFault>)
    ensures
        read_result(res, read_content(pending(*old(r)), e@), pending(*final(r))),
    decreases pending(*old(r)).len(), 0int,
{
    let ghost ts = pending(*r);
    let mut e = e;
    match next_token(r) {
        None => Err(XmlFault::UnexpectedEof),
        Some(Err(_)) => Err(XmlFault::Syntax),
        Some(Ok(XmlToken::Start(prefix, name))) => {
            let child = blank(prefix, name);
            let ghost cv = child@;
            match read_tag_rest_exec(r, child) {
                Ok(c) => {
                    proof {
                        lemma_read_consumes(ts.drop_first(), cv);
                    }
                    attach_child(&mut e, c);
                    read_content_exec(r, e)
                },
                Err(f) => Err(f),
            }
        },
        Some(Ok(XmlToken::Close(prefix, name))) => {
            if prefix == e.prefix && name == e.name {
                Ok(e)
            } else {
                Err(XmlFault::TagMismatch)
            }
        },
        Some(Ok(XmlToken::Text(raw))) => match unescape(&raw) {
            Ok(t) => {
                attach_text(&mut e, t);
                read_content_exec(r, e)
            },
            Err(_) => Err(XmlFault::BadReference),
        },
        Some(Ok(XmlToken::Cdata(t))) => {
            attach_text(&mut e, t);
            read_content_exec(r, e)
        },
        Some(Ok(XmlToken::Other)) => read_content_exec(r, e),
        Some(Ok(_)) => Err(XmlFault::UnexpectedToken),
    }
}

pub open spec fn tree_view(r: Result<Element, XmlFault>) -> Result<ElementView, XmlFault> {
    match r {
        Ok(e) => Ok(e@),
        Err(f) => Err(f),
    }
}

/// Reads the root element of an XML document.
pub fn read_tree(text: &str) -> (res: Result<Element, XmlFault>)
    ensures
        tree_view(res) == tree_of(text@),
{
    let mut r = open_reader(text);
    loop
        invariant
            read_document(pending(r)) == tree_of(text@),
        decreases pending(r).len(),
    {
        match next_token(&mut r) {
            None => return Err(XmlFault::UnexpectedEof),
            Some(Err(_)) => return Err(XmlFault::Syntax),
            Some(Ok(XmlToken::Other)) => {},
            Some(Ok(XmlToken::Start(prefix, name))) => {
                let e = blank(prefix, name);
                return read_tag_rest_exec(&mut r, e);
            },
            Some(Ok(_)) => return Err(XmlFault::UnexpectedToken),
        }
    }
}

/// A name with its namespace prefix, as it stands in a tag.
pub open spec fn qualified(prefix: Seq<char>, name: Seq<char>) -> Seq<char> {
    if prefix.len() == 0 {
        name
    } else {
        prefix + seq![':'] + name
    }
}

pub open spec fn render_attribute(a: AttributeView) -> Seq<char> {
    seq![' '] + qualified(a.prefix, a.name) + seq!['=', '"'] + escaped(a.value) + seq!['"']
}

pub open spec fn render_attributes(attrs: Seq<AttributeView>) -> Seq<char>
    decreases attrs.len(),
{
    if attrs.len() == 0 {
        Seq::empty()
    } else {
        render_attributes(attrs.drop_last()) + render_attribute(attrs.last())
    }
}

/// The texts of elements, joined in order.
pub open spec fn render_children(cs: Seq<ElementView>) -> Seq<char>
    decreases cs,
{
    if cs.len() == 0 {
        Seq::empty()
    } else {
        render_children(cs.drop_last()) + render(cs.last())
    }
}

/// The text of an element: `<name attrs/>` where it has neither children
/// nor text, else the start tag, the children, the escaped text and the end
/// tag.
pub open spec fn render(e: ElementView) -> Seq<char>
    decreases e,
{
    let tag = qualified(e.prefix, e.name);
    let start = seq!['<'] + tag + render_attributes(e.attributes);
    if e.children.len() == 0 && e.text is None {
        start + seq!['/', '>']
    } else {
        let text = match e.text {
            Some(t) => escaped(t),
            None => Seq::empty(),
        };
        start + seq!['>'] + render_children(e.children) + text + seq!['<', '/'] + tag + seq!['>']
    }
}

fn write_name(prefix: &String, name: &String, out: &mut String)
    ensures
        final(out)@ == old(out)@ + qualified(prefix@, name@),
{
    if prefix.as_str().is_empty() {
        out.append(name.as_str());
    } else {
        out.append(prefix.as_str());
        out.append(":");
        out.append(name.as_str());
        proof {
            reveal_strlit(":");
        }
    }
}

fn write_attributes(attrs: &Vec<Attribute>, out: &mut String)
    ensures
        final(out)@ == old(out)@ + render_attributes(attributes_view(attrs@)),
{
    let ghost views = attributes_view(attrs@);
    let mut i: usize = 0;
    while i < attrs.len()
        invariant
            i <= attrs.len(),
            views == attributes_view(attrs@),
            out@ == old(out)@ + render_attributes(views.take(i as int)),
        decreases attrs.len() - i,
    {
        let a = &attrs[i];
        proof {
            reveal_strlit(" ");
            reveal_strlit("=\"");
            reveal_strlit("\"");
            assert(views.take(i + 1).drop_last() =~= views.take(i as int));
        }
        out.append(" ");
        write_name(&a.prefix, &a.name, out);
        out.append("=\"");
        let v = escape(a.value.as_str());
        out.append(v.as_str());
        out.append("\"");
        i = i + 1;
    }
    assert(views.take(i as int) =~= views);
}

/// Appends the text of an element to `out`.
pub fn write_element(e: &Element, out: &mut String)
    ensures
        final(out)@ == old(out)@ + render(e@),
    decreases e,
{
    let ghost ev = e@;
    proof {
        reveal_strlit("<");
        reveal_strlit("/>");
        reveal_strlit(">");
        reveal_strlit("</");
    }
    out.append("<");
    write_name(&e.prefix, &e.name, out);
    write_attributes(&e.attributes, out);
    let ghost tag = qualified(ev.prefix, ev.name);
    let ghost start = seq!['<'] + tag + render_attributes(ev.attributes);
    assert(out@ =~= old(out)@ + start);
    if e.children.len() == 0 && e.text.is_none() {
        out.append("/>");
        assert(out@ =~= old(out)@ + render(ev));
        return;
    }
    out.append(">");
    let ghost before = out@;
    let mut i: usize = 0;
    while i < e.children.len()
        invariant
            i <= e.children.len(),
            ev == e@,
            out@ == before + render_children(ev.children.take(i as int)),
        decreases e.children.len() - i,
    {
        proof {
            assert(ev.children.take(i + 1).drop_last() =~= ev.children.take(i as int));
        }
        write_element(&e.children[i], out);
        i = i + 1;
    }
    assert(ev.children.take(i as int) =~= ev.children);
    match &e.text {
        Some(t) => {
            let v = escape(t.as_str());
            out.append(v.as_str());
        },
        None => {},
    }
    let ghost text = match ev.text {
        Some(t) => escaped(t),
        None => Seq::empty(),
    };
    assert(out@ =~= old(out)@ + start + seq!['>'] + render_children(ev.children) + text);
    out.append("</");
    write_name(&e.prefix, &e.name, out);
    out.append(">");
    assert(out@ =~= old(out)@ + render(ev));
}

} // verus!
