//! XML tokens, as the tokenizer of `strong_xml` hands them out, and the
//! escaping rules of XML text.
use strong_xml::xmlparser::{ElementEnd, Error as XmlSyntaxError, Token};
use strong_xml::XmlReader;
use vstd::prelude::*;

verus! {

/// One lexical token of an XML document.
///
/// Names are split into an optional namespace prefix and a local part;
/// attribute values and text are kept as they stand in the source, with
/// their entity references not yet replaced.
pub enum XmlToken {
    /// `<prefix:local`
    Start(String, String),
    /// `prefix:local="value"`
    Attribute(String, String, String),
    /// `>` closing a start tag
    OpenEnd,
    /// `/>` closing an empty element
    EmptyEnd,
    /// `</prefix:local>`
    Close(String, String),
    /// character data between tags
    Text(String),
    /// the content of a `<![CDATA[...]]>` section
    Cdata(String),
    /// declarations, comments, processing instructions and DTD parts
    Other,
}

/// What a token holds, as sequences of characters.
pub enum TokenView {
    Start { prefix: Seq<char>, local: Seq<char> },
    Attribute { prefix: Seq<char>, local: Seq<char>, value: Seq<char> },
    OpenEnd,
    EmptyEnd,
    Close { prefix: Seq<char>, local: Seq<char> },
    Text(Seq<char>),
    Cdata(Seq<char>),
    Other,
}

impl View for XmlToken {
    type V = TokenView;

    open spec fn view(&self) -> TokenView {
        match self {
            XmlToken::Start(p, l) => TokenView::Start { prefix: p@, local: l@ },
            XmlToken::Attribute(p, l, v) => TokenView::Attribute { prefix: p@, local: l@, value: v@ },
            XmlToken::OpenEnd => TokenView::OpenEnd,
            XmlToken::EmptyEnd => TokenView::EmptyEnd,
            XmlToken::Close(p, l) => TokenView::Close { prefix: p@, local: l@ },
            XmlToken::Text(t) => TokenView::Text(t@),
            XmlToken::Cdata(t) => TokenView::Cdata(t@),
            XmlToken::Other => TokenView::Other,
        }
    }
}

/// One step of the tokenizer: a token, or `Err(())` where the text is not
/// well-formed (the tokenizer stops there).
pub type TokenStep = Result<TokenView, ()>;

pub open spec fn step_view(s: Result<XmlToken, XmlSyntaxError>) -> TokenStep {
    match s {
        Ok(t) => Ok(t@),
        Err(_) => Err(()),
    }
}

/// The tokenizing reader of `strong_xml`, opaque here.
#[verifier::external_type_specification]
#[verifier::external_body]
pub struct ExXmlReader<'a>(XmlReader<'a>);

/// The error of `strong_xml`, opaque here.
#[verifier::external_type_specification]
#[verifier::external_body]
pub struct ExXmlError(strong_xml::XmlError);

/// The error of the `xmlparser` tokenizer, opaque here.
#[verifier::external_type_specification]
#[verifier::external_body]
pub struct ExSyntaxError(XmlSyntaxError);

/// The steps that the tokenizer yields for a text, in order, up to the point
/// where it has nothing more to give.
pub uninterp spec fn xml_tokens(text: Seq<char>) -> Seq<TokenStep>;

/// The steps that a reader has still to yield.
pub uninterp spec fn pending(r: XmlReader<'_>) -> Seq<TokenStep>;

/// Relies on `strong_xml::XmlReader::new`: a reader positioned before the
/// first token of `text`.
#[verifier::external_body]
pub(crate) fn open_reader(text: &str) -> (r: XmlReader<'_>)
    ensures
        pending(r) == xml_tokens(text@),
{
    XmlReader::new(text)
}

/// Relies on `strong_xml::XmlReader::next` (the `xmlparser` tokenizer): each
/// call yields the next step, and `None` once the steps are exhausted; after
/// an error the tokenizer jumps to the end.
#[verifier::external_body]
pub(crate) fn next_token(r: &mut XmlReader<'_>) -> (t: Option<Result<XmlToken, XmlSyntaxError>>)
    ensures
        pending(*old(r)).len() == 0 ==> t is None && pending(*final(r)) == pending(*old(r)),
        pending(*old(r)).len() > 0 ==> t is Some && step_view(t->Some_0) == pending(*old(r))[0]
            && pending(*final(r)) == pending(*old(r)).drop_first(),
{
    Some(r.next()?.map(|t| match t {
        Token::ElementStart { prefix, local, .. } => XmlToken::Start(prefix.to_string(), local.to_string()),
        Token::Attribute { prefix, local, value, .. } => XmlToken::Attribute(prefix.to_string(), local.to_string(), value.to_string()),
        Token::ElementEnd { end: ElementEnd::Open, .. } => XmlToken::OpenEnd,
        Token::ElementEnd { end: ElementEnd::Empty, .. } => XmlToken::EmptyEnd,
        Token::ElementEnd { end: ElementEnd::Close(p, l), .. } => XmlToken::Close(p.to_string(), l.to_string()),
        Token::Text { text } => XmlToken::Text(text.to_string()),
        Token::Cdata { text, .. } => XmlToken::Cdata(text.to_string()),
        _ => XmlToken::Other,
    }))
}

/// What replacing the entity and character references of `raw` gives, or
/// `None` where one of them is unterminated or unknown.
pub uninterp spec fn unescaped(raw: Seq<char>) -> Option<Seq<char>>;

/// Relies on `strong_xml::utils::xml_unescape`: replaces `&name;` and
/// `&#n;` references; a text without `&` comes back as it is.
#[verifier::external_body]
pub(crate) fn unescape(raw: &str) -> (r: Result<String, strong_xml::XmlError>)
    ensures
        r is Ok <==> unescaped(raw@) is Some,
        r is Ok ==> unescaped(raw@) == Some(r->Ok_0@),
        !raw@.contains('&') ==> r is Ok && r->Ok_0@ == raw@,
{
    strong_xml::utils::xml_unescape(raw).map(|c| c.into_owned())
}

/// The five characters that XML text cannot hold as they are, and what
/// stands for each of them.
pub open spec fn escape_char(c: char) -> Seq<char> {
    if c == '<' {
        seq!['&', 'l', 't', ';']
    } else if c == '>' {
        seq!['&', 'g', 't', ';']
    } else if c == '&' {
        seq!['&', 'a', 'm', 'p', ';']
    } else if c == '\'' {
        seq!['&', 'a', 'p', 'o', 's', ';']
    } else if c == '"' {
        seq!['&', 'q', 'u', 'o', 't', ';']
    } else {
        seq![c]
    }
}

/// `s` with each special character replaced by its entity reference.
pub open spec fn escaped(s: Seq<char>) -> Seq<char>
    decreases s.len(),
{
    if s.len() == 0 {
        Seq::empty()
    } else {
        escaped(s.drop_last()) + escape_char(s.last())
    }
}

/// Relies on `strong_xml::utils::xml_escape`: each of `<`, `>`, `&`, `'`
/// and `"` is replaced by its entity reference, every other character kept.
#[verifier::external_body]
pub(crate) fn escape(s: &str) -> (r: String)
    ensures
        r@ == escaped(s@),
{
    strong_xml::utils::xml_escape(s).into_owned()
}

} // verus!
