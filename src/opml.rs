//! The OPML document model.
use crate::binding::{
    document_element, document_from_element, document_of, document_to_element,
    lemma_document_round_trip,
};
use crate::decimal::all_digits;
use crate::tree::{opt_str, read_tree, render, tree_of, write_element, XmlFault};
use vstd::prelude::*;

verus! {

/// The root `<opml>` element.
#[derive(Debug, Clone, PartialEq)]
pub struct OPML {
    /// The `version` attribute; `1.0`, `1.1` and `2.0` are supported.
    pub version: String,
    /// The `<head>` element: the document's metadata.
    pub head: Option<Head>,
    /// The `<body>` element: the outlines.
    pub body: Body,
}

/// The `<head>` element. Each field is a child element holding text; an
/// absent element is `None`, an empty one `Some("")`.
#[derive(Debug, Clone, PartialEq)]
pub struct Head {
    /// `<title>`
    pub title: Option<String>,
    /// `<dateCreated>`, a date-time kept as text
    pub date_created: Option<String>,
    /// `<dateModified>`, a date-time kept as text
    pub date_modified: Option<String>,
    /// `<ownerName>`
    pub owner_name: Option<String>,
    /// `<ownerEmail>`
    pub owner_email: Option<String>,
    /// `<ownerId>`
    pub owner_id: Option<String>,
    /// `<docs>`, a link to the format's documentation
    pub docs: Option<String>,
    /// `<expansionState>`, comma-separated line numbers
    pub expansion_state: Option<String>,
    /// `<vertScrollState>`
    pub vert_scroll_state: Option<i32>,
    /// `<windowTop>`
    pub window_top: Option<i32>,
    /// `<windowLeft>`
    pub window_left: Option<i32>,
    /// `<windowBottom>`
    pub window_bottom: Option<i32>,
    /// `<windowRight>`
    pub window_right: Option<i32>,
}

/// The `<body>` element.
#[derive(Debug, Clone, PartialEq)]
pub struct Body {
    /// The top-level `<outline>` elements, in document order.
    pub outlines: Vec<Outline>,
}

/// An `<outline>` element and the outlines nested in it.
#[derive(Debug, PartialEq)]
pub struct Outline {
    /// The `text` attribute; the empty string where it is absent.
    pub text: String,
    /// The `type` attribute: how the other attributes are to be read.
    pub kind: Option<String>,
    /// The `isComment` attribute.
    pub is_comment: Option<bool>,
    /// The `isBreakpoint` attribute.
    pub is_breakpoint: Option<bool>,
    /// The `created` attribute, a date-time kept as text.
    pub created: Option<String>,
    /// The `category` attribute.
    pub category: Option<String>,
    /// The nested `<outline>` elements, in document order.
    pub outlines: Vec<Outline>,
    /// The `xmlUrl` attribute: the address of a feed.
    pub xml_url: Option<String>,
    /// The `description` attribute.
    pub description: Option<String>,
    /// The `htmlUrl` attribute.
    pub html_url: Option<String>,
    /// The `language` attribute.
    pub language: Option<String>,
    /// The `title` attribute.
    pub title: Option<String>,
    /// The `version` attribute: the feed's format.
    pub version: Option<String>,
    /// The `url` attribute.
    pub url: Option<String>,
}

pub struct OutlineView {
    pub text: Seq<char>,
    pub kind: Option<Seq<char>>,
    pub is_comment: Option<bool>,
    pub is_breakpoint: Option<bool>,
    pub created: Option<Seq<char>>,
    pub category: Option<Seq<char>>,
    pub outlines: Seq<OutlineView>,
    pub xml_url: Option<Seq<char>>,
    pub description: Option<Seq<char>>,
    pub html_url: Option<Seq<char>>,
    pub language: Option<Seq<char>>,
    pub title: Option<Seq<char>>,
    pub version: Option<Seq<char>>,
    pub url: Option<Seq<char>>,
}

pub struct HeadView {
    pub title: Option<Seq<char>>,
    pub date_created: Option<Seq<char>>,
    pub date_modified: Option<Seq<char>>,
    pub owner_name: Option<Seq<char>>,
    pub owner_email: Option<Seq<char>>,
    pub owner_id: Option<Seq<char>>,
    pub docs: Option<Seq<char>>,
    pub expansion_state: Option<Seq<char>>,
    pub vert_scroll_state: Option<i32>,
    pub window_top: Option<i32>,
    pub window_left: Option<i32>,
    pub window_bottom: Option<i32>,
    pub window_right: Option<i32>,
}

pub struct OPMLView {
    pub version: Seq<char>,
    pub head: Option<HeadView>,
    pub body: Seq<OutlineView>,
}

/// An outline with every field absent and no text.
pub open spec fn empty_outline() -> OutlineView {
    OutlineView {
        text: Seq::empty(),
        kind: None,
        is_comment: None,
        is_breakpoint: None,
        created: None,
        category: None,
        outlines: Seq::empty(),
        xml_url: None,
        description: None,
        html_url: None,
        language: None,
        title: None,
        version: None,
        url: None,
    }
}

/// A head with every field absent.
pub open spec fn empty_head() -> HeadView {
    HeadView {
        title: None,
        date_created: None,
        date_modified: None,
        owner_name: None,
        owner_email: None,
        owner_id: None,
        docs: None,
        expansion_state: None,
        vert_scroll_state: None,
        window_top: None,
        window_left: None,
        window_bottom: None,
        window_right: None,
    }
}

/// The outline that `add_feed` appends.
pub open spec fn feed(text: Seq<char>, url: Seq<char>) -> OutlineView {
    OutlineView { text, xml_url: Some(url), ..empty_outline() }
}

pub open spec fn outline_view(o: Outline) -> OutlineView
    decreases o,
{
    OutlineView {
        text: o.text@,
        kind: opt_str(o.kind),
        is_comment: o.is_comment,
        is_breakpoint: o.is_breakpoint,
        created: opt_str(o.created),
        category: opt_str(o.category),
        outlines: Seq::new(
            o.outlines.len() as nat,
            |i: int|
                if 0 <= i < o.outlines.len() {
                    outline_view(o.outlines[i])
                } else {
                    empty_outline()
                },
        ),
        xml_url: opt_str(o.xml_url),
        description: opt_str(o.description),
        html_url: opt_str(o.html_url),
        language: opt_str(o.language),
        title: opt_str(o.title),
        version: opt_str(o.version),
        url: opt_str(o.url),
    }
}

impl View for Outline {
    type V = OutlineView;

    open spec fn view(&self) -> OutlineView {
        outline_view(*self)
    }
}

pub open spec fn outlines_view(os: Seq<Outline>) -> Seq<OutlineView> {
    os.map_values(|o: Outline| o@)
}

impl View for Body {
    type V = Seq<OutlineView>;

    open spec fn view(&self) -> Seq<OutlineView> {
        outlines_view(self.outlines@)
    }
}

impl View for Head {
    type V = HeadView;

    open spec fn view(&self) -> HeadView {
        HeadView {
            title: opt_str(self.title),
            date_created: opt_str(self.date_created),
            date_modified: opt_str(self.date_modified),
            owner_name: opt_str(self.owner_name),
            owner_email: opt_str(self.owner_email),
            owner_id: opt_str(self.owner_id),
            docs: opt_str(self.docs),
            expansion_state: opt_str(self.expansion_state),
            vert_scroll_state: self.vert_scroll_state,
            window_top: self.window_top,
            window_left: self.window_left,
            window_bottom: self.window_bottom,
            window_right: self.window_right,
        }
    }
}

pub open spec fn opt_head(h: Option<Head>) -> Option<HeadView> {
    match h {
        Some(h) => Some(h@),
        None => None,
    }
}

impl View for OPML {
    type V = OPMLView;

    open spec fn view(&self) -> OPMLView {
        OPMLView { version: self.version@, head: opt_head(self.head), body: self.body@ }
    }
}

impl Default for Outline {
    fn default() -> (o: Outline)
        ensures
            o@ == empty_outline(),
    {
        let o = Outline {
            text: String::new(),
            kind: None,
            is_comment: None,
            is_breakpoint: None,
            created: None,
            category: None,
            outlines: Vec::new(),
            xml_url: None,
            description: None,
            html_url: None,
            language: None,
            title: None,
            version: None,
            url: None,
        };
        assert(o@.outlines =~= Seq::<OutlineView>::empty());
        o
    }
}

impl Default for Head {
    fn default() -> (h: Head)
        ensures
            h@ == empty_head(),
    {
        Head {
            title: None,
            date_created: None,
            date_modified: None,
            owner_name: None,
            owner_email: None,
            owner_id: None,
            docs: None,
            expansion_state: None,
            vert_scroll_state: None,
            window_top: None,
            window_left: None,
            window_bottom: None,
            window_right: None,
        }
    }
}

impl Default for Body {
    fn default() -> (b: Body)
        ensures
            b@ == Seq::<OutlineView>::empty(),
    {
        let b = Body { outlines: Vec::new() };
        assert(b@ =~= Seq::<OutlineView>::empty());
        b
    }
}

impl Default for OPML {
    /// Version `2.0`, an empty head and an empty body.
    fn default() -> (d: OPML)
        ensures
            d@ == (OPMLView { version: "2.0"@, head: Some(empty_head()), body: Seq::empty() }),
    {
        OPML { version: String::from_str("2.0"), head: Some(Head::default()), body: Body::default() }
    }
}

impl Clone for Outline {
    /// A copy of the outline and everything nested in it.
    fn clone(&self) -> (r: Outline)
        ensures
            r@ == self@,
        decreases self,
    {
        let mut children: Vec<Outline> = Vec::new();
        let mut i: usize = 0;
        while i < self.outlines.len()
            invariant
                i <= self.outlines.len(),
                children.len() == i,
                forall|k: int| 0 <= k < i ==> (#[trigger] children[k])@ == self.outlines[k]@,
            decreases self.outlines.len() - i,
        {
            children.push(self.outlines[i].clone());
            i = i + 1;
        }
        let r = Outline {
            text: self.text.clone(),
            kind: self.kind.clone(),
            is_comment: self.is_comment,
            is_breakpoint: self.is_breakpoint,
            created: self.created.clone(),
            category: self.category.clone(),
            outlines: children,
            xml_url: self.xml_url.clone(),
            description: self.description.clone(),
            html_url: self.html_url.clone(),
            language: self.language.clone(),
            title: self.title.clone(),
            version: self.version.clone(),
            url: self.url.clone(),
        };
        assert(r@.outlines =~= self@.outlines);
        r
    }
}

} // verus!

verus! {

/// The error of `std::io`, opaque here.
#[verifier::external_type_specification]
#[verifier::external_body]
pub struct ExIoError(std::io::Error);

/// All possible errors.
#[derive(Debug)]
pub enum Error {
    /// The body holds no `<outline>` element.
    BodyHasNoOutlines,
    /// Reading from a reader or writing to a writer failed.
    IoError(std::io::Error),
    /// The `version` attribute is not `1.0`, `1.1` or `2.0`.
    UnsupportedVersion(String),
    /// The text is not well-formed XML, or does not have the shape of an
    /// OPML document.
    XmlError(XmlFault),
}

/// What went wrong, as a value.
pub enum Failure {
    BodyHasNoOutlines,
    Io,
    UnsupportedVersion(Seq<char>),
    Malformed(XmlFault),
}

pub open spec fn failure_of(e: Error) -> Failure {
    match e {
        Error::BodyHasNoOutlines => Failure::BodyHasNoOutlines,
        Error::IoError(_) => Failure::Io,
        Error::UnsupportedVersion(v) => Failure::UnsupportedVersion(v@),
        Error::XmlError(f) => Failure::Malformed(f),
    }
}

pub open spec fn outcome(r: Result<OPML, Error>) -> Result<OPMLView, Failure> {
    match r {
        Ok(d) => Ok(d@),
        Err(e) => Err(failure_of(e)),
    }
}

pub open spec fn supported_version(v: Seq<char>) -> bool {
    v == "1.0"@ || v == "1.1"@ || v == "2.0"@
}

/// The two rules of a document: a supported version, and a body that holds
/// at least one outline.
pub open spec fn checked(d: OPMLView) -> Result<OPMLView, Failure> {
    if !supported_version(d.version) {
        Err(Failure::UnsupportedVersion(d.version))
    } else if d.body.len() == 0 {
        Err(Failure::BodyHasNoOutlines)
    } else {
        Ok(d)
    }
}

/// What parsing a text gives.
pub open spec fn parsed(text: Seq<char>) -> Result<OPMLView, Failure> {
    match tree_of(text) {
        Err(f) => Err(Failure::Malformed(f)),
        Ok(e) => match document_of(e) {
            Err(f) => Err(Failure::Malformed(f)),
            Ok(d) => checked(d),
        },
    }
}

/// The text a document is written as.
pub open spec fn serialized(d: OPMLView) -> Seq<char> {
    render(document_element(d))
}

/// Whether a text is decimal digits, a dot, and decimal digits, all ASCII.
pub open spec fn ascii_dotted(v: Seq<char>) -> bool {
    exists|i: int|
        0 < i < v.len() && v[i] == '.' && all_digits(#[trigger] v.take(i)) && all_digits(
            v.skip(i + 1),
        )
}

/// Whether a text matches `^\d+\.\d+$`, where `\d` is any Unicode decimal
/// digit.
pub uninterp spec fn version_shaped(v: Seq<char>) -> bool;

/// Relies on `regex::Regex::is_match` with the pattern `^\d+\.\d+$`: the
/// whole text is digits, a dot and digits. `\d` takes in every ASCII digit.
#[verifier::external_body]
fn matches_version_shape(v: &str) -> (r: bool)
    ensures
        r == version_shaped(v@),
        ascii_dotted(v@) ==> r,
{
    regex::Regex::new(r"^\d+\.\d+$").unwrap().is_match(v)
}

proof fn lemma_supported_is_dotted(v: Seq<char>)
    requires
        supported_version(v),
    ensures
        ascii_dotted(v),
{
    reveal_strlit("1.0");
    reveal_strlit("1.1");
    reveal_strlit("2.0");
    assert(all_digits(v.take(1)));
    assert(all_digits(v.skip(2)));
}

fn is_supported_version(v: &String) -> (r: bool)
    ensures
        r == supported_version(v@),
{
    *v == String::from_str("1.0") || *v == String::from_str("1.1") || *v == String::from_str(
        "2.0",
    )
}

/// Relies on `std::io::Read::read_to_string`: whatever the reader yields,
/// or its error.
#[verifier::external_body]
fn read_all<R: std::io::Read>(reader: &mut R) -> (r: Result<String, std::io::Error>) {
    let mut s = String::new();
    reader.read_to_string(&mut s)?;
    Ok(s)
}

/// Relies on `std::io::Write::write_all`: the bytes of `text` are written,
/// or an error comes back.
#[verifier::external_body]
fn write_all<W: std::io::Write>(writer: &mut W, text: &str) -> (r: Result<(), std::io::Error>) {
    writer.write_all(text.as_bytes())
}

/// The document with a feed appended to its body.
pub open spec fn with_feed(d: OPMLView, text: Seq<char>, url: Seq<char>) -> OPMLView {
    OPMLView { body: d.body.push(feed(text, url)), ..d }
}

/// The outline with a feed appended to its children.
pub open spec fn outline_with_feed(o: OutlineView, text: Seq<char>, url: Seq<char>) -> OutlineView {
    OutlineView { outlines: o.outlines.push(feed(text, url)), ..o }
}

fn new_feed(text: &str, url: &str) -> (o: Outline)
    ensures
        o@ == feed(text@, url@),
{
    let mut o = Outline::default();
    o.text = text.to_owned();
    o.xml_url = Some(url.to_owned());
    assert(o@.outlines =~= Seq::<OutlineView>::empty());
    o
}

impl OPML {
    /// Parses a document: the text must be well-formed XML with an `<opml>`
    /// root, its version must be supported, and its body must hold an
    /// outline.
    pub fn from_str(xml: &str) -> (r: Result<OPML, Error>)
        ensures
            outcome(r) == parsed(xml@),
    {
        let tree = match read_tree(xml) {
            Ok(t) => t,
            Err(f) => return Err(Error::XmlError(f)),
        };
        let d = match document_from_element(&tree) {
            Ok(d) => d,
            Err(f) => return Err(Error::XmlError(f)),
        };
        proof {
            if supported_version(d.version@) {
                lemma_supported_is_dotted(d.version@);
            }
        }
        if !(matches_version_shape(d.version.as_str()) && is_supported_version(&d.version)) {
            return Err(Error::UnsupportedVersion(d.version));
        }
        if d.body.outlines.len() == 0 {
            return Err(Error::BodyHasNoOutlines);
        }
        Ok(d)
    }

    /// The same as [`OPML::from_str`].
    pub fn new(xml: &str) -> (r: Result<OPML, Error>)
        ensures
            outcome(r) == parsed(xml@),
    {
        OPML::from_str(xml)
    }

    /// Reads a whole text from `reader` and parses it.
    pub fn from_reader<R: std::io::Read>(reader: &mut R) -> (r: Result<OPML, Error>)
        ensures
            r matches Err(Error::IoError(_)) || exists|text: Seq<char>| outcome(r) == parsed(text),
    {
        match read_all(reader) {
            Ok(s) => OPML::from_str(s.as_str()),
            Err(e) => Err(Error::IoError(e)),
        }
    }

    /// Appends an outline with the given `text` and `xml_url` to the body.
    pub fn add_feed(&mut self, text: &str, url: &str) -> (r: &mut Self)
        ensures
            (*r)@ == with_feed(old(self)@, text@, url@),
            *final(self) == *final(r),
    {
        let o = new_feed(text, url);
        let ghost before = self.body.outlines@;
        self.body.outlines.push(o);
        assert(outlines_view(self.body.outlines@) =~= outlines_view(before).push(o@));
        self
    }

    /// Writes the document as XML text.
    pub fn to_string(&self) -> (r: Result<String, Error>)
        ensures
            r is Ok,
            r matches Ok(s) && s@ == serialized(self@),
    {
        let e = document_to_element(self);
        let mut out = String::new();
        write_element(&e, &mut out);
        Ok(out)
    }

    /// The same as [`OPML::to_string`].
    pub fn to_xml(&self) -> (r: Result<String, Error>)
        ensures
            r is Ok,
            r matches Ok(s) && s@ == serialized(self@),
    {
        self.to_string()
    }

    /// Writes the document as XML text to `writer`.
    pub fn to_writer<W: std::io::Write>(&self, writer: &mut W) -> (r: Result<(), Error>)
        ensures
            r is Ok || r matches Err(Error::IoError(_)),
    {
        let text = match self.to_string() {
            Ok(t) => t,
            Err(e) => return Err(e),
        };
        match write_all(writer, text.as_str()) {
            Ok(()) => Ok(()),
            Err(e) => Err(Error::IoError(e)),
        }
    }
}

impl Outline {
    /// Appends a child outline with the given `text` and `xml_url`.
    pub fn add_feed(&mut self, name: &str, url: &str) -> (r: &mut Self)
        ensures
            (*r)@ == outline_with_feed(old(self)@, name@, url@),
            *final(self) == *final(r),
    {
        let o = new_feed(name, url);
        let ghost before = *self;
        self.outlines.push(o);
        assert(self@.outlines =~= before@.outlines.push(o@)) by {
            assert forall|i: int| 0 <= i < self.outlines.len() implies self@.outlines[i] == before@.outlines.push(o@)[i] by {
                if i < before.outlines.len() {
                    assert(self.outlines[i] == before.outlines[i]);
                }
            }
        }
        self
    }
}

} // verus!

verus! {

/// Every outline of a forest in pre-order: each outline comes right before
/// the outlines nested in it, and those before its next sibling.
pub open spec fn preorder(os: Seq<OutlineView>) -> Seq<OutlineView>
    decreases os,
{
    if os.len() == 0 {
        Seq::empty()
    } else {
        preorder(os.drop_last()) + seq![os.last()] + preorder(os.last().outlines)
    }
}

fn push_subtree(o: &Outline, acc: &mut Vec<Outline>)
    ensures
        outlines_view(final(acc)@) == outlines_view(old(acc)@) + seq![o@] + preorder(o@.outlines),
    decreases o,
{
    let ghost ov = o@;
    let ghost start = outlines_view(acc@);
    acc.push(o.clone());
    assert(outlines_view(acc@) =~= start + seq![ov]);
    let mut i: usize = 0;
    assert(ov.outlines.take(0) =~= Seq::<OutlineView>::empty());
    while i < o.outlines.len()
        invariant
            i <= o.outlines.len(),
            ov == o@,
            outlines_view(acc@) == start + seq![ov] + preorder(ov.outlines.take(i as int)),
        decreases o.outlines.len() - i,
    {
        proof {
            assert(ov.outlines.take(i + 1).drop_last() =~= ov.outlines.take(i as int));
            assert(ov.outlines.take(i + 1).last() == o.outlines[i as int]@);
        }
        push_subtree(&o.outlines[i], acc);
        proof {
            let t = ov.outlines.take(i + 1);
            assert(preorder(t) == preorder(t.drop_last()) + seq![t.last()] + preorder(t.last().outlines));
        }
        i = i + 1;
        assert(outlines_view(acc@) =~= start + seq![ov] + preorder(ov.outlines.take(i as int)));
    }
    assert(ov.outlines.take(i as int) =~= ov.outlines);
}

/// All the outlines of a forest, nested ones included, in pre-order.
pub fn extract_all_outlines(outlines: &[Outline]) -> (r: Vec<Outline>)
    ensures
        outlines_view(r@) == preorder(outlines_view(outlines@)),
{
    let ghost os = outlines_view(outlines@);
    let mut acc: Vec<Outline> = Vec::new();
    let mut i: usize = 0;
    assert(os.take(0) =~= Seq::<OutlineView>::empty());
    assert(outlines_view(acc@) =~= Seq::<OutlineView>::empty());
    while i < outlines.len()
        invariant
            i <= outlines.len(),
            os == outlines_view(outlines@),
            outlines_view(acc@) == preorder(os.take(i as int)),
        decreases outlines.len() - i,
    {
        proof {
            assert(os.take(i + 1).drop_last() =~= os.take(i as int));
            assert(os.take(i + 1).last() == outlines[i as int]@);
        }
        push_subtree(&outlines[i], &mut acc);
        proof {
            let t = os.take(i + 1);
            assert(preorder(t) == preorder(t.drop_last()) + seq![t.last()] + preorder(t.last().outlines));
        }
        i = i + 1;
        assert(outlines_view(acc@) =~= preorder(os.take(i as int)));
    }
    assert(os.take(i as int) =~= os);
    acc
}

/// A document written out and read back is the same document, provided
/// its version is supported and its body holds an outline: reading the
/// `<opml>` element that it is written as gives it back, and the checks of
/// parsing let it through.
pub proof fn lemma_written_document_reads_back(d: OPMLView)
    requires
        supported_version(d.version),
        d.body.len() > 0,
    ensures
        document_of(document_element(d)) == Ok::<OPMLView, XmlFault>(d),
        checked(d) == Ok::<OPMLView, Failure>(d),
{
    lemma_document_round_trip(d);
}

/// The version gate: a document passes the checks of parsing if and only if
/// its version is `1.0`, `1.1` or `2.0` and its body holds an outline; an
/// unsupported version is reported with the version itself.
pub proof fn lemma_version_gate(d: OPMLView)
    ensures
        checked(d) is Ok <==> (supported_version(d.version) && d.body.len() > 0),
        !supported_version(d.version) ==> checked(d) == Err::<OPMLView, Failure>(
            Failure::UnsupportedVersion(d.version),
        ),
        supported_version(d.version) && d.body.len() == 0 ==> checked(d) == Err::<
            OPMLView,
            Failure,
        >(Failure::BodyHasNoOutlines),
{
}

/// Two feeds added to a fresh document are its two top-level outlines, in
/// the order they were added, each holding only its text and address.
pub proof fn lemma_add_feed_twice(t1: Seq<char>, u1: Seq<char>, t2: Seq<char>, u2: Seq<char>)
    ensures
        with_feed(
            with_feed(
                OPMLView { version: "2.0"@, head: Some(empty_head()), body: Seq::empty() },
                t1,
                u1,
            ),
            t2,
            u2,
        ).body =~= seq![feed(t1, u1), feed(t2, u2)],
{
}

} // verus!
