//! How OPML records map to XML elements and back: which attribute or child
//! element holds each field, when it may be absent, and its default.
use crate::decimal::{i32_text, i32_to_text, lemma_i32_text_round_trip, parse_i32, parsed_i32};
use crate::opml::{outlines_view, Body, Head, HeadView, OPMLView, Outline, OutlineView, OPML};
use crate::tree::{
    attributes_view, blank_element, opt_str, Attribute, AttributeView, Element, ElementView,
    XmlFault,
};
use vstd::prelude::*;

verus! {

/// Whether an element has the given name and no namespace prefix.
pub open spec fn is_named(e: ElementView, name: Seq<char>) -> bool {
    e.prefix.len() == 0 && e.name == name
}

/// The value of the last attribute with the given name and no prefix.
pub open spec fn find_attr(attrs: Seq<AttributeView>, name: Seq<char>) -> Option<Seq<char>>
    decreases attrs.len(),
{
    if attrs.len() == 0 {
        None
    } else if attrs.last().prefix.len() == 0 && attrs.last().name == name {
        Some(attrs.last().value)
    } else {
        find_attr(attrs.drop_last(), name)
    }
}

/// The last child element with the given name and no prefix.
pub open spec fn pick(cs: Seq<ElementView>, name: Seq<char>) -> Option<ElementView>
    decreases cs.len(),
{
    if cs.len() == 0 {
        None
    } else if is_named(cs.last(), name) {
        Some(cs.last())
    } else {
        pick(cs.drop_last(), name)
    }
}

pub open spec fn bool_of(v: Seq<char>) -> Option<bool> {
    if v == "true"@ {
        Some(true)
    } else if v == "false"@ {
        Some(false)
    } else {
        None
    }
}

pub open spec fn bool_text(b: bool) -> Seq<char> {
    if b {
        "true"@
    } else {
        "false"@
    }
}

/// An optional boolean attribute: absent, or `true` or `false` exactly.
pub open spec fn bool_attr(attrs: Seq<AttributeView>, name: Seq<char>) -> Result<
    Option<bool>,
    XmlFault,
> {
    match find_attr(attrs, name) {
        None => Ok(None),
        Some(v) => match bool_of(v) {
            Some(b) => Ok(Some(b)),
            None => Err(XmlFault::BadValue),
        },
    }
}

/// An optional child element holding text: absent, or its text (empty
/// where it has none). A child element inside it is refused.
pub open spec fn text_field(cs: Seq<ElementView>, name: Seq<char>) -> Result<
    Option<Seq<char>>,
    XmlFault,
> {
    match pick(cs, name) {
        None => Ok(None),
        Some(c) => if c.children.len() > 0 {
            Err(XmlFault::UnexpectedToken)
        } else {
            match c.text {
                Some(t) => Ok(Some(t)),
                None => Ok(Some(Seq::empty())),
            }
        },
    }
}

/// An optional child element holding a decimal `i32`.
pub open spec fn int_field(cs: Seq<ElementView>, name: Seq<char>) -> Result<Option<i32>, XmlFault> {
    match text_field(cs, name) {
        Err(f) => Err(f),
        Ok(None) => Ok(None),
        Ok(Some(t)) => match parsed_i32(t) {
            Some(i) => Ok(Some(i)),
            None => Err(XmlFault::BadValue),
        },
    }
}

/// The outline that an `<outline>` element stands for; unknown attributes
/// and child elements are passed over.
pub open spec fn outline_of(e: ElementView) -> Result<OutlineView, XmlFault>
    decreases e,
{
    let a = e.attributes;
    match bool_attr(a, "isComment"@) {
        Err(f) => Err(f),
        Ok(is_comment) => match bool_attr(a, "isBreakpoint"@) {
            Err(f) => Err(f),
            Ok(is_breakpoint) => match outlines_of(e.children) {
                Err(f) => Err(f),
                Ok(outlines) => Ok(
                    OutlineView {
                        text: match find_attr(a, "text"@) {
                            Some(t) => t,
                            None => Seq::empty(),
                        },
                        kind: find_attr(a, "type"@),
                        is_comment,
                        is_breakpoint,
                        created: find_attr(a, "created"@),
                        category: find_attr(a, "category"@),
                        outlines,
                        xml_url: find_attr(a, "xmlUrl"@),
                        description: find_attr(a, "description"@),
                        html_url: find_attr(a, "htmlUrl"@),
                        language: find_attr(a, "language"@),
                        title: find_attr(a, "title"@),
                        version: find_attr(a, "version"@),
                        url: find_attr(a, "url"@),
                    },
                ),
            },
        },
    }
}

/// The outlines that the `<outline>` elements among `cs` stand for, in
/// order; the first one that fails decides the error.
pub open spec fn outlines_of(cs: Seq<ElementView>) -> Result<Seq<OutlineView>, XmlFault>
    decreases cs,
{
    if cs.len() == 0 {
        Ok(Seq::empty())
    } else {
        match outlines_of(cs.drop_last()) {
            Err(f) => Err(f),
            Ok(prev) => if is_named(cs.last(), "outline"@) {
                match outline_of(cs.last()) {
                    Ok(o) => Ok(prev.push(o)),
                    Err(f) => Err(f),
                }
            } else {
                Ok(prev)
            },
        }
    }
}

/// The head that a `<head>` element stands for.
pub open spec fn head_of(e: ElementView) -> Result<HeadView, XmlFault> {
    let cs = e.children;
    let title = text_field(cs, "title"@);
    let date_created = text_field(cs, "dateCreated"@);
    let date_modified = text_field(cs, "dateModified"@);
    let owner_name = text_field(cs, "ownerName"@);
    let owner_email = text_field(cs, "ownerEmail"@);
    let owner_id = text_field(cs, "ownerId"@);
    let docs = text_field(cs, "docs"@);
    let expansion_state = text_field(cs, "expansionState"@);
    let vert_scroll_state = int_field(cs, "vertScrollState"@);
    let window_top = int_field(cs, "windowTop"@);
    let window_left = int_field(cs, "windowLeft"@);
    let window_bottom = int_field(cs, "windowBottom"@);
    let window_right = int_field(cs, "windowRight"@);
    if title is Err {
        Err(title->Err_0)
    } else if date_created is Err {
        Err(date_created->Err_0)
    } else if date_modified is Err {
        Err(date_modified->Err_0)
    } else if owner_name is Err {
        Err(owner_name->Err_0)
    } else if owner_email is Err {
        Err(owner_email->Err_0)
    } else if owner_id is Err {
        Err(owner_id->Err_0)
    } else if docs is Err {
        Err(docs->Err_0)
    } else if expansion_state is Err {
        Err(expansion_state->Err_0)
    } else if vert_scroll_state is Err {
        Err(vert_scroll_state->Err_0)
    } else if window_top is Err {
        Err(window_top->Err_0)
    } else if window_left is Err {
        Err(window_left->Err_0)
    } else if window_bottom is Err {
        Err(window_bottom->Err_0)
    } else if window_right is Err {
        Err(window_right->Err_0)
    } else {
        Ok(
            HeadView {
                title: title->Ok_0,
                date_created: date_created->Ok_0,
                date_modified: date_modified->Ok_0,
                owner_name: owner_name->Ok_0,
                owner_email: owner_email->Ok_0,
                owner_id: owner_id->Ok_0,
                docs: docs->Ok_0,
                expansion_state: expansion_state->Ok_0,
                vert_scroll_state: vert_scroll_state->Ok_0,
                window_top: window_top->Ok_0,
                window_left: window_left->Ok_0,
                window_bottom: window_bottom->Ok_0,
                window_right: window_right->Ok_0,
            },
        )
    }
}

/// The document that an `<opml>` element stands for, before the version
/// and the body are checked: the `version` attribute and the `<body>`
/// element are required, `<head>` is optional.
pub open spec fn document_of(e: ElementView) -> Result<OPMLView, XmlFault> {
    if !is_named(e, "opml"@) {
        Err(XmlFault::UnexpectedToken)
    } else {
        match find_attr(e.attributes, "version"@) {
            None => Err(XmlFault::MissingField),
            Some(version) => {
                let head = match pick(e.children, "head"@) {
                    None => Ok(None),
                    Some(h) => match head_of(h) {
                        Ok(h) => Ok(Some(h)),
                        Err(f) => Err(f),
                    },
                };
                match head {
                    Err(f) => Err(f),
                    Ok(head) => match pick(e.children, "body"@) {
                        None => Err(XmlFault::MissingField),
                        Some(b) => match outlines_of(b.children) {
                            Err(f) => Err(f),
                            Ok(body) => Ok(OPMLView { version, head, body }),
                        },
                    },
                }
            },
        }
    }
}

// The other direction.

pub open spec fn plain_attr(name: Seq<char>, value: Seq<char>) -> AttributeView {
    AttributeView { prefix: Seq::empty(), name, value }
}

pub open spec fn opt_attr(name: Seq<char>, v: Option<Seq<char>>) -> Seq<AttributeView> {
    match v {
        Some(x) => seq![plain_attr(name, x)],
        None => Seq::empty(),
    }
}

pub open spec fn opt_bool_attr(name: Seq<char>, v: Option<bool>) -> Seq<AttributeView> {
    match v {
        Some(b) => seq![plain_attr(name, bool_text(b))],
        None => Seq::empty(),
    }
}

/// The attributes of an outline, in the order of the schema; absent ones
/// are left out, `text` is always there.
pub open spec fn outline_attributes(o: OutlineView) -> Seq<AttributeView> {
    seq![plain_attr("text"@, o.text)] + opt_attr("type"@, o.kind) + opt_bool_attr(
        "isComment"@,
        o.is_comment,
    ) + opt_bool_attr("isBreakpoint"@, o.is_breakpoint) + opt_attr("created"@, o.created)
        + opt_attr("category"@, o.category) + opt_attr("xmlUrl"@, o.xml_url) + opt_attr(
        "description"@,
        o.description,
    ) + opt_attr("htmlUrl"@, o.html_url) + opt_attr("language"@, o.language) + opt_attr(
        "title"@,
        o.title,
    ) + opt_attr("version"@, o.version) + opt_attr("url"@, o.url)
}

/// The `<outline>` element of an outline.
pub open spec fn outline_element(o: OutlineView) -> ElementView
    decreases o,
{
    ElementView {
        prefix: Seq::empty(),
        name: "outline"@,
        attributes: outline_attributes(o),
        children: Seq::new(
            o.outlines.len(),
            |i: int|
                if 0 <= i < o.outlines.len() {
                    outline_element(o.outlines[i])
                } else {
                    blank_element(Seq::empty(), Seq::empty())
                },
        ),
        text: None,
    }
}

pub open spec fn outline_elements(os: Seq<OutlineView>) -> Seq<ElementView> {
    Seq::new(os.len(), |i: int| outline_element(os[i]))
}

/// An element with no attributes or children that holds a text.
pub open spec fn text_element(name: Seq<char>, t: Seq<char>) -> ElementView {
    ElementView { text: Some(t), ..blank_element(Seq::empty(), name) }
}

pub open spec fn opt_text_element(name: Seq<char>, v: Option<Seq<char>>) -> Seq<ElementView> {
    match v {
        Some(t) => seq![text_element(name, t)],
        None => Seq::empty(),
    }
}

pub open spec fn opt_int_element(name: Seq<char>, v: Option<i32>) -> Seq<ElementView> {
    match v {
        Some(i) => seq![text_element(name, i32_text(i))],
        None => Seq::empty(),
    }
}

/// The `<head>` element of a head: one child for each present field, in
/// the order of the schema.
pub open spec fn head_element(h: HeadView) -> ElementView {
    ElementView {
        children: opt_text_element("title"@, h.title) + opt_text_element(
            "dateCreated"@,
            h.date_created,
        ) + opt_text_element("dateModified"@, h.date_modified) + opt_text_element(
            "ownerName"@,
            h.owner_name,
        ) + opt_text_element("ownerEmail"@, h.owner_email) + opt_text_element(
            "ownerId"@,
            h.owner_id,
        ) + opt_text_element("docs"@, h.docs) + opt_text_element(
            "expansionState"@,
            h.expansion_state,
        ) + opt_int_element("vertScrollState"@, h.vert_scroll_state) + opt_int_element(
            "windowTop"@,
            h.window_top,
        ) + opt_int_element("windowLeft"@, h.window_left) + opt_int_element(
            "windowBottom"@,
            h.window_bottom,
        ) + opt_int_element("windowRight"@, h.window_right),
        ..blank_element(Seq::empty(), "head"@)
    }
}

/// The `<opml>` element of a document.
pub open spec fn document_element(d: OPMLView) -> ElementView {
    let head = match d.head {
        Some(h) => seq![head_element(h)],
        None => Seq::empty(),
    };
    let body = ElementView {
        children: outline_elements(d.body),
        ..blank_element(Seq::empty(), "body"@)
    };
    ElementView {
        attributes: seq![plain_attr("version"@, d.version)],
        children: head.push(body),
        ..blank_element(Seq::empty(), "opml"@)
    }
}

} // verus!

verus! {

pub broadcast proof fn lemma_find_attr_concat(a: Seq<AttributeView>, b: Seq<AttributeView>, n: Seq<char>)
    ensures
        #[trigger] find_attr(a + b, n) == match find_attr(b, n) {
            Some(v) => Some(v),
            None => find_attr(a, n),
        },
    decreases b.len(),
{
    if b.len() > 0 {
        assert((a + b).drop_last() =~= a + b.drop_last());
        assert((a + b).last() == b.last());
        lemma_find_attr_concat(a, b.drop_last(), n);
    } else {
        assert(a + b =~= a);
    }
}

pub broadcast proof fn lemma_find_attr_single(x: AttributeView, n: Seq<char>)
    ensures
        #[trigger] find_attr(seq![x], n) == if x.prefix.len() == 0 && x.name == n {
            Some(x.value)
        } else {
            None
        },
{
    assert(seq![x].drop_last() =~= Seq::<AttributeView>::empty());
    assert(find_attr(Seq::<AttributeView>::empty(), n) is None);
}

pub broadcast proof fn lemma_find_opt_attr(m: Seq<char>, v: Option<Seq<char>>, n: Seq<char>)
    ensures
        #[trigger] find_attr(opt_attr(m, v), n) == if m == n {
            v
        } else {
            None
        },
{
    if let Some(x) = v {
        lemma_find_attr_single(plain_attr(m, x), n);
    }
}

pub broadcast proof fn lemma_find_opt_bool_attr(m: Seq<char>, v: Option<bool>, n: Seq<char>)
    ensures
        #[trigger] find_attr(opt_bool_attr(m, v), n) == if m == n && v is Some {
            Some(bool_text(v->Some_0))
        } else {
            None
        },
{
    if let Some(b) = v {
        lemma_find_attr_single(plain_attr(m, bool_text(b)), n);
    }
}

pub broadcast proof fn lemma_pick_concat(a: Seq<ElementView>, b: Seq<ElementView>, n: Seq<char>)
    ensures
        #[trigger] pick(a + b, n) == match pick(b, n) {
            Some(v) => Some(v),
            None => pick(a, n),
        },
    decreases b.len(),
{
    if b.len() > 0 {
        assert((a + b).drop_last() =~= a + b.drop_last());
        assert((a + b).last() == b.last());
        lemma_pick_concat(a, b.drop_last(), n);
    } else {
        assert(a + b =~= a);
    }
}

pub broadcast proof fn lemma_pick_single(x: ElementView, n: Seq<char>)
    ensures
        #[trigger] pick(seq![x], n) == if is_named(x, n) {
            Some(x)
        } else {
            None
        },
{
    assert(seq![x].drop_last() =~= Seq::<ElementView>::empty());
    assert(pick(Seq::<ElementView>::empty(), n) is None);
}

pub broadcast proof fn lemma_pick_opt_text(m: Seq<char>, v: Option<Seq<char>>, n: Seq<char>)
    ensures
        #[trigger] pick(opt_text_element(m, v), n) == if m == n && v is Some {
            Some(text_element(m, v->Some_0))
        } else {
            None
        },
{
    if let Some(t) = v {
        lemma_pick_single(text_element(m, t), n);
    }
}

pub broadcast proof fn lemma_pick_opt_int(m: Seq<char>, v: Option<i32>, n: Seq<char>)
    ensures
        #[trigger] pick(opt_int_element(m, v), n) == if m == n && v is Some {
            Some(text_element(m, i32_text(v->Some_0)))
        } else {
            None
        },
{
    if let Some(i) = v {
        lemma_pick_single(text_element(m, i32_text(i)), n);
    }
}

/// The names of the outline attributes, and of `true` and `false`, are
/// told apart by their lengths or a character.
proof fn lemma_attribute_names()
    ensures
        "text"@.len() == 4 && "type"@.len() == 4 && "text"@ != "type"@,
        "isComment"@.len() == 9 && "isBreakpoint"@.len() == 12,
        "created"@.len() == 7 && "htmlUrl"@.len() == 7 && "version"@.len() == 7,
        "created"@ != "htmlUrl"@ && "created"@ != "version"@ && "htmlUrl"@ != "version"@,
        "category"@.len() == 8 && "language"@.len() == 8 && "category"@ != "language"@,
        "xmlUrl"@.len() == 6 && "description"@.len() == 11 && "title"@.len() == 5,
        "url"@.len() == 3,
        "true"@.len() == 4 && "false"@.len() == 5,
{
    reveal_strlit("text");
    reveal_strlit("type");
    reveal_strlit("isComment");
    reveal_strlit("isBreakpoint");
    reveal_strlit("created");
    reveal_strlit("category");
    reveal_strlit("xmlUrl");
    reveal_strlit("description");
    reveal_strlit("htmlUrl");
    reveal_strlit("language");
    reveal_strlit("title");
    reveal_strlit("version");
    reveal_strlit("url");
    reveal_strlit("true");
    reveal_strlit("false");
    assert("text"@[1] != "type"@[1]);
    assert("created"@[0] != "htmlUrl"@[0]);
    assert("created"@[0] != "version"@[0]);
    assert("htmlUrl"@[0] != "version"@[0]);
    assert("category"@[0] != "language"@[0]);
}

proof fn lemma_outline_attributes(o: OutlineView)
    ensures
        find_attr(outline_attributes(o), "text"@) == Some(o.text),
        find_attr(outline_attributes(o), "type"@) == o.kind,
        bool_attr(outline_attributes(o), "isComment"@) == Ok::<_, XmlFault>(o.is_comment),
        bool_attr(outline_attributes(o), "isBreakpoint"@) == Ok::<_, XmlFault>(o.is_breakpoint),
        find_attr(outline_attributes(o), "created"@) == o.created,
        find_attr(outline_attributes(o), "category"@) == o.category,
        find_attr(outline_attributes(o), "xmlUrl"@) == o.xml_url,
        find_attr(outline_attributes(o), "description"@) == o.description,
        find_attr(outline_attributes(o), "htmlUrl"@) == o.html_url,
        find_attr(outline_attributes(o), "language"@) == o.language,
        find_attr(outline_attributes(o), "title"@) == o.title,
        find_attr(outline_attributes(o), "version"@) == o.version,
        find_attr(outline_attributes(o), "url"@) == o.url,
{
    broadcast use lemma_find_attr_concat, lemma_find_attr_single, lemma_find_opt_attr,
        lemma_find_opt_bool_attr;

    lemma_attribute_names();
    assert(bool_of(bool_text(true)) == Some(true));
    assert(bool_of(bool_text(false)) == Some(false));
}

} // verus!

verus! {

/// The names of the head's child elements, and of the elements of a
/// document, are told apart by their lengths or their first character.
proof fn lemma_element_names()
    ensures
        "title"@.len() == 5 && "ownerId"@.len() == 7 && "docs"@.len() == 4,
        "expansionState"@.len() == 14 && "vertScrollState"@.len() == 15,
        "dateCreated"@.len() == 11 && "windowRight"@.len() == 11 && "dateCreated"@ != "windowRight"@,
        "dateModified"@.len() == 12 && "windowBottom"@.len() == 12 && "dateModified"@
            != "windowBottom"@,
        "ownerName"@.len() == 9 && "windowTop"@.len() == 9 && "ownerName"@ != "windowTop"@,
        "ownerEmail"@.len() == 10 && "windowLeft"@.len() == 10 && "ownerEmail"@ != "windowLeft"@,
        "head"@ != "body"@,
{
    reveal_strlit("title");
    reveal_strlit("dateCreated");
    reveal_strlit("dateModified");
    reveal_strlit("ownerName");
    reveal_strlit("ownerEmail");
    reveal_strlit("ownerId");
    reveal_strlit("docs");
    reveal_strlit("expansionState");
    reveal_strlit("vertScrollState");
    reveal_strlit("windowTop");
    reveal_strlit("windowLeft");
    reveal_strlit("windowBottom");
    reveal_strlit("windowRight");
    reveal_strlit("head");
    reveal_strlit("body");
    assert("dateCreated"@[0] != "windowRight"@[0]);
    assert("dateModified"@[0] != "windowBottom"@[0]);
    assert("ownerName"@[0] != "windowTop"@[0]);
    assert("ownerEmail"@[0] != "windowLeft"@[0]);
    assert("head"@[0] != "body"@[0]);
}

proof fn lemma_head_text_fields(h: HeadView)
    ensures
        text_field(head_element(h).children, "title"@) == Ok::<_, XmlFault>(h.title),
        text_field(head_element(h).children, "dateCreated"@) == Ok::<_, XmlFault>(h.date_created),
        text_field(head_element(h).children, "dateModified"@) == Ok::<_, XmlFault>(
            h.date_modified,
        ),
        text_field(head_element(h).children, "ownerName"@) == Ok::<_, XmlFault>(h.owner_name),
        text_field(head_element(h).children, "ownerEmail"@) == Ok::<_, XmlFault>(h.owner_email),
        text_field(head_element(h).children, "ownerId"@) == Ok::<_, XmlFault>(h.owner_id),
        text_field(head_element(h).children, "docs"@) == Ok::<_, XmlFault>(h.docs),
        text_field(head_element(h).children, "expansionState"@) == Ok::<_, XmlFault>(
            h.expansion_state,
        ),
{
    broadcast use lemma_pick_concat, lemma_pick_opt_text, lemma_pick_opt_int;

    lemma_element_names();
}

proof fn lemma_head_int_fields(h: HeadView)
    ensures
        int_field(head_element(h).children, "vertScrollState"@) == Ok::<_, XmlFault>(
            h.vert_scroll_state,
        ),
        int_field(head_element(h).children, "windowTop"@) == Ok::<_, XmlFault>(h.window_top),
        int_field(head_element(h).children, "windowLeft"@) == Ok::<_, XmlFault>(h.window_left),
        int_field(head_element(h).children, "windowBottom"@) == Ok::<_, XmlFault>(
            h.window_bottom,
        ),
        int_field(head_element(h).children, "windowRight"@) == Ok::<_, XmlFault>(
            h.window_right,
        ),
{
    broadcast use lemma_pick_concat, lemma_pick_opt_text, lemma_pick_opt_int;

    lemma_element_names();
    if let Some(i) = h.vert_scroll_state {
        lemma_i32_text_round_trip(i);
    }
    if let Some(i) = h.window_top {
        lemma_i32_text_round_trip(i);
    }
    if let Some(i) = h.window_left {
        lemma_i32_text_round_trip(i);
    }
    if let Some(i) = h.window_bottom {
        lemma_i32_text_round_trip(i);
    }
    if let Some(i) = h.window_right {
        lemma_i32_text_round_trip(i);
    }
}

/// A head reads back from its element unchanged.
pub proof fn lemma_head_round_trip(h: HeadView)
    ensures
        head_of(head_element(h)) == Ok::<HeadView, XmlFault>(h),
{
    lemma_head_text_fields(h);
    lemma_head_int_fields(h);
}

/// An outline, with everything nested in it, reads back from its element
/// unchanged.
pub proof fn lemma_outline_round_trip(o: OutlineView)
    ensures
        outline_of(outline_element(o)) == Ok::<OutlineView, XmlFault>(o),
    decreases o, o.outlines.len() + 1,
{
    let e = outline_element(o);
    lemma_outline_attributes(o);
    lemma_nested_round_trip(o, o.outlines.len() as int);
    assert(e.children.take(o.outlines.len() as int) =~= e.children);
    assert(o.outlines.take(o.outlines.len() as int) =~= o.outlines);
}

proof fn lemma_nested_round_trip(o: OutlineView, i: int)
    requires
        0 <= i <= o.outlines.len(),
    ensures
        outlines_of(outline_element(o).children.take(i)) == Ok::<Seq<OutlineView>, XmlFault>(
            o.outlines.take(i),
        ),
    decreases o, i,
{
    let cs = outline_element(o).children;
    if i > 0 {
        lemma_nested_round_trip(o, i - 1);
        lemma_outline_round_trip(o.outlines[i - 1]);
        assert(cs.take(i).drop_last() =~= cs.take(i - 1));
        assert(cs.take(i).last() == outline_element(o.outlines[i - 1]));
        assert(o.outlines.take(i) =~= o.outlines.take(i - 1).push(o.outlines[i - 1]));
    } else {
        assert(cs.take(0) =~= Seq::<ElementView>::empty());
        assert(o.outlines.take(0) =~= Seq::<OutlineView>::empty());
    }
}

proof fn lemma_outline_list_round_trip(os: Seq<OutlineView>, i: int)
    requires
        0 <= i <= os.len(),
    ensures
        outlines_of(outline_elements(os).take(i)) == Ok::<Seq<OutlineView>, XmlFault>(
            os.take(i),
        ),
    decreases i,
{
    let cs = outline_elements(os);
    if i > 0 {
        lemma_outline_list_round_trip(os, i - 1);
        lemma_outline_round_trip(os[i - 1]);
        assert(cs.take(i).drop_last() =~= cs.take(i - 1));
        assert(cs.take(i).last() == outline_element(os[i - 1]));
        assert(os.take(i) =~= os.take(i - 1).push(os[i - 1]));
    } else {
        assert(cs.take(0) =~= Seq::<ElementView>::empty());
        assert(os.take(0) =~= Seq::<OutlineView>::empty());
    }
}

/// Every document reads back from the element it is written as: the
/// version, the head with each of its fields, and the outlines with their
/// attributes, nesting and order.
pub proof fn lemma_document_round_trip(d: OPMLView)
    ensures
        document_of(document_element(d)) == Ok::<OPMLView, XmlFault>(d),
{
    broadcast use lemma_pick_concat, lemma_pick_single, lemma_find_attr_single;

    let e = document_element(d);
    let head = match d.head {
        Some(h) => seq![head_element(h)],
        None => Seq::empty(),
    };
    let body = ElementView {
        children: outline_elements(d.body),
        ..blank_element(Seq::empty(), "body"@)
    };
    lemma_element_names();
    assert(e.children =~= head + seq![body]);
    assert(pick(head, "body"@) is None) by {
        if let Some(h) = d.head {
            lemma_pick_single(head_element(h), "body"@);
        }
    }
    if let Some(h) = d.head {
        lemma_head_round_trip(h);
    }
    lemma_outline_list_round_trip(d.body, d.body.len() as int);
    assert(outline_elements(d.body).take(d.body.len() as int) =~= outline_elements(d.body));
    assert(d.body.take(d.body.len() as int) =~= d.body);
}

} // verus!

verus! {

pub open spec fn text_result(r: Result<Option<String>, XmlFault>) -> Result<
    Option<Seq<char>>,
    XmlFault,
> {
    match r {
        Ok(v) => Ok(opt_str(v)),
        Err(f) => Err(f),
    }
}

pub open spec fn outline_result(r: Result<Outline, XmlFault>) -> Result<OutlineView, XmlFault> {
    match r {
        Ok(o) => Ok(o@),
        Err(f) => Err(f),
    }
}

pub open spec fn outlines_result(r: Result<Vec<Outline>, XmlFault>) -> Result<
    Seq<OutlineView>,
    XmlFault,
> {
    match r {
        Ok(v) => Ok(outlines_view(v@)),
        Err(f) => Err(f),
    }
}

pub open spec fn head_result(r: Result<Head, XmlFault>) -> Result<HeadView, XmlFault> {
    match r {
        Ok(h) => Ok(h@),
        Err(f) => Err(f),
    }
}

pub open spec fn document_result(r: Result<OPML, XmlFault>) -> Result<OPMLView, XmlFault> {
    match r {
        Ok(d) => Ok(d@),
        Err(f) => Err(f),
    }
}

/// The value of the last unprefixed attribute with the given name.
fn attr_value(attrs: &Vec<Attribute>, name: &str) -> (r: Option<String>)
    ensures
        opt_str(r) == find_attr(attributes_view(attrs@), name@),
{
    let key = name.to_owned();
    let ghost views = attributes_view(attrs@);
    let mut found: Option<String> = None;
    let mut i: usize = 0;
    while i < attrs.len()
        invariant
            i <= attrs.len(),
            views == attributes_view(attrs@),
            key@ == name@,
            opt_str(found) == find_attr(views.take(i as int), name@),
        decreases attrs.len() - i,
    {
        let a = &attrs[i];
        proof {
            assert(views.take(i + 1).drop_last() =~= views.take(i as int));
            assert(views.take(i + 1).last() == a@);
        }
        if a.prefix.as_str().is_empty() && a.name == key {
            found = Some(a.value.clone());
        }
        i = i + 1;
    }
    assert(views.take(i as int) =~= views);
    found
}

fn bool_attr_value(attrs: &Vec<Attribute>, name: &str) -> (r: Result<Option<bool>, XmlFault>)
    ensures
        r == bool_attr(attributes_view(attrs@), name@),
{
    match attr_value(attrs, name) {
        None => Ok(None),
        Some(v) => {
            let t = String::from_str("true");
            let f = String::from_str("false");
            if v == t {
                Ok(Some(true))
            } else if v == f {
                Ok(Some(false))
            } else {
                Err(XmlFault::BadValue)
            }
        },
    }
}

/// The index of the last unprefixed child of `e` with the given name.
fn pick_index(e: &Element, name: &str) -> (r: Option<usize>)
    ensures
        match r {
            Some(k) => k < e.children.len() && pick(e@.children, name@) == Some(
                e.children[k as int]@,
            ),
            None => pick(e@.children, name@) is None,
        },
{
    let key = name.to_owned();
    let ghost cs = e@.children;
    let mut found: Option<usize> = None;
    let mut i: usize = 0;
    while i < e.children.len()
        invariant
            i <= e.children.len(),
            cs == e@.children,
            key@ == name@,
            match found {
                Some(k) => k < i && pick(cs.take(i as int), name@) == Some(e.children[k as int]@),
                None => pick(cs.take(i as int), name@) is None,
            },
        decreases e.children.len() - i,
    {
        let c = &e.children[i];
        proof {
            assert(cs.take(i + 1).drop_last() =~= cs.take(i as int));
            assert(cs.take(i + 1).last() == c@);
        }
        if c.prefix.as_str().is_empty() && c.name == key {
            found = Some(i);
        }
        i = i + 1;
    }
    assert(cs.take(i as int) =~= cs);
    found
}

fn text_field_value(e: &Element, name: &str) -> (r: Result<Option<String>, XmlFault>)
    ensures
        text_result(r) == text_field(e@.children, name@),
{
    match pick_index(e, name) {
        None => Ok(None),
        Some(k) => {
            let c = &e.children[k];
            if c.children.len() > 0 {
                Err(XmlFault::UnexpectedToken)
            } else {
                match &c.text {
                    Some(t) => Ok(Some(t.clone())),
                    None => Ok(Some(String::new())),
                }
            }
        },
    }
}

fn int_field_value(e: &Element, name: &str) -> (r: Result<Option<i32>, XmlFault>)
    ensures
        r == int_field(e@.children, name@),
{
    match text_field_value(e, name) {
        Err(f) => Err(f),
        Ok(None) => Ok(None),
        Ok(Some(t)) => match parse_i32(t.as_str()) {
            Some(i) => Ok(Some(i)),
            None => Err(XmlFault::BadValue),
        },
    }
}

proof fn lemma_outlines_error_stays(cs: Seq<ElementView>, i: int)
    requires
        0 <= i <= cs.len(),
        outlines_of(cs.take(i)) is Err,
    ensures
        outlines_of(cs) == outlines_of(cs.take(i)),
    decreases cs.len() - i,
{
    if i < cs.len() {
        assert(cs.take(i + 1).drop_last() =~= cs.take(i));
        lemma_outlines_error_stays(cs, i + 1);
    } else {
        assert(cs.take(i) =~= cs);
    }
}

/// Reads an outline from an `<outline>` element.
pub fn outline_from_element(e: &Element) -> (r: Result<Outline, XmlFault>)
    ensures
        outline_result(r) == outline_of(e@),
    decreases e, 1int,
{
    let is_comment = bool_attr_value(&e.attributes, "isComment")?;
    let is_breakpoint = bool_attr_value(&e.attributes, "isBreakpoint")?;
    let outlines = outlines_from_children(e)?;
    let text = match attr_value(&e.attributes, "text") {
        Some(t) => t,
        None => String::new(),
    };
    let o = Outline {
        text,
        kind: attr_value(&e.attributes, "type"),
        is_comment,
        is_breakpoint,
        created: attr_value(&e.attributes, "created"),
        category: attr_value(&e.attributes, "category"),
        outlines,
        xml_url: attr_value(&e.attributes, "xmlUrl"),
        description: attr_value(&e.attributes, "description"),
        html_url: attr_value(&e.attributes, "htmlUrl"),
        language: attr_value(&e.attributes, "language"),
        title: attr_value(&e.attributes, "title"),
        version: attr_value(&e.attributes, "version"),
        url: attr_value(&e.attributes, "url"),
    };
    assert(o@.outlines =~= outlines_view(o.outlines@));
    Ok(o)
}

/// Reads the outlines among the child elements of `e`, in order.
pub fn outlines_from_children(e: &Element) -> (r: Result<Vec<Outline>, XmlFault>)
    ensures
        outlines_result(r) == outlines_of(e@.children),
    decreases e, 0int,
{
    let ghost cs = e@.children;
    let key = String::from_str("outline");
    let mut acc: Vec<Outline> = Vec::new();
    let mut i: usize = 0;
    assert(cs.take(0) =~= Seq::<ElementView>::empty());
    assert(outlines_view(acc@) =~= Seq::<OutlineView>::empty());
    while i < e.children.len()
        invariant
            i <= e.children.len(),
            cs == e@.children,
            key@ == "outline"@,
            outlines_of(cs.take(i as int)) == Ok::<_, XmlFault>(outlines_view(acc@)),
        decreases e.children.len() - i,
    {
        let c = &e.children[i];
        proof {
            assert(cs.take(i + 1).drop_last() =~= cs.take(i as int));
            assert(cs.take(i + 1).last() == c@);
        }
        if c.prefix.as_str().is_empty() && c.name == key {
            match outline_from_element(c) {
                Ok(o) => {
                    let ghost before = acc@;
                    acc.push(o);
                    assert(outlines_view(acc@) =~= outlines_view(before).push(o@));
                },
                Err(f) => {
                    proof {
                        lemma_outlines_error_stays(cs, i + 1);
                    }
                    return Err(f);
                },
            }
        }
        i = i + 1;
    }
    assert(cs.take(i as int) =~= cs);
    Ok(acc)
}

fn head_from_element(e: &Element) -> (r: Result<Head, XmlFault>)
    ensures
        head_result(r) == head_of(e@),
{
    let title = text_field_value(e, "title")?;
    let date_created = text_field_value(e, "dateCreated")?;
    let date_modified = text_field_value(e, "dateModified")?;
    let owner_name = text_field_value(e, "ownerName")?;
    let owner_email = text_field_value(e, "ownerEmail")?;
    let owner_id = text_field_value(e, "ownerId")?;
    let docs = text_field_value(e, "docs")?;
    let expansion_state = text_field_value(e, "expansionState")?;
    let vert_scroll_state = int_field_value(e, "vertScrollState")?;
    let window_top = int_field_value(e, "windowTop")?;
    let window_left = int_field_value(e, "windowLeft")?;
    let window_bottom = int_field_value(e, "windowBottom")?;
    let window_right = int_field_value(e, "windowRight")?;
    Ok(
        Head {
            title,
            date_created,
            date_modified,
            owner_name,
            owner_email,
            owner_id,
            docs,
            expansion_state,
            vert_scroll_state,
            window_top,
            window_left,
            window_bottom,
            window_right,
        },
    )
}

/// Reads a document from an `<opml>` element, without checking its
/// version or that its body holds an outline.
pub fn document_from_element(e: &Element) -> (r: Result<OPML, XmlFault>)
    ensures
        document_result(r) == document_of(e@),
{
    let opml = String::from_str("opml");
    if !(e.prefix.as_str().is_empty() && e.name == opml) {
        return Err(XmlFault::UnexpectedToken);
    }
    let version = match attr_value(&e.attributes, "version") {
        Some(v) => v,
        None => return Err(XmlFault::MissingField),
    };
    let head = match pick_index(e, "head") {
        None => None,
        Some(k) => Some(head_from_element(&e.children[k])?),
    };
    let outlines = match pick_index(e, "body") {
        None => return Err(XmlFault::MissingField),
        Some(k) => outlines_from_children(&e.children[k])?,
    };
    Ok(OPML { version, head, body: Body { outlines } })
}

} // verus!

verus! {

pub open spec fn elements_view(s: Seq<Element>) -> Seq<ElementView> {
    s.map_values(|e: Element| e@)
}

fn element_with(name: &str, attributes: Vec<Attribute>, children: Vec<Element>, text: Option<String>) -> (e: Element)
    ensures
        e@ == (ElementView {
            prefix: Seq::empty(),
            name: name@,
            attributes: attributes_view(attributes@),
            children: elements_view(children@),
            text: opt_str(text),
        }),
{
    let e = Element { prefix: String::new(), name: name.to_owned(), attributes, children, text };
    assert(e@.children =~= elements_view(e.children@));
    e
}

fn push_attr(attrs: &mut Vec<Attribute>, name: &str, value: String)
    ensures
        attributes_view(final(attrs)@) == attributes_view(old(attrs)@) + seq![plain_attr(name@, value@)],
{
    let a = Attribute { prefix: String::new(), name: name.to_owned(), value };
    attrs.push(a);
    assert(attributes_view(attrs@) =~= attributes_view(old(attrs)@) + seq![plain_attr(name@, a.value@)]);
}

fn push_opt_attr(attrs: &mut Vec<Attribute>, name: &str, v: &Option<String>)
    ensures
        attributes_view(final(attrs)@) == attributes_view(old(attrs)@) + opt_attr(name@, opt_str(*v)),
{
    match v {
        Some(x) => push_attr(attrs, name, x.clone()),
        None => {
            assert(attributes_view(attrs@) =~= attributes_view(attrs@) + Seq::<AttributeView>::empty());
        },
    }
}

fn push_opt_bool_attr(attrs: &mut Vec<Attribute>, name: &str, v: Option<bool>)
    ensures
        attributes_view(final(attrs)@) == attributes_view(old(attrs)@) + opt_bool_attr(name@, v),
{
    match v {
        Some(b) => {
            let t = if b {
                String::from_str("true")
            } else {
                String::from_str("false")
            };
            push_attr(attrs, name, t);
        },
        None => {
            assert(attributes_view(attrs@) =~= attributes_view(attrs@) + Seq::<AttributeView>::empty());
        },
    }
}

/// Writes an outline, and the outlines nested in it, as an `<outline>`
/// element.
pub fn outline_to_element(o: &Outline) -> (e: Element)
    ensures
        e@ == outline_element(o@),
    decreases o,
{
    let mut attrs: Vec<Attribute> = Vec::new();
    assert(attributes_view(attrs@) =~= Seq::<AttributeView>::empty());
    push_attr(&mut attrs, "text", o.text.clone());
    assert(attributes_view(attrs@) =~= seq![plain_attr("text"@, o.text@)]);
    push_opt_attr(&mut attrs, "type", &o.kind);
    push_opt_bool_attr(&mut attrs, "isComment", o.is_comment);
    push_opt_bool_attr(&mut attrs, "isBreakpoint", o.is_breakpoint);
    push_opt_attr(&mut attrs, "created", &o.created);
    push_opt_attr(&mut attrs, "category", &o.category);
    push_opt_attr(&mut attrs, "xmlUrl", &o.xml_url);
    push_opt_attr(&mut attrs, "description", &o.description);
    push_opt_attr(&mut attrs, "htmlUrl", &o.html_url);
    push_opt_attr(&mut attrs, "language", &o.language);
    push_opt_attr(&mut attrs, "title", &o.title);
    push_opt_attr(&mut attrs, "version", &o.version);
    push_opt_attr(&mut attrs, "url", &o.url);
    let ghost ov = o@;
    let mut children: Vec<Element> = Vec::new();
    let mut i: usize = 0;
    while i < o.outlines.len()
        invariant
            i <= o.outlines.len(),
            ov == o@,
            children.len() == i,
            forall|k: int| 0 <= k < i ==> (#[trigger] children[k])@ == outline_element(ov.outlines[k]),
        decreases o.outlines.len() - i,
    {
        children.push(outline_to_element(&o.outlines[i]));
        i = i + 1;
    }
    let e = element_with("outline", attrs, children, None);
    assert(e@.children =~= outline_element(ov).children);
    e
}

fn leaf_element(name: &str, t: String) -> (e: Element)
    ensures
        e@ == text_element(name@, t@),
{
    let attrs: Vec<Attribute> = Vec::new();
    let kids: Vec<Element> = Vec::new();
    assert(attributes_view(attrs@) =~= Seq::<AttributeView>::empty());
    assert(elements_view(kids@) =~= Seq::<ElementView>::empty());
    element_with(name, attrs, kids, Some(t))
}

fn push_opt_text_element(cs: &mut Vec<Element>, name: &str, v: &Option<String>)
    ensures
        elements_view(final(cs)@) == elements_view(old(cs)@) + opt_text_element(name@, opt_str(*v)),
{
    match v {
        Some(t) => {
            let c = leaf_element(name, t.clone());
            assert(c@ =~= text_element(name@, t@));
            cs.push(c);
            assert(elements_view(cs@) =~= elements_view(old(cs)@) + seq![c@]);
        },
        None => {
            assert(elements_view(cs@) =~= elements_view(cs@) + Seq::<ElementView>::empty());
        },
    }
}

fn push_opt_int_element(cs: &mut Vec<Element>, name: &str, v: Option<i32>)
    ensures
        elements_view(final(cs)@) == elements_view(old(cs)@) + opt_int_element(name@, v),
{
    match v {
        Some(i) => {
            let c = leaf_element(name, i32_to_text(i));
            assert(c@ =~= text_element(name@, i32_text(i)));
            cs.push(c);
            assert(elements_view(cs@) =~= elements_view(old(cs)@) + seq![c@]);
        },
        None => {
            assert(elements_view(cs@) =~= elements_view(cs@) + Seq::<ElementView>::empty());
        },
    }
}

fn head_to_element(h: &Head) -> (e: Element)
    ensures
        e@ == head_element(h@),
{
    let mut cs: Vec<Element> = Vec::new();
    assert(elements_view(cs@) =~= Seq::<ElementView>::empty());
    push_opt_text_element(&mut cs, "title", &h.title);
    assert(elements_view(cs@) =~= opt_text_element("title"@, opt_str(h.title)));
    push_opt_text_element(&mut cs, "dateCreated", &h.date_created);
    push_opt_text_element(&mut cs, "dateModified", &h.date_modified);
    push_opt_text_element(&mut cs, "ownerName", &h.owner_name);
    push_opt_text_element(&mut cs, "ownerEmail", &h.owner_email);
    push_opt_text_element(&mut cs, "ownerId", &h.owner_id);
    push_opt_text_element(&mut cs, "docs", &h.docs);
    push_opt_text_element(&mut cs, "expansionState", &h.expansion_state);
    push_opt_int_element(&mut cs, "vertScrollState", h.vert_scroll_state);
    push_opt_int_element(&mut cs, "windowTop", h.window_top);
    push_opt_int_element(&mut cs, "windowLeft", h.window_left);
    push_opt_int_element(&mut cs, "windowBottom", h.window_bottom);
    push_opt_int_element(&mut cs, "windowRight", h.window_right);
    let attrs: Vec<Attribute> = Vec::new();
    assert(attributes_view(attrs@) =~= Seq::<AttributeView>::empty());
    let e = element_with("head", attrs, cs, None);
    assert(e@ =~= head_element(h@));
    e
}

/// Writes a document as an `<opml>` element.
pub fn document_to_element(d: &OPML) -> (e: Element)
    ensures
        e@ == document_element(d@),
{
    let ghost dv = d@;
    let mut cs: Vec<Element> = Vec::new();
    match &d.head {
        Some(h) => cs.push(head_to_element(h)),
        None => {},
    }
    let mut outlines: Vec<Element> = Vec::new();
    let mut i: usize = 0;
    while i < d.body.outlines.len()
        invariant
            i <= d.body.outlines.len(),
            dv == d@,
            outlines.len() == i,
            forall|k: int|
                0 <= k < i ==> (#[trigger] outlines[k])@ == outline_element(dv.body[k]),
        decreases d.body.outlines.len() - i,
    {
        outlines.push(outline_to_element(&d.body.outlines[i]));
        i = i + 1;
    }
    let no_attrs: Vec<Attribute> = Vec::new();
    assert(attributes_view(no_attrs@) =~= Seq::<AttributeView>::empty());
    let body = element_with("body", no_attrs, outlines, None);
    assert(body@.children =~= outline_elements(dv.body));
    cs.push(body);
    let mut attrs: Vec<Attribute> = Vec::new();
    assert(attributes_view(attrs@) =~= Seq::<AttributeView>::empty());
    push_attr(&mut attrs, "version", d.version.clone());
    let e = element_with("opml", attrs, cs, None);
    assert(attributes_view(attrs@) =~= seq![plain_attr("version"@, dv.version)]);
    assert(e@.children =~= document_element(dv).children);
    assert(e@ =~= document_element(dv));
    e
}

} // verus!
