use opml::binding::{document_from_element, document_to_element, outline_from_element};
use opml::tree::{read_tree, write_element};
use opml::{Outline, XmlFault, OPML};

#[test]
fn tree_is_read_with_attributes_children_and_text() {
    let e = read_tree(r#"<?xml version="1.0"?><!-- lead --><a x="1&amp;2"><b/>t<!-- c --><![CDATA[z]]></a>"#)
        .unwrap();
    assert_eq!(e.name, "a");
    assert_eq!(e.prefix, "");
    assert_eq!(e.attributes.len(), 1);
    assert_eq!(e.attributes[0].name, "x");
    assert_eq!(e.attributes[0].value, "1&2");
    assert_eq!(e.children.len(), 1);
    assert_eq!(e.children[0].name, "b");
    assert_eq!(e.children[0].text, None);
    assert_eq!(e.text, Some("z".to_string()));
}

#[test]
fn tree_is_written_back() {
    let e = read_tree(r#"<a x="1&amp;2"><b/>t<![CDATA[<z>]]></a>"#).unwrap();
    let mut out = String::new();
    write_element(&e, &mut out);
    assert_eq!(out, r#"<a x="1&amp;2"><b/>&lt;z&gt;</a>"#);
}

#[test]
fn prefixed_names_are_kept_apart() {
    let e = read_tree(r#"<p:a p:x="v" y="w"/>"#).unwrap();
    assert_eq!(e.prefix, "p");
    assert_eq!(e.name, "a");
    assert_eq!(e.attributes[0].prefix, "p");
    assert_eq!(e.attributes[1].prefix, "");
    let mut out = String::new();
    write_element(&e, &mut out);
    assert_eq!(out, r#"<p:a p:x="v" y="w"/>"#);
}

#[test]
fn broken_trees_are_rejected() {
    assert!(read_tree("<a></b>").is_err());
    assert!(read_tree("<a>").is_err());
    assert!(matches!(read_tree(""), Err(XmlFault::UnexpectedEof)));
    assert!(matches!(read_tree("{"), Err(XmlFault::Syntax)));
    assert!(matches!(read_tree("<a>&nope;</a>"), Err(XmlFault::BadReference)));
}

#[test]
fn outline_element_round_trip() {
    let e = read_tree(r#"<outline text="A" isComment="true"><outline text="B" url="u"/></outline>"#)
        .unwrap();
    let o = outline_from_element(&e).unwrap();
    assert_eq!(o.text, "A");
    assert_eq!(o.is_comment, Some(true));
    assert_eq!(o.outlines.len(), 1);
    assert_eq!(
        o.outlines[0],
        Outline {
            text: "B".to_string(),
            url: Some("u".to_string()),
            ..Outline::default()
        }
    );
}

#[test]
fn document_element_round_trip_skips_checks() {
    let mut d = OPML::default();
    d.version = "9.9".to_string();
    let e = document_to_element(&d);
    assert_eq!(e.name, "opml");
    assert_eq!(document_from_element(&e).unwrap(), d);
    assert!(OPML::from_str(&d.to_string().unwrap()).is_err());
}
