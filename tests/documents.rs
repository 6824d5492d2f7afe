use opml::{extract_all_outlines, Body, Error, Head, Outline, XmlFault, OPML};

fn outline(text: &str) -> Outline {
    Outline {
        text: text.to_string(),
        ..Outline::default()
    }
}

#[test]
#[allow(deprecated)]
fn test_deprecated_functions() {
    let xml = r#"<opml version="2.0"><head/><body><outline text="Outline"/></body></opml>"#;
    let document = OPML::new(xml).unwrap();

    assert_eq!(document.version, "2.0");
    assert!(document.to_xml().is_ok());
}

#[test]
#[should_panic]
fn errors_test_invalid_xml() {
    OPML::from_str(r#"{not xml :)"#).unwrap();
}

#[test]
fn errors_test_invalid_opml_version() {
    let sample = r#"<opml version="invalid">
<head/>
<body>
  <outline text="Outline Text"/>
</body>
</opml>"#;
    let res = OPML::from_str(sample);
    assert!(matches!(res, Err(Error::UnsupportedVersion(e)) if e == "invalid"));
}

#[test]
fn errors_test_invalid_opml_no_outlines() {
    let res = OPML::from_str(r#"<opml version="2.0"><head/><body/></opml>"#);
    assert!(matches!(res, Err(Error::BodyHasNoOutlines)));
}

#[test]
fn valid_test_minimum_valid_opml() {
    let sample = r#"<opml version="2.0">
  <head/>
  <body>
    <outline text="Outline Text"/>
  </body>
</opml>"#;
    assert_eq!(
        OPML::from_str(sample).unwrap(),
        OPML {
            version: "2.0".to_string(),
            head: Some(Head::default()),
            body: Body {
                outlines: vec![outline("Outline Text")]
            },
        }
    );
}

#[test]
fn test_valid_empty_docs() {
    let sample = r#"<opml version="2.0">
  <head>
    <docs></docs>
  </head>
  <body>
    <outline text="Outline Text"/>
  </body>
</opml>"#;
    assert_eq!(
        OPML::from_str(sample).unwrap(),
        OPML {
            version: "2.0".to_string(),
            head: Some(Head {
                docs: Some("".to_string()),
                ..Head::default()
            }),
            body: Body {
                outlines: vec![outline("Outline Text")]
            },
        }
    )
}

const EVERYTHING: &str = r#"<?xml version="1.0" encoding="ISO-8859-1"?>
<opml version="2.0">
  <head>
    <title>Title</title>
    <dateCreated>Date Created</dateCreated>
    <dateModified>Date Modified</dateModified>
    <ownerName>Owner Name</ownerName>
    <ownerEmail>Owner Email</ownerEmail>
    <ownerId>Owner ID</ownerId>
    <docs>http://dev.opml.org/spec2.html</docs>
    <expansionState>0,1</expansionState>
    <vertScrollState>0</vertScrollState>
    <windowTop>1</windowTop>
    <windowLeft>2</windowLeft>
    <windowBottom>3</windowBottom>
    <windowRight>4</windowRight>
  </head>
  <body>
    <outline text="Outline Text" type="Outline Type" isBreakpoint="true" isComment="true" created="Outline Date" category="Outline Category" xmlUrl="Outline XML URL" description="Outline Description" htmlUrl="Outline HTML URL" language="Outline Language" title="Outline Title" version="Outline Version" url="Outline URL">
      <outline text="Nested Outline Text" type="Nested Outline Type" isBreakpoint="true" isComment="false" created="Nested Outline Date" category="Nested Outline Category" xmlUrl="Nested Outline XML URL" description="Nested Outline Description" htmlUrl="Nested Outline HTML URL" language="Nested Outline Language" title="Nested Outline Title" version="Nested Outline Version" url="Nested Outline URL"/>
    </outline>
  </body>
</opml>"#;

fn everything() -> OPML {
    OPML {
        version: "2.0".to_string(),
        head: Some(Head {
            title: Some("Title".to_string()),
            date_created: Some("Date Created".to_string()),
            date_modified: Some("Date Modified".to_string()),
            owner_name: Some("Owner Name".to_string()),
            owner_email: Some("Owner Email".to_string()),
            owner_id: Some("Owner ID".to_string()),
            docs: Some("http://dev.opml.org/spec2.html".to_string()),
            expansion_state: Some("0,1".to_string()),
            vert_scroll_state: Some(0),
            window_top: Some(1),
            window_left: Some(2),
            window_bottom: Some(3),
            window_right: Some(4),
        }),
        body: Body {
            outlines: vec![Outline {
                text: "Outline Text".to_string(),
                kind: Some("Outline Type".to_string()),
                is_breakpoint: Some(true),
                is_comment: Some(true),
                created: Some("Outline Date".to_string()),
                category: Some("Outline Category".to_string()),
                xml_url: Some("Outline XML URL".to_string()),
                description: Some("Outline Description".to_string()),
                html_url: Some("Outline HTML URL".to_string()),
                language: Some("Outline Language".to_string()),
                title: Some("Outline Title".to_string()),
                version: Some("Outline Version".to_string()),
                url: Some("Outline URL".to_string()),
                outlines: vec![Outline {
                    text: "Nested Outline Text".to_string(),
                    kind: Some("Nested Outline Type".to_string()),
                    is_breakpoint: Some(true),
                    is_comment: Some(false),
                    created: Some("Nested Outline Date".to_string()),
                    category: Some("Nested Outline Category".to_string()),
                    xml_url: Some("Nested Outline XML URL".to_string()),
                    description: Some("Nested Outline Description".to_string()),
                    html_url: Some("Nested Outline HTML URL".to_string()),
                    language: Some("Nested Outline Language".to_string()),
                    title: Some("Nested Outline Title".to_string()),
                    version: Some("Nested Outline Version".to_string()),
                    url: Some("Nested Outline URL".to_string()),
                    outlines: vec![],
                }],
            }],
        },
    }
}

#[test]
fn valid_test_valid_opml_with_everything() {
    assert_eq!(OPML::from_str(EVERYTHING).unwrap(), everything())
}

#[test]
fn test_valid_opml_1_0() {
    let sample = r#"<opml version="1.0">
  <head/>
  <body>
    <outline title="Outline Title"/>
  </body>
</opml>"#;
    assert_eq!(
        OPML::from_str(sample).unwrap(),
        OPML {
            version: "1.0".to_string(),
            head: Some(Head::default()),
            body: Body {
                outlines: vec![Outline {
                    text: String::default(),
                    title: Some("Outline Title".to_string()),
                    ..Outline::default()
                }]
            },
        }
    );
}

#[test]
fn test_valid_from_reader() {
    let xml = r#"<opml version="2.0"><head/><body><outline text="Outline"/></body></opml>"#;
    assert!(OPML::from_reader(&mut xml.as_bytes()).is_ok());
}

#[test]
fn test_valid_to_writer() {
    let document = OPML::default();
    let mut writer = vec![];
    assert!(document.to_writer(&mut writer).is_ok());
    assert!(!writer.is_empty());
}

#[test]
fn test_opml_construction_1() {
    let mut opml = OPML::default();
    opml.add_feed("Rust Blog", "https://blog.rust-lang.org/feed.xml")
        .add_feed(
            "Inside Rust",
            "https://blog.rust-lang.org/inside-rust/feed.xml",
        );
    opml.head = Some(Head {
        title: Some("Rust Feeds".to_string()),
        ..Head::default()
    });

    let actual = opml.to_xml().unwrap();
    let expected = concat_lines(&[
        r#"<opml version="2.0">"#,
        r#"<head><title>Rust Feeds</title></head>"#,
        r#"<body>"#,
        r#"<outline text="Rust Blog" xmlUrl="https://blog.rust-lang.org/feed.xml"/>"#,
        r#"<outline text="Inside Rust" xmlUrl="https://blog.rust-lang.org/inside-rust/feed.xml"/>"#,
        r#"</body>"#,
        r#"</opml>"#,
    ]);

    assert_eq!(actual.trim(), expected.trim());
}

#[test]
fn test_opml_construction_2() {
    let mut opml = OPML::default();
    opml.head = Some(Head {
        title: Some("Rust Feeds".to_string()),
        ..Head::default()
    });

    let mut rust_group = Outline::default();
    rust_group.text = "Rust Feeds".to_string();
    rust_group
        .add_feed("Rust Blog", "https://blog.rust-lang.org/feed.xml")
        .add_feed(
            "Inside Rust",
            "https://blog.rust-lang.org/inside-rust/feed.xml",
        );

    let mut mozilla_group = Outline::default();
    mozilla_group.text = "Mozilla Feeds".to_string();
    mozilla_group
        .add_feed("Mozilla Blog", "https://blog.mozilla.org/feed")
        .add_feed("Mozilla Hacks", "https://hacks.mozilla.org/feed");

    opml.body.outlines.push(rust_group);
    opml.body.outlines.push(mozilla_group);

    let actual = opml.to_xml().unwrap();
    let expected = concat_lines(&[
        r#"<opml version="2.0">"#,
        r#"<head><title>Rust Feeds</title></head>"#,
        r#"<body>"#,
        r#"<outline text="Rust Feeds">"#,
        r#"<outline text="Rust Blog" xmlUrl="https://blog.rust-lang.org/feed.xml"/>"#,
        r#"<outline text="Inside Rust" xmlUrl="https://blog.rust-lang.org/inside-rust/feed.xml"/>"#,
        r#"</outline>"#,
        r#"<outline text="Mozilla Feeds">"#,
        r#"<outline text="Mozilla Blog" xmlUrl="https://blog.mozilla.org/feed"/>"#,
        r#"<outline text="Mozilla Hacks" xmlUrl="https://hacks.mozilla.org/feed"/>"#,
        r#"</outline>"#,
        r#"</body>"#,
        r#"</opml>"#,
    ]);

    assert_eq!(actual.trim(), expected.trim());
}

fn concat_lines(lines: &[&str]) -> String {
    lines.concat()
}

#[test]
fn round_trip_keeps_every_field() {
    let document = everything();
    let text = document.to_string().unwrap();
    assert_eq!(OPML::from_str(&text).unwrap(), document);
}

#[test]
fn round_trip_keeps_nesting_and_order() {
    let mut inner = outline("B");
    inner.outlines.push(outline("C"));
    let mut outer = outline("A");
    outer.outlines.push(inner);
    outer.outlines.push(outline("D"));
    let mut document = OPML::default();
    document.body.outlines.push(outer);
    document.body.outlines.push(outline("E"));
    let text = document.to_string().unwrap();
    let back = OPML::from_str(&text).unwrap();
    assert_eq!(back, document);
    assert_eq!(back.body.outlines[0].outlines[0].outlines[0].text, "C");
    assert_eq!(back.body.outlines[0].outlines[1].text, "D");
}

#[test]
fn round_trip_keeps_special_characters() {
    let mut document = OPML::default();
    document.add_feed("Tom & \"Jerry\" <'s>", "https://example.com/?a=1&b=2");
    document.head = Some(Head {
        title: Some("a < b & c > d".to_string()),
        window_top: Some(-3),
        ..Head::default()
    });
    let text = document.to_string().unwrap();
    assert!(text.contains("xmlUrl=\"https://example.com/?a=1&amp;b=2\""));
    assert!(text.contains("text=\"Tom &amp; &quot;Jerry&quot; &lt;&apos;s&gt;\""));
    assert!(text.contains("<title>a &lt; b &amp; c &gt; d</title>"));
    assert!(text.contains("<windowTop>-3</windowTop>"));
    assert_eq!(OPML::from_str(&text).unwrap(), document);
}

#[test]
fn default_document_is_written_minimal() {
    assert_eq!(
        OPML::default().to_string().unwrap(),
        r#"<opml version="2.0"><head/><body/></opml>"#
    );
}

#[test]
fn supported_versions_are_accepted() {
    for version in ["1.0", "1.1", "2.0"] {
        let xml = format!(
            r#"<opml version="{}"><head/><body><outline text="x"/></body></opml>"#,
            version
        );
        let document = OPML::from_str(&xml).unwrap();
        assert_eq!(document.version, version);
    }
}

#[test]
fn unsupported_version_is_rejected_with_its_text() {
    let res = OPML::from_str(r#"<opml version="invalid"><head/><body><outline text="x"/></body></opml>"#);
    assert!(matches!(res, Err(Error::UnsupportedVersion(v)) if v == "invalid"));
    let res = OPML::from_str(r#"<opml version="3.0"><body><outline text="x"/></body></opml>"#);
    assert!(matches!(res, Err(Error::UnsupportedVersion(v)) if v == "3.0"));
    let res = OPML::from_str(r#"<opml version="2.00"><body><outline text="x"/></body></opml>"#);
    assert!(matches!(res, Err(Error::UnsupportedVersion(v)) if v == "2.00"));
}

#[test]
fn empty_body_is_rejected() {
    let res = OPML::from_str(r#"<opml version="2.0"><head/><body/></opml>"#);
    assert!(matches!(res, Err(Error::BodyHasNoOutlines)));
    let res = OPML::from_str(r#"<opml version="2.0"><body></body></opml>"#);
    assert!(matches!(res, Err(Error::BodyHasNoOutlines)));
}

#[test]
fn missing_text_defaults_to_empty() {
    let document =
        OPML::from_str(r#"<opml version="2.0"><head/><body><outline/></body></opml>"#).unwrap();
    assert_eq!(document.body.outlines[0].text, "");
    assert_eq!(document.body.outlines[0], Outline::default());
}

#[test]
fn empty_and_absent_head_fields_differ() {
    let with_docs = OPML::from_str(
        r#"<opml version="2.0"><head><docs></docs></head><body><outline text="x"/></body></opml>"#,
    )
    .unwrap();
    assert_eq!(with_docs.head.unwrap().docs, Some("".to_string()));
    let without = OPML::from_str(
        r#"<opml version="2.0"><head></head><body><outline text="x"/></body></opml>"#,
    )
    .unwrap();
    assert_eq!(without.head.clone().unwrap().docs, None);
    assert_eq!(without.head, Some(Head::default()));
    let no_head =
        OPML::from_str(r#"<opml version="2.0"><body><outline text="x"/></body></opml>"#).unwrap();
    assert_eq!(no_head.head, None);
}

#[test]
fn add_feed_twice_appends_in_order() {
    let mut document = OPML::default();
    document.add_feed("One", "https://one.example/feed").add_feed("Two", "https://two.example/feed");
    assert_eq!(document.body.outlines.len(), 2);
    assert_eq!(
        document.body.outlines[0],
        Outline {
            text: "One".to_string(),
            xml_url: Some("https://one.example/feed".to_string()),
            ..Outline::default()
        }
    );
    assert_eq!(
        document.body.outlines[1],
        Outline {
            text: "Two".to_string(),
            xml_url: Some("https://two.example/feed".to_string()),
            ..Outline::default()
        }
    );
    assert_eq!(document.version, "2.0");
    assert_eq!(document.head, Some(Head::default()));
}

#[test]
fn flatten_is_pre_order() {
    let mut b = outline("B");
    b.outlines.push(outline("C"));
    let mut a = outline("A");
    a.outlines.push(b);
    let forest = vec![a, outline("D")];
    let flat = extract_all_outlines(&forest);
    let texts: Vec<&str> = flat.iter().map(|o| o.text.as_str()).collect();
    assert_eq!(texts, vec!["A", "B", "C", "D"]);
    assert_eq!(flat[1].outlines.len(), 1);
    assert!(extract_all_outlines(&[]).is_empty());
}

#[test]
fn malformed_xml_is_rejected() {
    let res = OPML::from_str("{not xml");
    assert!(matches!(res, Err(Error::XmlError(_))));
    let res = OPML::from_str("");
    assert!(matches!(res, Err(Error::XmlError(_))));
}

#[test]
fn structural_faults_are_malformed_input() {
    let mismatch = OPML::from_str(r#"<opml version="2.0"><body><outline text="x"></body></opml>"#);
    assert!(matches!(mismatch, Err(Error::XmlError(_))));
    let no_version = OPML::from_str(r#"<opml><body><outline text="x"/></body></opml>"#);
    assert!(matches!(no_version, Err(Error::XmlError(XmlFault::MissingField))));
    let no_body = OPML::from_str(r#"<opml version="2.0"><head/></opml>"#);
    assert!(matches!(no_body, Err(Error::XmlError(XmlFault::MissingField))));
    let wrong_root = OPML::from_str(r#"<rss version="2.0"><body><outline/></body></rss>"#);
    assert!(matches!(wrong_root, Err(Error::XmlError(XmlFault::UnexpectedToken))));
    let truncated = OPML::from_str(r#"<opml version="2.0"><body><outline text="x"/>"#);
    assert!(matches!(truncated, Err(Error::XmlError(_))));
    let bad_entity =
        OPML::from_str(r#"<opml version="2.0"><body><outline text="a &bogus; b"/></body></opml>"#);
    assert!(matches!(bad_entity, Err(Error::XmlError(XmlFault::BadReference))));
}

#[test]
fn booleans_must_be_literal() {
    let yes = OPML::from_str(
        r#"<opml version="2.0"><body><outline text="x" isComment="yes"/></body></opml>"#,
    );
    assert!(matches!(yes, Err(Error::XmlError(XmlFault::BadValue))));
    let upper = OPML::from_str(
        r#"<opml version="2.0"><body><outline text="x" isBreakpoint="True"/></body></opml>"#,
    );
    assert!(matches!(upper, Err(Error::XmlError(XmlFault::BadValue))));
    let ok = OPML::from_str(
        r#"<opml version="2.0"><body><outline text="x" isComment="false" isBreakpoint="true"/></body></opml>"#,
    )
    .unwrap();
    assert_eq!(ok.body.outlines[0].is_comment, Some(false));
    assert_eq!(ok.body.outlines[0].is_breakpoint, Some(true));
}

#[test]
fn head_integers_are_parsed() {
    let document = OPML::from_str(
        r#"<opml version="2.0"><head><windowTop>-12</windowTop><windowLeft>+7</windowLeft></head><body><outline text="x"/></body></opml>"#,
    )
    .unwrap();
    let head = document.head.unwrap();
    assert_eq!(head.window_top, Some(-12));
    assert_eq!(head.window_left, Some(7));
    let bad = OPML::from_str(
        r#"<opml version="2.0"><head><windowTop>12px</windowTop></head><body><outline text="x"/></body></opml>"#,
    );
    assert!(matches!(bad, Err(Error::XmlError(XmlFault::BadValue))));
    let too_big = OPML::from_str(
        r#"<opml version="2.0"><head><windowTop>2147483648</windowTop></head><body><outline text="x"/></body></opml>"#,
    );
    assert!(matches!(too_big, Err(Error::XmlError(XmlFault::BadValue))));
}

#[test]
fn unknown_attributes_and_elements_are_ignored() {
    let document = OPML::from_str(
        r#"<opml version="2.0" xmlns:x="urn:x"><head><x:extra>1</x:extra><other/></head><body><!-- note --><outline text="a" x:foo="bar" rating="5"><unknown/><outline text="b"/></outline><extra/></body></opml>"#,
    )
    .unwrap();
    assert_eq!(document.body.outlines.len(), 1);
    assert_eq!(document.body.outlines[0].text, "a");
    assert_eq!(document.body.outlines[0].outlines.len(), 1);
    assert_eq!(document.body.outlines[0].outlines[0].text, "b");
    assert_eq!(document.head, Some(Head::default()));
}

#[test]
fn references_and_cdata_are_read() {
    let document = OPML::from_str(
        r#"<opml version="2.0"><head><title>A &amp; B &#65;</title><ownerName><![CDATA[<raw>]]></ownerName></head><body><outline text="x &lt; y"/></body></opml>"#,
    )
    .unwrap();
    let head = document.head.unwrap();
    assert_eq!(head.title, Some("A & B A".to_string()));
    assert_eq!(head.owner_name, Some("<raw>".to_string()));
    assert_eq!(document.body.outlines[0].text, "x < y");
}
