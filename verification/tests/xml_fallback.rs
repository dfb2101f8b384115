use lettuce_ai::xml_fallback::{
    decode_xml_general_ref, decode_xml_text, parse_fallback_xml_events, parse_fallback_xml_result,
    parse_keyword_fallback_xml_events, parse_keyword_fallback_xml_result, XmlEvent, XmlTag,
};
use lettuce_ai::lorebook_entry::{
    parse_fallback_result, parse_keyword_fallback_result, StructuredFallbackFormat,
};

fn start(name: &str, attrs: Vec<(&str, &str)>) -> XmlEvent {
    XmlEvent::Start(XmlTag {
        name: name.to_string(),
        attributes: attrs.into_iter().map(|(k, v)| (k.to_string(), Some(v.to_string()))).collect(),
    })
}

fn empty(name: &str, attrs: Vec<(&str, &str)>) -> XmlEvent {
    XmlEvent::Empty(XmlTag {
        name: name.to_string(),
        attributes: attrs.into_iter().map(|(k, v)| (k.to_string(), Some(v.to_string()))).collect(),
    })
}

fn end(name: &str) -> XmlEvent {
    XmlEvent::End(name.to_string())
}

fn err<T>(r: Result<T, String>) -> String {
    match r {
        Err(e) => e,
        Ok(_) => panic!("expected an error"),
    }
}

fn text(t: &str) -> XmlEvent {
    XmlEvent::Text(t.to_string())
}

#[test]
fn xml_text_and_references_decode() {
    assert_eq!(decode_xml_text("a &amp; b").unwrap(), "a & b");
    assert!(decode_xml_text("a &bogus; b").unwrap_err().starts_with("fallback XML text decode error: "));
    assert_eq!(decode_xml_general_ref(Some('1'), &Ok("#49".to_string())).unwrap(), "1");
    assert_eq!(decode_xml_general_ref(None, &Ok("lt".to_string())).unwrap(), "<");
    assert_eq!(decode_xml_general_ref(None, &Ok("nbsp".to_string())).unwrap(), "&nbsp;");
    assert_eq!(
        decode_xml_general_ref(None, &Err("bad".to_string())).unwrap_err(),
        "fallback XML reference decode error: bad"
    );
}

#[test]
fn xml_entry_is_read() {
    let events = vec![
        start("lorebook_result", vec![]),
        start("write_lorebook_entry", vec![("alwaysActive", " YES ")]),
        start("title", vec![]),
        text("The Mill"),
        end("title"),
        start("keywords", vec![]),
        start("keyword", vec![]),
        text(" mill "),
        end("keyword"),
        start("keyword", vec![]),
        text("MILL"),
        end("keyword"),
        start("keyword", vec![]),
        text("river"),
        XmlEvent::GeneralRef { char_ref: None, content: Ok("amp".to_string()) },
        text("bank"),
        end("keyword"),
        end("keywords"),
        start("content", vec![]),
        text("  An old mill.  "),
        end("content"),
        end("write_lorebook_entry"),
        XmlEvent::Error("never read".to_string()),
    ];
    let r = parse_fallback_xml_events(&events).unwrap();
    assert_eq!(r.kind, "entry");
    let d = r.draft.unwrap();
    assert_eq!(d.title, "The Mill");
    assert_eq!(d.content, "An old mill.");
    assert_eq!(d.keywords, vec!["mill".to_string(), "river&bank".to_string()]);
    assert!(d.always_active);
}

#[test]
fn xml_no_entry_and_errors() {
    let r = parse_fallback_xml_events(&vec![empty("no_entry", vec![("reason", " nothing new ")]), XmlEvent::Eof])
        .unwrap();
    assert_eq!(r.kind, "none");
    assert_eq!(r.reason, Some("nothing new".to_string()));
    let r = parse_fallback_xml_events(&vec![start("no_entry", vec![]), end("no_entry")]).unwrap();
    assert_eq!(r.reason, Some("The selected messages do not establish durable lore.".to_string()));
    assert_eq!(
        err(parse_fallback_xml_events(&vec![start("other", vec![]), XmlEvent::Eof])),
        "fallback XML response did not contain a lorebook result"
    );
    assert_eq!(
        err(parse_fallback_xml_events(&vec![XmlEvent::Error("boom".to_string())])),
        "fallback XML parse error: boom"
    );
    let no_title = vec![start("write_lorebook_entry", vec![]), start("content", vec![]), text("x"), end("content")];
    assert_eq!(
        err(parse_fallback_xml_events(&no_title)),
        "write_lorebook_entry is missing a non-empty title"
    );
}

#[test]
fn xml_keywords_are_read() {
    let events = vec![
        start("write_lorebook_keywords", vec![]),
        start("keywords", vec![]),
        start("keyword", vec![]),
        text("Alpha"),
        end("keyword"),
        start("keyword", vec![]),
        text("alpha"),
        end("keyword"),
        start("keyword", vec![]),
        text(" Beta "),
        end("keyword"),
        end("keywords"),
        end("write_lorebook_keywords"),
    ];
    let r = parse_keyword_fallback_xml_events(&events).unwrap();
    assert_eq!(r.keywords, vec!["Alpha".to_string(), "Beta".to_string()]);
    assert_eq!(
        err(parse_keyword_fallback_xml_events(&vec![XmlEvent::Eof])),
        "fallback XML response did not contain lorebook keywords"
    );
}

#[test]
fn xml_entry_is_read_from_text() {
    let raw = "```xml\n<lorebook_result><write_lorebook_entry alwaysActive=\"yes\"><title>The Mill</title><keywords><keyword> mill </keyword><keyword>river&amp;bank</keyword></keywords><content>  An old mill.  </content></write_lorebook_entry></lorebook_result>\n```";
    let r = parse_fallback_xml_result(raw).unwrap();
    assert_eq!(r.kind, "entry");
    let d = r.draft.unwrap();
    assert_eq!(d.title, "The Mill");
    assert_eq!(d.content, "An old mill.");
    assert_eq!(d.keywords, vec!["mill".to_string(), "river&bank".to_string()]);
    assert!(d.always_active);
    let same = parse_fallback_result(raw, StructuredFallbackFormat::Xml).unwrap();
    assert_eq!(same.draft.unwrap().title, "The Mill");
}

#[test]
fn xml_no_entry_and_broken_documents_from_text() {
    let r = parse_fallback_xml_result("<lorebook_result><no_entry><reason> nothing new </reason></no_entry></lorebook_result>").unwrap();
    assert_eq!(r.kind, "none");
    assert_eq!(r.reason, Some("nothing new".to_string()));
    let e = err(parse_fallback_xml_result("<lorebook_result><title>x</oops></lorebook_result>"));
    assert!(e.starts_with("fallback XML parse error: "), "{}", e);
    assert_eq!(
        err(parse_fallback_xml_result("just words")),
        "fallback XML response did not contain a lorebook result"
    );
}

#[test]
fn xml_keywords_are_read_from_text() {
    let raw = "<lorebook_result><write_lorebook_keywords><keywords><keyword>alpha</keyword><keyword> beta </keyword></keywords></write_lorebook_keywords></lorebook_result>";
    let r = parse_keyword_fallback_xml_result(raw).unwrap();
    assert_eq!(r.keywords, vec!["alpha".to_string(), "beta".to_string()]);
    let same = parse_keyword_fallback_result(raw, StructuredFallbackFormat::Xml).unwrap();
    assert_eq!(same.keywords, r.keywords);
    let json = parse_keyword_fallback_result(
        "{\"result\":{\"name\":\"write_lorebook_keywords\",\"arguments\":{\"keywords\":[\"gamma\"]}}}",
        StructuredFallbackFormat::Json,
    )
    .unwrap();
    assert_eq!(json.keywords, vec!["gamma".to_string()]);
}
