use pitboss::deferred::{
    parse, serialize, DeferredDoc, DeferredItem, DeferredParseError, DeferredPhase,
};
use pitboss::plan::{PhaseId, PhaseIdParseError};

fn item(text: &str, done: bool) -> DeferredItem {
    DeferredItem { text: text.to_string(), done }
}

fn block(id: &str, title: &str, body: &str) -> DeferredPhase {
    DeferredPhase {
        source_phase: PhaseId::parse(id).unwrap(),
        title: title.to_string(),
        body: body.to_string(),
    }
}

fn doc() -> DeferredDoc {
    DeferredDoc {
        items: vec![item("polish error message", false), item("remove unused stub", true)],
        phases: vec![
            block("07", "rework agent trait", "\nbody line\n- [ ] not an entry\n\n"),
            block("10b", "second: try", ""),
        ],
    }
}

#[test]
fn the_empty_text_is_the_empty_document() {
    assert_eq!(parse("").unwrap(), DeferredDoc::empty());
    assert_eq!(parse("\n  \n").unwrap(), DeferredDoc::empty());
    assert_eq!(serialize(&DeferredDoc::empty()), "");
}

#[test]
fn a_written_document_reads_back() {
    let text = serialize(&doc());
    assert_eq!(
        text,
        "## Deferred items\n\n- [ ] polish error message\n- [x] remove unused stub\n\n\
         ## Deferred phases\n\n### From phase 07: rework agent trait\n\nbody line\n\
         - [ ] not an entry\n\n### From phase 10b: second: try\n"
    );
    assert_eq!(parse(&text).unwrap(), doc());
    let items_only = DeferredDoc { items: doc().items, phases: Vec::new() };
    assert_eq!(parse(&serialize(&items_only)).unwrap(), items_only);
    let phases_only = DeferredDoc { items: Vec::new(), phases: doc().phases };
    assert_eq!(parse(&serialize(&phases_only)).unwrap(), phases_only);
}

#[test]
fn checkboxes_may_be_upper_case_and_lines_may_end_in_crlf() {
    let parsed = parse("## Deferred items  \r\n- [X] one\r\n- [ ] two\r\n").unwrap();
    assert_eq!(parsed.items, vec![item("one", true), item("two", false)]);
}

#[test]
fn content_outside_a_section_is_refused() {
    assert_eq!(
        parse("\n- [ ] loose\n"),
        Err(DeferredParseError::UnexpectedLine { line: 2, raw: "- [ ] loose".to_string() })
    );
    let err = parse("## Deferred items\nfree text\n").unwrap_err();
    assert_eq!(err.message(), "line 2: unexpected content \"free text\"");
    assert!(parse("## Deferred phases\nfree text\n").is_err());
}

#[test]
fn malformed_block_headings_are_refused() {
    assert_eq!(
        parse("## Deferred phases\n\n### Later\n"),
        Err(DeferredParseError::BadHeading { line: 3, raw: "### Later".to_string() })
    );
    let err = parse("## Deferred phases\n### From phase 07 no colon\n").unwrap_err();
    assert_eq!(err.message(), "line 2: malformed heading \"### From phase 07 no colon\"");
    let err = parse("## Deferred phases\n### From phase x: t\n").unwrap_err();
    assert_eq!(
        err,
        DeferredParseError::BadHeadingId {
            line: 2,
            source: PhaseIdParseError::MissingNumericPrefix("x".to_string()),
        }
    );
    assert!(err.message().starts_with("line 2: invalid phase id: "));
}

#[test]
fn sweep_drops_the_ticked_entries_alone() {
    let mut d = doc();
    d.sweep();
    assert_eq!(d.items, vec![item("polish error message", false)]);
    assert_eq!(d.phases, doc().phases);
    assert_eq!(doc().unchecked_texts(), vec!["polish error message".to_string()]);
}
