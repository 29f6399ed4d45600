use pdf_translator::discovery::Page;
use pdf_translator::extraction::{page_text, PdfParsingError};
use pdf_translator::pipeline::Pipeline;
use pdf_translator::translator::TranslationFailure;

fn stub_translate(language: &str, text: &str) -> Result<String, TranslationFailure> {
    Ok(format!("[{}] {}", language, text))
}

fn stub_extract(page: u64) -> Result<String, PdfParsingError> {
    if page <= 3 {
        page_text(true, format!("Page {} body", page), "")
    } else {
        page_text(false, String::new(), "Wrong page range given")
    }
}

#[test]
fn three_pages_are_translated_and_joined_directly() {
    let mut pipeline = Pipeline::new();
    let mut dispatched: Vec<(usize, Page)> = Vec::new();
    let mut probed = Vec::new();
    while let Some(page) = pipeline.next_page() {
        probed.push(page);
        if let Some(task) = pipeline.page_answered(stub_extract(page)) {
            dispatched.push(task);
        }
    }
    assert_eq!(probed, vec![1, 2, 3, 4]);
    assert_eq!(pipeline.queued(), 3);
    assert_eq!(
        dispatched,
        vec![
            (0, Page { ordinal: 1, text: "Page 1 body".to_string() }),
            (1, Page { ordinal: 2, text: "Page 2 body".to_string() }),
            (2, Page { ordinal: 3, text: "Page 3 body".to_string() }),
        ]
    );
    assert_eq!(pipeline.output(), None);
    for (position, page) in dispatched {
        assert!(pipeline.translated(position, stub_translate("French", &page.text)));
    }
    assert_eq!(
        pipeline.output(),
        Some("[French] Page 1 body[French] Page 2 body[French] Page 3 body".to_string())
    );
}

#[test]
fn three_pages_finishing_out_of_order_keep_page_order() {
    let mut pipeline = Pipeline::new();
    let mut dispatched: Vec<(usize, Page)> = Vec::new();
    while let Some(page) = pipeline.next_page() {
        if let Some(task) = pipeline.page_answered(stub_extract(page)) {
            dispatched.push(task);
        }
    }
    for index in [2usize, 0, 1] {
        let (position, page) = &dispatched[index];
        assert_eq!(pipeline.output(), None);
        assert!(pipeline.translated(*position, stub_translate("French", &page.text)));
    }
    assert_eq!(
        pipeline.output(),
        Some("[French] Page 1 body[French] Page 2 body[French] Page 3 body".to_string())
    );
}

#[test]
fn document_without_first_page_gives_empty_text() {
    let mut pipeline = Pipeline::new();
    assert_eq!(pipeline.next_page(), Some(1));
    assert_eq!(pipeline.page_answered(stub_extract(4)), None);
    assert_eq!(pipeline.next_page(), None);
    assert_eq!(pipeline.queued(), 0);
    assert_eq!(pipeline.output(), Some(String::new()));
}

#[test]
fn failed_translation_leaves_a_gap_and_nothing_else() {
    let mut pipeline = Pipeline::new();
    let mut dispatched: Vec<(usize, Page)> = Vec::new();
    while let Some(page) = pipeline.next_page() {
        if let Some(task) = pipeline.page_answered(stub_extract(page)) {
            dispatched.push(task);
        }
    }
    for (position, page) in dispatched {
        let outcome = if page.ordinal == 2 {
            Err(TranslationFailure::Network)
        } else {
            stub_translate("French", &page.text)
        };
        assert!(pipeline.translated(position, outcome));
    }
    assert_eq!(pipeline.output(), Some("[French] Page 1 body[French] Page 3 body".to_string()));
}

#[test]
fn no_output_while_the_document_is_open() {
    let mut pipeline = Pipeline::new();
    assert_eq!(pipeline.output(), None);
    let (position, page) = pipeline.page_answered(stub_extract(1)).unwrap();
    assert_eq!(position, 0);
    assert_eq!(page.ordinal, 1);
    assert!(pipeline.translated(position, stub_translate("French", &page.text)));
    assert_eq!(pipeline.output(), None);
    assert_eq!(pipeline.page_answered(stub_extract(4)), None);
    assert_eq!(pipeline.output(), Some("[French] Page 1 body".to_string()));
}

#[test]
fn position_is_page_number_less_one() {
    let mut pipeline = Pipeline::new();
    for n in 1..=300u64 {
        assert_eq!(pipeline.next_page(), Some(n));
        let (position, page) = pipeline.page_answered(Ok(format!("p{}", n))).unwrap();
        assert_eq!(page.ordinal, n);
        assert_eq!(position as u64 + 1, n);
    }
    assert_eq!(pipeline.queued(), 300);
}

#[test]
fn outcome_for_unknown_position_is_dropped() {
    let mut pipeline = Pipeline::new();
    assert!(pipeline.page_answered(stub_extract(1)).is_some());
    assert!(!pipeline.translated(1, Ok("stray".to_string())));
    assert!(pipeline.translated(0, Ok("kept".to_string())));
    assert!(!pipeline.translated(0, Ok("late".to_string())));
    assert_eq!(pipeline.page_answered(stub_extract(4)), None);
    assert_eq!(pipeline.output(), Some("kept".to_string()));
}
