use pdf_translator::discovery::{Discovery, Page};
use pdf_translator::extraction::PdfParsingError;

fn missing() -> Result<String, PdfParsingError> {
    Err(PdfParsingError("No text extracted".to_string()))
}

fn discover(answers: Vec<Result<String, PdfParsingError>>) -> Vec<Page> {
    let mut discovery = Discovery::new();
    let mut pages = Vec::new();
    for answer in answers {
        if let Some(page) = discovery.record(answer) {
            pages.push(page);
        }
    }
    pages
}

#[test]
fn starts_at_page_one() {
    let discovery = Discovery::new();
    assert_eq!(discovery.next_page(), Some(1));
}

#[test]
fn pages_are_numbered_from_one_in_order() {
    let pages = discover(vec![
        Ok("first".to_string()),
        Ok("second".to_string()),
        Ok("third".to_string()),
        Ok("fourth".to_string()),
        Ok("fifth".to_string()),
        missing(),
    ]);
    assert_eq!(
        pages,
        vec![
            Page { ordinal: 1, text: "first".to_string() },
            Page { ordinal: 2, text: "second".to_string() },
            Page { ordinal: 3, text: "third".to_string() },
            Page { ordinal: 4, text: "fourth".to_string() },
            Page { ordinal: 5, text: "fifth".to_string() },
        ]
    );
}

#[test]
fn a_long_document_is_counted_past_small_counters() {
    let mut discovery = Discovery::new();
    let mut found = 0u64;
    for n in 1..=1000u64 {
        assert_eq!(discovery.next_page(), Some(n));
        let page = discovery.record(Ok(format!("page {}", n))).unwrap();
        assert_eq!(page.ordinal, n);
        assert_eq!(page.text, format!("page {}", n));
        found += 1;
    }
    assert_eq!(discovery.record(missing()), None);
    assert_eq!(discovery.next_page(), None);
    assert_eq!(found, 1000);
}

#[test]
fn first_page_missing_gives_no_page() {
    let mut discovery = Discovery::new();
    assert_eq!(discovery.record(missing()), None);
    assert_eq!(discovery.next_page(), None);
    assert_eq!(discover(vec![missing()]), Vec::<Page>::new());
}

#[test]
fn empty_text_ends_the_document() {
    let pages = discover(vec![Ok("one".to_string()), Ok(String::new()), Ok("three".to_string())]);
    assert_eq!(pages, vec![Page { ordinal: 1, text: "one".to_string() }]);
}

#[test]
fn any_failure_ends_the_document() {
    let mut discovery = Discovery::new();
    assert!(discovery.record(Ok("one".to_string())).is_some());
    let failed = Err(PdfParsingError("pdftotext command failed with error: broken".to_string()));
    assert_eq!(discovery.record(failed), None);
    assert_eq!(discovery.next_page(), None);
}

#[test]
fn answers_after_the_end_are_dropped() {
    let mut discovery = Discovery::new();
    assert!(discovery.record(Ok("one".to_string())).is_some());
    assert_eq!(discovery.next_page(), Some(2));
    assert_eq!(discovery.record(missing()), None);
    assert_eq!(discovery.record(Ok("late".to_string())), None);
    assert_eq!(discovery.next_page(), None);
}
