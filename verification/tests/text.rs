use cloche::text::stored_text_info;
use cloche::text::summarize_atspi_error;
use cloche::text::text_to_store;

#[test]
fn summarizes_atspi_errors_without_dumping_tracebacks() {
    assert_eq!(summarize_atspi_error("   "), None);
    let traceback = "Traceback (most recent call last):\n  File \"<string>\", line 5\n    raise ValueError('Namespace Atspi not available')\nValueError: Namespace Atspi not available";
    let msg = summarize_atspi_error(traceback).unwrap();
    assert!(msg.contains("GI bindings are not installed"));
    assert!(!msg.contains("Traceback"));
    let other = "boom: something broke\nDetail: nope";
    assert_eq!(
        summarize_atspi_error(other).unwrap(),
        "AT-SPI text extraction failed: Detail: nope"
    );
}

#[test]
fn whitespace_only_text_is_not_stored() {
    let mut warnings = Vec::new();
    let stored = text_to_store("  \n\t ", "nothing extracted", &mut warnings);
    assert!(stored.is_none());
    assert_eq!(warnings, vec!["nothing extracted".to_string()]);
}

#[test]
fn stored_text_is_trimmed() {
    let mut warnings = Vec::new();
    let stored = text_to_store("  Visible label\n", "empty", &mut warnings);
    assert_eq!(stored.as_deref(), Some("Visible label"));
    assert!(warnings.is_empty());
}

#[test]
fn a_failed_text_write_is_a_warning() {
    let mut warnings = Vec::new();
    let info = stored_text_info("text", Err("read-only".to_string()), "at-spi", &mut warnings);
    assert!(!info.available);
    assert_eq!(warnings.len(), 1);
    assert!(warnings[0].contains("could not be written"));
    let mut warnings = Vec::new();
    let info = stored_text_info("Visible label", Ok("/tmp/text.txt".to_string()), "at-spi", &mut warnings);
    assert!(info.available);
    assert_eq!(info.bytes, "Visible label".len() as u64);
    assert_eq!(info.source.as_deref(), Some("at-spi"));
    assert!(warnings.is_empty());
}
