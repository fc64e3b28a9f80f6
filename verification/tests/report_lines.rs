use was::fault::Fault;
use was::plan::Summary;
use was::report::{debug_line, dec_str, fault_message, summary_lines};

#[test]
fn decimal_rendering() {
    assert_eq!(dec_str(0), "0");
    assert_eq!(dec_str(7), "7");
    assert_eq!(dec_str(10), "10");
    assert_eq!(dec_str(65536), "65536");
    assert_eq!(dec_str(u64::MAX), "18446744073709551615");
}

#[test]
fn summary_text_is_exact() {
    let s = Summary { alloc_count: 1, leaked: 0, alloc_total_usage: 100 };
    let lines = summary_lines(&s);
    assert_eq!(lines.len(), 3);
    assert_eq!(lines[0], "Allocations:  1");
    assert_eq!(lines[1], "Leaked:       0");
    assert_eq!(lines[2], "Memory usage: 100 bytes");
}

#[test]
fn leak_summary_text() {
    let s = Summary { alloc_count: 1, leaked: 1, alloc_total_usage: 8 };
    let lines = summary_lines(&s);
    assert_eq!(lines[0], "Allocations:  1");
    assert_eq!(lines[1], "Leaked:       1");
    assert_eq!(lines[2], "Memory usage: 8 bytes");
}

#[test]
fn fault_texts_are_exact() {
    assert_eq!(
        fault_message(&Fault::InvalidFree { start: 123 }),
        "free()ing invalid offset 123"
    );
    assert_eq!(fault_message(&Fault::OverFree), "free()ing unallocated memory");
    assert_eq!(
        fault_message(&Fault::Corruption { offset: 73627, base: 69632 }),
        "Corruption detected at offset 73627 (base: 69632)"
    );
}

#[test]
fn debug_line_text() {
    assert_eq!(debug_line(7), "Debug: [7]");
    assert_eq!(debug_line(0), "Debug: [0]");
}
