use static_serve::config::default_config;
use static_serve::respond::{content_type_for, extension_of, mime_of, ReadOutcome, Status};
use static_serve::server::{begin_request, complete_request};
use static_serve::timing::{elapsed_ns, end_line, format_ms, start_line, u64_to_dec, u64_to_dec_pad};

fn segs(parts: &[&str]) -> Vec<String> {
    parts.iter().map(|p| p.to_string()).collect()
}

#[test]
fn elapsed_never_negative() {
    assert_eq!(elapsed_ns(3, 10), 7);
    assert_eq!(elapsed_ns(10, 3), 0);
    assert_eq!(elapsed_ns(5, 5), 0);
}

#[test]
fn decimal_rendering() {
    assert_eq!(u64_to_dec(0), "0".to_string());
    assert_eq!(u64_to_dec(9), "9".to_string());
    assert_eq!(u64_to_dec(1234567890), "1234567890".to_string());
    assert_eq!(u64_to_dec_pad(7, 6), "000007".to_string());
    assert_eq!(u64_to_dec_pad(123456, 6), "123456".to_string());
}

#[test]
fn milliseconds_with_six_fraction_digits() {
    assert_eq!(format_ms(0), "0.000000".to_string());
    assert_eq!(format_ms(1234567), "1.234567".to_string());
    assert_eq!(format_ms(1500000), "1.500000".to_string());
    assert_eq!(format_ms(999), "0.000999".to_string());
}

#[test]
fn log_lines() {
    assert_eq!(
        start_line(&segs(&["img", "favicon.ico"])),
        "Requested url: img/favicon.ico".to_string()
    );
    assert_eq!(end_line(1500000), "Request took: 1.500000 ms".to_string());
}

#[test]
fn extensions_and_content_types() {
    assert_eq!(extension_of("index.html"), "html".to_string());
    assert_eq!(extension_of("archive.tar.gz"), "gz".to_string());
    assert_eq!(extension_of("Makefile"), "".to_string());
    assert_eq!(mime_of(&"css".to_string()), "text/css".to_string());
    assert_eq!(mime_of(&"js".to_string()), "application/javascript".to_string());
    assert_eq!(
        mime_of(&"weird".to_string()),
        "application/octet-stream".to_string()
    );
    assert_eq!(
        content_type_for(&segs(&["src", "www", "style.css"])),
        "text/css".to_string()
    );
    assert_eq!(
        content_type_for(&segs(&["src", "www", "img", "favicon.ico"])),
        "image/x-icon".to_string()
    );
    assert_eq!(
        content_type_for(&segs(&[])),
        "application/octet-stream".to_string()
    );
}

#[test]
fn request_cycle_logs_start_then_end() {
    let table = default_config();
    let began = begin_request(&table, "/index.html");
    assert_eq!(began.start_line, "Requested url: index.html".to_string());
    let start_ns = began.ctx.start_ns;
    let done = complete_request(&table, began, ReadOutcome::Found(b"<h1>Hi</h1>".to_vec()));
    assert_eq!(done.response.status, Status::Okay);
    assert_eq!(done.response.body, b"<h1>Hi</h1>".to_vec());
    assert_eq!(done.end_line, end_line(elapsed_ns(start_ns, done.end_ns)));
    assert!(done.end_ns >= start_ns);
}

#[test]
fn interleaved_cycles_stay_independent() {
    let table = default_config();
    let began_a = begin_request(&table, "/a.txt");
    let began_b = begin_request(&table, "/b.txt");
    assert_eq!(began_a.start_line, "Requested url: a.txt".to_string());
    assert_eq!(began_b.start_line, "Requested url: b.txt".to_string());
    let start_b = began_b.ctx.start_ns;
    let done_b = complete_request(&table, began_b, ReadOutcome::Found(b"bytes of b".to_vec()));
    let start_a = began_a.ctx.start_ns;
    let done_a = complete_request(&table, began_a, ReadOutcome::Found(b"bytes of a".to_vec()));
    assert_eq!(done_a.response.body, b"bytes of a".to_vec());
    assert_eq!(done_b.response.body, b"bytes of b".to_vec());
    assert_eq!(done_a.end_line, end_line(elapsed_ns(start_a, done_a.end_ns)));
    assert_eq!(done_b.end_line, end_line(elapsed_ns(start_b, done_b.end_ns)));
}

#[test]
fn not_found_cycle_still_logs() {
    let table = default_config();
    let began = begin_request(&table, "/nonexistent");
    assert_eq!(began.start_line, "Requested url: nonexistent".to_string());
    let start_ns = began.ctx.start_ns;
    let done = complete_request(&table, began, ReadOutcome::Missing);
    assert_eq!(done.response.status, Status::NotFound);
    assert_eq!(done.end_line, end_line(elapsed_ns(start_ns, done.end_ns)));
}
