use tinypng::failure_report_line;
use tinypng::format_ratio;
use tinypng::success_report_line;
use tinypng::TinyPngError;

#[test]
fn ratio_half_is_fifty_percent() {
    assert_eq!(format_ratio(1000, 500), "50.0%");
}

#[test]
fn ratio_unchanged_is_zero_percent() {
    assert_eq!(format_ratio(1000, 1000), "0.0%");
}

#[test]
fn ratio_grown_output_is_negative() {
    assert_eq!(format_ratio(1000, 1200), "-20.0%");
}

#[test]
fn ratio_rounds_to_one_decimal() {
    // 1 - 2/3 = 0.333..., so 33.3%.
    assert_eq!(format_ratio(3, 1), "66.7%");
    assert_eq!(format_ratio(3, 2), "33.3%");
    // Full reduction and no reduction at the extremes.
    assert_eq!(format_ratio(1, 0), "100.0%");
    assert_eq!(format_ratio(1, 2), "-100.0%");
}

#[test]
fn success_line_layout() {
    assert_eq!(
        success_report_line("img/a.png", 1000, 500),
        "img/a.png: Origin: 1000 B  Compressed: 500 B (50.0%)"
    );
    assert_eq!(
        success_report_line("b.png", 2048, 1024),
        "b.png: Origin: 2.0 KB Compressed: 1.0 KB(50.0%)"
    );
}

#[test]
fn failure_line_layout() {
    let e = TinyPngError::Service {
        status: 403,
        body: String::from("Forbidden"),
    };
    assert_eq!(
        failure_report_line("img/a.png", &e),
        "img/a.png: service error: 403 Forbidden"
    );
}

#[test]
fn error_messages_cover_every_variant() {
    assert_eq!(
        TinyPngError::Io(String::from("no such file")).message(),
        "IO error: no such file"
    );
    assert_eq!(
        TinyPngError::Transport(String::from("connection refused")).message(),
        "transport error: connection refused"
    );
    assert_eq!(
        TinyPngError::Service {
            status: 500,
            body: String::from("oops")
        }
        .message(),
        "service error: 500 oops"
    );
    assert_eq!(
        TinyPngError::Protocol(String::from("location header not found")).message(),
        "protocol error: location header not found"
    );
    assert_eq!(
        TinyPngError::TaskExecution(String::from("worker gone")).message(),
        "task error: worker gone"
    );
}
