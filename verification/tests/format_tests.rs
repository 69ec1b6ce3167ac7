use tinypng::format_size;

#[test]
fn small_sizes_render_exact_bytes() {
    assert_eq!(format_size(0), "0 B ");
    assert_eq!(format_size(1), "1 B ");
    assert_eq!(format_size(5), "5 B ");
    assert_eq!(format_size(512), "512 B ");
    assert_eq!(format_size(1023), "1023 B ");
}

#[test]
fn kilobyte_boundary() {
    assert_eq!(format_size(1024), "1.0 KB");
}

#[test]
fn one_and_a_half_kilobytes() {
    assert_eq!(format_size(1536), "1.5 KB");
}

#[test]
fn megabyte_boundary() {
    assert_eq!(format_size(1048576), "1.0 MB");
}

#[test]
fn two_kilobytes() {
    assert_eq!(format_size(2048), "2.0 KB");
}

#[test]
fn rounds_up_just_below_a_boundary() {
    // 1048575 / 1024 = 1023.999..., which rounds to 1024.0 at the K scale.
    assert_eq!(format_size(1048575), "1024.0 KB");
}

#[test]
fn rounding_tie_goes_to_even_digit() {
    // 1280 / 1024 = 1.25 exactly; the tie rounds to the even digit 2.
    assert_eq!(format_size(1280), "1.2 KB");
    // 1792 / 1024 = 1.75 exactly; the tie rounds to the even digit 8.
    assert_eq!(format_size(1792), "1.8 KB");
}

#[test]
fn larger_units() {
    assert_eq!(format_size(1073741824), "1.0 GB");
    assert_eq!(format_size(1099511627776), "1.0 TB");
    assert_eq!(format_size(1125899906842624), "1.0 PB");
    assert_eq!(format_size(1152921504606846976), "1.0 EB");
    assert_eq!(format_size(u64::MAX), "16.0 EB");
}
