use download_manager::manager::download_suffix_str;
use download_manager::utils::{parse_u64, remove_suffix};

#[test]
fn remove_suffix_strips_a_trailing_suffix() {
    assert_eq!(remove_suffix("file.bin.download", ".download"), "file.bin");
    assert_eq!(remove_suffix("a.download", ".download"), "a");
    assert_eq!(remove_suffix(".download", ".download"), "");
}

#[test]
fn remove_suffix_leaves_other_strings_alone() {
    assert_eq!(remove_suffix("file.bin", ".download"), "file.bin");
    assert_eq!(remove_suffix("download", ".download"), "download");
    assert_eq!(remove_suffix("", ".download"), "");
    assert_eq!(remove_suffix("x.downloadz", ".download"), "x.downloadz");
}

#[test]
fn remove_suffix_with_empty_suffix_is_identity() {
    assert_eq!(remove_suffix("anything", ""), "anything");
    assert_eq!(remove_suffix("", ""), "");
}

#[test]
fn remove_suffix_handles_multibyte_text() {
    assert_eq!(remove_suffix("données.download", ".download"), "données");
    assert_eq!(remove_suffix("файл.вложение", ".download"), "файл.вложение");
}

#[test]
fn the_working_suffix_is_the_download_extension() {
    assert_eq!(download_suffix_str(), ".download");
}

#[test]
fn parse_u64_reads_exact_decimal_values() {
    assert_eq!(parse_u64("0"), Some(0));
    assert_eq!(parse_u64("1000"), Some(1000));
    assert_eq!(parse_u64("007"), Some(7));
    assert_eq!(parse_u64("18446744073709551615"), Some(u64::MAX));
}

#[test]
fn parse_u64_rejects_non_numbers() {
    assert_eq!(parse_u64(""), None);
    assert_eq!(parse_u64("12a"), None);
    assert_eq!(parse_u64("-1"), None);
    assert_eq!(parse_u64(" 5"), None);
    assert_eq!(parse_u64("1.5"), None);
}

#[test]
fn parse_u64_rejects_values_past_the_limit() {
    assert_eq!(parse_u64("18446744073709551616"), None);
    assert_eq!(parse_u64("99999999999999999999999"), None);
}
