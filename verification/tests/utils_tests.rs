use ferro::utils::arch_label;
use ferro::utils::bytes_to_human_readable;
use ferro::utils::extract_filename_from_url;
use ferro::utils::get_arch_from_type;
use ferro::utils::select_language_by_locale;

#[test]
fn test_bytes_to_human_readable() {
    assert_eq!(bytes_to_human_readable(1024), "1.0 KB");
    assert_eq!(bytes_to_human_readable(1536), "1.5 KB");
    assert_eq!(bytes_to_human_readable(1024 * 1024), "1.0 MB");
    assert_eq!(bytes_to_human_readable(5 * 1024 * 1024 * 1024), "5.0 GB");
}

#[test]
fn test_bytes_to_human_readable_edges() {
    assert_eq!(bytes_to_human_readable(0), "0 B");
    assert_eq!(bytes_to_human_readable(1023), "1023 B");
    assert_eq!(bytes_to_human_readable(1025), "1.0 KB");
    assert_eq!(bytes_to_human_readable(1024 * 1024 - 1), "1024.0 KB");
    assert_eq!(bytes_to_human_readable(1536 * 1024 * 1024), "1.5 GB");
    assert_eq!(bytes_to_human_readable(u64::MAX), "16384.0 PB");
}

#[test]
fn test_extract_filename_from_url() {
    let url = "https://example.com/path/to/file.iso?param=value";
    assert_eq!(extract_filename_from_url(url), Some("file.iso".to_string()));
}

#[test]
fn test_extract_filename_no_match() {
    assert_eq!(extract_filename_from_url("https://example.com/nothing"), None);
    assert_eq!(extract_filename_from_url("file.iso"), None);
}

#[test]
fn test_get_arch_from_type() {
    assert_eq!(get_arch_from_type(0), "x86");
    assert_eq!(get_arch_from_type(1), "x64");
    assert_eq!(get_arch_from_type(2), "ARM64");
    assert_eq!(get_arch_from_type(99), "Unknown");
}

#[test]
fn test_select_language_by_locale() {
    assert!(select_language_by_locale("English", "en-us"));
    assert!(select_language_by_locale("French", "fr-fr"));
    assert!(select_language_by_locale("German", "de-de"));
    assert!(!select_language_by_locale("Spanish", "en-us"));
}

#[test]
fn test_select_language_by_locale_more() {
    assert!(select_language_by_locale("Brazilian Portuguese", "pt-BR"));
    assert!(select_language_by_locale("Chinese (Simplified)", "zh-cn"));
    assert!(!select_language_by_locale("Chinese (Simplified)", "zh-tw"));
    assert!(select_language_by_locale("English International", "en-gb"));
    assert!(select_language_by_locale("Spanish (Mexico)", "es-mx"));
    assert!(!select_language_by_locale("Spanish (Mexico)", "es-es"));
}

#[test]
fn test_parse_u64() {
    assert_eq!(ferro::utils::parse_u64("0"), Some(0));
    assert_eq!(ferro::utils::parse_u64("5368709120"), Some(5368709120));
    assert_eq!(ferro::utils::parse_u64("18446744073709551615"), Some(u64::MAX));
    assert_eq!(ferro::utils::parse_u64("18446744073709551616"), None);
    assert_eq!(ferro::utils::parse_u64(""), None);
    assert_eq!(ferro::utils::parse_u64("12a"), None);
    assert_eq!(ferro::utils::parse_u64("-1"), None);
}

#[test]
fn test_arch_label() {
    assert_eq!(arch_label("x86_64"), "x64");
    assert_eq!(arch_label("x86"), "x86");
    assert_eq!(arch_label("aarch64"), "ARM64");
    assert_eq!(arch_label("arm"), "ARM32");
    assert_eq!(arch_label("riscv64"), "riscv64");
}
