use ferro::classify::classify_response;
use ferro::classify::classify_body;
use ferro::classify::blocked_message;
use ferro::classify::ban_page_url;
use ferro::classify::Classification;
use ferro::error::ResolveError;
use ferro::locale::adopt_locale;
use ferro::locale::locale_or_default;
use ferro::locale::locale_probe_url;
use ferro::pipeline::find_language;
use ferro::pipeline::get_download_url;
use ferro::pipeline::plan_architectures;
use ferro::pipeline::plan_languages;
use ferro::pipeline::record_branch_skus;
use ferro::pipeline::record_download_options;
use ferro::pipeline::ArchitecturesPlan;
use ferro::pipeline::LanguagesPlan;
use ferro::pipeline::Resolver;
use ferro::retry::attempt_delay_ms;
use ferro::retry::pacing_delay_ms;
use ferro::retry::retry_after_failure;
use ferro::retry::RetryDecision;
use ferro::retry::MAX_ATTEMPTS;
use ferro::session::new_session_id;
use ferro::session::whitelist_outcome;
use ferro::session::SessionRegistry;
use ferro::types::ApiError;
use ferro::types::MicrosoftApiResponse;
use ferro::types::ProductDownloadOption;
use ferro::types::Sku;
use ferro::types::ValidationContainer;
use ferro::types::WindowsArchitecture;
use ferro::types::WindowsLanguage;
use ferro::uefi::get_uefi_shell_architectures;
use ferro::uefi::is_shell_version;
use ferro::uefi::uefi_version_url;

fn sku(id: &str, language: &str, localized: &str) -> Sku {
    Sku {
        id: id.to_string(),
        language: language.to_string(),
        localized_language: localized.to_string(),
        localized_product_display_name: String::new(),
        description: None,
        product_display_name: None,
        product_edition_name: None,
        friendly_file_names: None,
    }
}

fn ok_response() -> MicrosoftApiResponse {
    MicrosoftApiResponse {
        skus: None,
        product_download_options: None,
        errors: None,
        validation_container: None,
    }
}

/// End-to-end resolution over mocked endpoint payloads: the full vendor
/// path from the catalog to the final URL.
#[test]
fn test_resolution_scenario_vendor() {
    let releases = ferro::catalog::get_releases("Windows 11").unwrap();
    let release = &releases[0].name;
    let editions = ferro::catalog::get_editions("Windows 11", release).unwrap();
    let edition = &editions[0];
    assert!(matches!(plan_languages("Windows 11"), LanguagesPlan::Vendor));
    assert!(matches!(
        plan_architectures("Windows 11", release),
        ArchitecturesPlan::Vendor
    ));

    let mut resolver = Resolver::new("en-US".to_string());
    let mut languages: Vec<WindowsLanguage> = Vec::new();
    for (i, &edition_id) in edition.id.iter().enumerate() {
        let branch = resolver.register_branch(format!("session-{i}"));
        assert_eq!(branch, i);
        let request = resolver.sku_request(branch, edition_id, 0).unwrap();
        assert!(request.url.contains(&format!("productEditionId={edition_id}")));
        assert!(request.url.contains(&format!("sessionID=session-{i}")));
        // mocked SKU endpoint: one English SKU on every branch
        let skus = vec![sku("1214", "English", "English (United States)")];
        record_branch_skus(&mut languages, branch, &skus);
    }
    // both branches surfaced the same language: one group, two linkages
    assert_eq!(languages.len(), 1);
    assert_eq!(languages[0].data.len(), 2);
    assert_eq!(languages[0].data[0].session_index, 0);
    assert_eq!(languages[0].data[1].session_index, 1);

    let li = find_language(&languages, "English").unwrap();
    let mut architectures: Vec<WindowsArchitecture> = Vec::new();
    for entry in &languages[li].data {
        let link = resolver.link_request(entry).unwrap();
        assert!(link.url.contains("SKU=1214"));
        assert!(link.url.contains(&format!("sessionID=session-{}", entry.session_index)));
        // mocked download-links endpoint: one x64 option
        let options = vec![ProductDownloadOption {
            uri: "https://example/win11.iso".to_string(),
            download_type: 1,
        }];
        record_download_options(&mut architectures, &options);
    }
    let url = get_download_url(&architectures, "x64").unwrap();
    assert_eq!(url, "https://example/win11.iso");
}

/// The firmware-shell fork: no vendor request is planned, and the link
/// comes from template substitution.
#[test]
fn test_resolution_scenario_shell() {
    assert!(is_shell_version("UEFI Shell 2.2"));
    assert!(!is_shell_version("Windows 11"));
    match plan_languages("UEFI Shell 2.2") {
        LanguagesPlan::Shell { record } => {
            assert_eq!(record.name, "en-us");
            assert_eq!(record.display_name, "English (US)");
            assert_eq!(record.data.len(), 1);
        }
        LanguagesPlan::Vendor => panic!("shell version must not reach the vendor funnel"),
    }
    match plan_architectures("UEFI Shell 2.2", "25H1 (edk2-stable202505)") {
        ArchitecturesPlan::Shell { version_url } => {
            assert_eq!(
                version_url,
                "https://github.com/pbatard/UEFI-Shell/releases/download/25H1/Version.xml"
            );
        }
        ArchitecturesPlan::Vendor => panic!("shell version must not reach the vendor funnel"),
    }
    let archs = get_uefi_shell_architectures(
        "UEFI Shell 2.2",
        "25H1 (edk2-stable202505)",
        "Release",
        None,
    );
    assert_eq!(archs.len(), 1);
    assert_eq!(
        archs[0].url,
        "https://github.com/pbatard/UEFI-Shell/releases/download/25H1/UEFI-Shell-2.2-25H1-RELEASE.iso"
    );
    assert_eq!(archs[0].name, "x64, ARM64, IA32");

    let debug = get_uefi_shell_architectures(
        "UEFI Shell 2.2",
        "24H2 (edk2-stable202411)",
        "Debug",
        None,
    );
    assert!(debug[0].url.ends_with("/UEFI-Shell-2.2-24H2-DEBUG.iso"));
}

#[test]
fn test_uefi_metadata_parsing() {
    let xml = "<info><arch>x64</arch><arch>AA64</arch></info>";
    let archs = get_uefi_shell_architectures(
        "UEFI Shell 2.2",
        "25H1 (edk2-stable202505)",
        "Release",
        Some(xml),
    );
    assert_eq!(archs[0].name, "x64, AA64");

    let broken = get_uefi_shell_architectures(
        "UEFI Shell 2.2",
        "25H1 (edk2-stable202505)",
        "Release",
        Some("<info>nothing here</info>"),
    );
    assert_eq!(broken[0].name, "x64, ARM64, IA32");
}

#[test]
fn test_uefi_version_url() {
    assert_eq!(
        uefi_version_url("23H2 (edk2-stable202311)"),
        "https://github.com/pbatard/UEFI-Shell/releases/download/23H2/Version.xml"
    );
}

/// The requested architecture is absent from what was discovered.
#[test]
fn test_architecture_not_found() {
    let architectures = vec![WindowsArchitecture {
        name: "x64".to_string(),
        url: "https://example/win11.iso".to_string(),
    }];
    let err = get_download_url(&architectures, "ARM64").unwrap_err();
    assert!(matches!(err, ResolveError::ArchitectureNotFound { .. }));
    assert_eq!(err.message(), "Architecture 'ARM64' not found");
}

#[test]
fn test_download_url_case_insensitive_equality() {
    let architectures = vec![
        WindowsArchitecture {
            name: "x86".to_string(),
            url: "https://example/a.iso".to_string(),
        },
        WindowsArchitecture {
            name: "x64".to_string(),
            url: "https://example/b.iso".to_string(),
        },
    ];
    assert_eq!(get_download_url(&architectures, "X64").unwrap(), "https://example/b.iso");
    // equality, not substring: "x6" names nothing
    assert!(get_download_url(&architectures, "x6").is_err());
}

#[test]
fn test_find_language_not_found() {
    let languages: Vec<WindowsLanguage> = Vec::new();
    let err = find_language(&languages, "Klingon").unwrap_err();
    assert_eq!(err.message(), "Language 'Klingon' not found");
}

/// A call failing twice then succeeding performs exactly two backoff
/// sleeps of 2 then 4 seconds and returns the success result.
#[test]
fn test_retry_two_failures_then_success() {
    let outcomes = [false, false, true];
    let mut backoffs: Vec<u64> = Vec::new();
    let mut result: Option<&str> = None;
    for attempt in 0..MAX_ATTEMPTS {
        if outcomes[attempt as usize] {
            result = Some("payload");
            break;
        }
        match retry_after_failure(attempt, MAX_ATTEMPTS) {
            RetryDecision::Retry { backoff_secs } => backoffs.push(backoff_secs),
            RetryDecision::GiveUp => break,
        }
    }
    assert_eq!(result, Some("payload"));
    assert_eq!(backoffs, vec![2, 4]);
}

/// A call failing on every attempt surfaces the last error unchanged in
/// kind after exhausting the attempts.
#[test]
fn test_retry_exhaustion_keeps_last_error() {
    let mut backoffs: Vec<u64> = Vec::new();
    let mut last_error: Option<ResolveError> = None;
    for attempt in 0..MAX_ATTEMPTS {
        last_error = Some(ResolveError::Transient {
            detail: format!("failure on attempt {attempt}"),
        });
        match retry_after_failure(attempt, MAX_ATTEMPTS) {
            RetryDecision::Retry { backoff_secs } => backoffs.push(backoff_secs),
            RetryDecision::GiveUp => break,
        }
    }
    assert_eq!(backoffs, vec![2, 4]);
    match last_error {
        Some(ResolveError::Transient { detail }) => {
            assert_eq!(detail, "failure on attempt 2");
        }
        _ => panic!("the terminal error must keep its kind"),
    }
}

#[test]
fn test_pacing_delays() {
    assert_eq!(attempt_delay_ms(0), 100);
    assert_eq!(attempt_delay_ms(300), 400);
    assert_eq!(attempt_delay_ms(301), 100);
    assert_eq!(pacing_delay_ms(0), 500);
    assert_eq!(pacing_delay_ms(999), 1499);
    assert_eq!(pacing_delay_ms(1000), 500);
    // delays from a live draw stay inside the documented bounds
    let paced = pacing_delay_ms(ferro::session::random_draw());
    assert!((500..1500).contains(&paced));
    let short = attempt_delay_ms(ferro::session::random_draw());
    assert!((100..=400).contains(&short));
}

/// The block sentinel yields `Blocked`, and the surfaced message carries
/// the offending session identifier.
#[test]
fn test_ban_sentinel_blocked() {
    let mut response = ok_response();
    response.errors = Some(vec![ApiError {
        error_type: 9,
        value: "does not matter".to_string(),
    }]);
    assert!(matches!(classify_response(&response), Classification::Blocked));

    let message = blocked_message(None, "abc-123");
    assert!(message.contains("715-123130"));
    assert!(message.ends_with(" abc-123"));
}

/// Any other non-empty error list is a vendor failure with the entry's
/// text kept verbatim.
#[test]
fn test_api_error_verbatim() {
    let mut response = ok_response();
    response.errors = Some(vec![ApiError {
        error_type: 5,
        value: "Invalid product edition".to_string(),
    }]);
    match classify_response(&response) {
        Classification::Failure { detail } => assert_eq!(detail, "Invalid product edition"),
        _ => panic!("a non-sentinel error entry must be a vendor failure"),
    }
}

#[test]
fn test_validation_container_checked_first() {
    let mut response = ok_response();
    response.validation_container = Some(ValidationContainer {
        error_list: vec![],
        errors: vec!["structured failure".to_string()],
    });
    response.errors = Some(vec![ApiError {
        error_type: 9,
        value: "ignored".to_string(),
    }]);
    match classify_response(&response) {
        Classification::Failure { detail } => assert_eq!(detail, "structured failure"),
        _ => panic!("the validation container is checked before the legacy list"),
    }
}

#[test]
fn test_classify_accepted() {
    let mut response = ok_response();
    response.skus = Some(vec![sku("1", "English", "English (US)")]);
    assert!(matches!(classify_response(&response), Classification::Accepted));
    let empty_errors = MicrosoftApiResponse {
        skus: None,
        product_download_options: None,
        errors: Some(vec![]),
        validation_container: None,
    };
    assert!(matches!(classify_response(&empty_errors), Classification::Accepted));
}

#[test]
fn test_ban_message_extraction() {
    let html = "<html><input id=\"msg-01\" type=\"hidden\" value=\"Blocked &lt;b&gt;715-123130&lt;/b&gt;   today\"/></html>";
    let message = blocked_message(Some(html), "sid-9");
    assert_eq!(message, "Blocked 715-123130 today Session ID:  sid-9");
}

#[test]
fn test_ban_message_fallback_without_code() {
    let html = "<html><input id=\"msg-01\" type=\"hidden\" value=\"Something else\"/></html>";
    let message = blocked_message(Some(html), "sid-9");
    assert!(message.contains("banned by Microsoft"));
    assert!(message.ends_with(" sid-9"));
}

#[test]
fn test_classify_body_empty() {
    let err = classify_body("  \n ", "403 Forbidden").unwrap();
    match err {
        ResolveError::Transient { detail } => {
            assert!(detail.starts_with("API returned empty response. Status: 403 Forbidden."));
        }
        _ => panic!("an empty body is a transient failure"),
    }
    assert!(classify_body("{\"Skus\":[]}", "200 OK").is_none());
}

/// Branch-scoped sessions: each branch's download-links call presents
/// the identifier its SKU call presented, and distinct branches keep
/// distinct identifiers.
#[test]
fn test_sessions_branch_scoped() {
    let mut resolver = Resolver::new("en-US".to_string());
    let b0 = resolver.register_branch("session-a".to_string());
    let b1 = resolver.register_branch("session-b".to_string());
    let sku0 = resolver.sku_request(b0, 3113, 0).unwrap();
    let sku1 = resolver.sku_request(b1, 3131, 0).unwrap();
    assert_eq!(sku0.session_id, "session-a");
    assert_eq!(sku1.session_id, "session-b");
    let link0 = resolver
        .link_request(&ferro::types::LanguageData {
            session_index: b0,
            sku_id: "1214".to_string(),
        })
        .unwrap();
    let link1 = resolver
        .link_request(&ferro::types::LanguageData {
            session_index: b1,
            sku_id: "1215".to_string(),
        })
        .unwrap();
    assert_eq!(link0.session_id, sku0.session_id);
    assert_eq!(link1.session_id, sku1.session_id);
    assert_ne!(link0.session_id, link1.session_id);
}

#[test]
fn test_session_missing_is_ordering_fault() {
    let resolver = Resolver::new("en-US".to_string());
    let err = resolver
        .link_request(&ferro::types::LanguageData {
            session_index: 7,
            sku_id: "1".to_string(),
        })
        .unwrap_err();
    assert_eq!(err.message(), "Session ID not found for index 7");
}

#[test]
fn test_session_registry() {
    let mut registry = SessionRegistry::new();
    assert_eq!(registry.len(), 0);
    assert_eq!(registry.register("one".to_string()), 0);
    assert_eq!(registry.register("two".to_string()), 1);
    assert_eq!(registry.session_for(0).unwrap(), "one");
    assert_eq!(registry.session_for(1).unwrap(), "two");
    assert!(registry.session_for(2).is_err());
}

#[test]
fn test_new_session_id_shape() {
    let id = new_session_id();
    assert_eq!(id.len(), 36);
    let other = new_session_id();
    assert_ne!(id, other);
}

#[test]
fn test_whitelist_policy_fatal() {
    assert!(whitelist_outcome(true, String::new()).is_ok());
    let err = whitelist_outcome(false, "connection refused".to_string()).unwrap_err();
    assert_eq!(err.message(), "Session whitelisting failed: connection refused");
}

#[test]
fn test_request_urls_exact() {
    let mut resolver = Resolver::new("en-US".to_string());
    let b = resolver.register_branch("s-1".to_string());
    let request = resolver.sku_request(b, 3113, 0).unwrap();
    assert_eq!(
        request.url,
        "https://www.microsoft.com/software-download-connector/api/getskuinformationbyproductedition?profile=606624d44113&productEditionId=3113&SKU=undefined&friendlyFileName=undefined&Locale=en-US&sessionID=s-1"
    );
    // attempt diversity rotates the placeholder encoding
    let second = resolver.sku_request(b, 3113, 1).unwrap();
    assert!(second.url.contains("&SKU=&friendlyFileName=&"));
    let third = resolver.sku_request(b, 3113, 2).unwrap();
    assert!(third.url.contains("&SKU=null&friendlyFileName=null&"));

    let link = resolver
        .link_request(&ferro::types::LanguageData {
            session_index: b,
            sku_id: "1214".to_string(),
        })
        .unwrap();
    assert_eq!(
        link.url,
        "https://www.microsoft.com/software-download-connector/api/GetProductDownloadLinksBySku?profile=606624d44113&productEditionId=undefined&SKU=1214&friendlyFileName=undefined&Locale=en-US&sessionID=s-1"
    );
    assert_eq!(link.referer, "https://www.microsoft.com/software-download/windows11");
    assert_eq!(
        resolver.whitelist_request("s-1"),
        "https://vlscppe.microsoft.com/tags?org_id=y6jn8c31&session_id=s-1"
    );
}

#[test]
fn test_locale_negotiation() {
    assert_eq!(locale_or_default(None), "en-US");
    assert_eq!(locale_or_default(Some("de-DE".to_string())), "de-DE");
    assert_eq!(adopt_locale("de-DE".to_string(), true), "de-DE");
    assert_eq!(adopt_locale("de-DE".to_string(), false), "en-US");
    assert_eq!(
        locale_probe_url("fr-FR"),
        "https://www.microsoft.com/fr-FR/software-download/"
    );
    assert_eq!(
        ban_page_url("en-US"),
        "https://www.microsoft.com/en-US/software-download/windows11"
    );
    // the wrapper around the system probe returns some usable locale text
    let system = ferro::locale::get_system_locale();
    let _ = system;
}

#[test]
fn test_merge_keeps_distinct_languages() {
    let mut languages: Vec<WindowsLanguage> = Vec::new();
    record_branch_skus(
        &mut languages,
        0,
        &vec![
            sku("10", "English", "English (United States)"),
            sku("11", "German", "Deutsch"),
        ],
    );
    record_branch_skus(&mut languages, 1, &vec![sku("20", "German", "Deutsch")]);
    assert_eq!(languages.len(), 2);
    assert_eq!(languages[0].name, "English");
    assert_eq!(languages[1].name, "German");
    assert_eq!(languages[1].data.len(), 2);
    assert_eq!(languages[1].data[0].sku_id, "11");
    assert_eq!(languages[1].data[1].session_index, 1);
    assert_eq!(languages[1].data[1].sku_id, "20");
}
