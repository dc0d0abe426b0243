//! Record types passed through the resolution funnel, with their
//! mathematical models.
//!
//! The vendor's JSON payloads are decoded outside this crate and handed in
//! as plain values of these types; everything the pipeline reads from a
//! response is an ordinary field here.

use vstd::prelude::*;

verus! {

/// Model of one (branch, SKU) linkage under a language.
#[verifier::ext_equal]
pub struct LanguageEntryModel {
    pub session_index: nat,
    pub sku_id: Seq<char>,
}

/// Model of a language record with its accumulated branch linkages.
#[verifier::ext_equal]
pub struct LanguageModel {
    pub name: Seq<char>,
    pub display_name: Seq<char>,
    pub data: Seq<LanguageEntryModel>,
}

/// Model of a discovered (architecture name, URL) pair.
#[verifier::ext_equal]
pub struct ArchitectureModel {
    pub name: Seq<char>,
    pub url: Seq<char>,
}

/// A catalog version as listed to the caller.
#[derive(Debug, Clone)]
pub struct WindowsVersion {
    pub name: String,
    pub page_type: String,
    pub index: usize,
}

/// A release of a version as listed to the caller.
#[derive(Debug, Clone)]
pub struct WindowsRelease {
    pub name: String,
    pub index: usize,
}

/// An edition of a release, with its internal numeric identifiers.
/// Each identifier becomes one funnel branch.
#[derive(Debug, Clone)]
pub struct WindowsEdition {
    pub name: String,
    pub id: Vec<u32>,
}

/// One (branch index, SKU identifier) linkage of a language. The branch
/// index selects the session under which this SKU was discovered.
#[derive(Debug, Clone)]
pub struct LanguageData {
    pub session_index: usize,
    pub sku_id: String,
}

impl View for LanguageData {
    type V = LanguageEntryModel;

    open spec fn view(&self) -> LanguageEntryModel {
        LanguageEntryModel { session_index: self.session_index as nat, sku_id: self.sku_id@ }
    }
}

/// A language discovered for an edition, with every branch that surfaced
/// it. Duplicate languages across branches accumulate entries here.
#[derive(Debug, Clone)]
pub struct WindowsLanguage {
    pub name: String,
    pub display_name: String,
    pub data: Vec<LanguageData>,
}

impl View for WindowsLanguage {
    type V = LanguageModel;

    open spec fn view(&self) -> LanguageModel {
        LanguageModel {
            name: self.name@,
            display_name: self.display_name@,
            data: self.data@.map_values(|d: LanguageData| d@),
        }
    }
}

/// A discovered download option named by architecture.
#[derive(Debug, Clone)]
pub struct WindowsArchitecture {
    pub name: String,
    pub url: String,
}

impl View for WindowsArchitecture {
    type V = ArchitectureModel;

    open spec fn view(&self) -> ArchitectureModel {
        ArchitectureModel { name: self.name@, url: self.url@ }
    }
}

/// A SKU returned by the vendor's SKU-information endpoint.
#[derive(Debug, Clone)]
pub struct Sku {
    pub id: String,
    pub language: String,
    pub localized_language: String,
    pub localized_product_display_name: String,
    pub description: Option<String>,
    pub product_display_name: Option<String>,
    pub product_edition_name: Option<String>,
    pub friendly_file_names: Option<Vec<String>>,
}

/// A download option returned by the vendor's download-links endpoint.
#[derive(Debug, Clone)]
pub struct ProductDownloadOption {
    pub uri: String,
    pub download_type: u32,
}

/// One entry of the vendor's legacy flat error list.
#[derive(Debug, Clone)]
pub struct ApiError {
    pub error_type: u32,
    pub value: String,
}

/// The vendor's structured validation-error container, with each entry
/// rendered as text.
#[derive(Debug, Clone)]
pub struct ValidationContainer {
    pub error_list: Vec<String>,
    pub errors: Vec<String>,
}

/// A decoded vendor response: the payload of whichever endpoint was
/// called, plus both error containers.
#[derive(Debug, Clone)]
pub struct MicrosoftApiResponse {
    pub skus: Option<Vec<Sku>>,
    pub product_download_options: Option<Vec<ProductDownloadOption>>,
    pub errors: Option<Vec<ApiError>>,
    pub validation_container: Option<ValidationContainer>,
}

} // verus!
