//! The session-orchestrated resolution funnel.
//!
//! The funnel advances in strict forward order: versions, releases and
//! editions are pure catalog lookups; languages and architectures are
//! discovered against the vendor API; the final stage matches the
//! requested architecture against what was discovered. Each internal
//! edition identifier of the matched edition is one funnel branch, and
//! each branch owns exactly one session identifier: the identifier
//! registered when the branch's SKU discovery begins is presented by the
//! branch's download-links calls too, never a fresh one.
//!
//! The functions here decide and describe; they perform no transport. A
//! driver obtains request descriptions (URL, session, referer), performs
//! them with the pacing and retry decisions of [`crate::retry`], and
//! hands the decoded responses back in.

use vstd::prelude::*;

use crate::error::ResolveError;
use crate::retry::encoding_for_attempt;
use crate::retry::placeholder;
use crate::session::SessionData;
use crate::session::SessionRegistry;
use crate::session::spec_whitelist_url;
use crate::session::whitelist_url;
use crate::text::contains_ci;
use crate::text::contains_str_ci;
use crate::text::dec_str;
use crate::text::equal_ci;
use crate::text::equal_str_ci;
use crate::text::str_eq;
use crate::text::u64_to_string;
use crate::types::LanguageData;
use crate::types::LanguageEntryModel;
use crate::types::LanguageModel;
use crate::types::ProductDownloadOption;
use crate::types::Sku;
use crate::types::WindowsArchitecture;
use crate::types::WindowsLanguage;
use crate::uefi::spec_is_shell_version;
use crate::uefi::is_shell_version;
use crate::uefi::spec_uefi_version_url;
use crate::uefi::uefi_language;
use crate::uefi::uefi_version_url;
use crate::utils::spec_arch_name;
use crate::utils::get_arch_from_type;

verus! {

/// The SKU-information URL for one funnel branch: profile, edition
/// identifier, the attempt's placeholder encoding, locale and session.
pub open spec fn spec_sku_url(
    profile: Seq<char>,
    edition_id: u32,
    placeholder_text: Seq<char>,
    locale: Seq<char>,
    session: Seq<char>,
) -> Seq<char> {
    "https://www.microsoft.com/software-download-connector/api/getskuinformationbyproductedition?profile="@
        + profile + "&productEditionId="@ + dec_str(edition_id as nat) + "&SKU="@
        + placeholder_text + "&friendlyFileName="@ + placeholder_text + "&Locale="@ + locale
        + "&sessionID="@ + session
}

/// The download-links URL for one discovered SKU.
pub open spec fn spec_links_url(
    profile: Seq<char>,
    sku_id: Seq<char>,
    locale: Seq<char>,
    session: Seq<char>,
) -> Seq<char> {
    "https://www.microsoft.com/software-download-connector/api/GetProductDownloadLinksBySku?profile="@
        + profile + "&productEditionId=undefined&SKU="@ + sku_id + "&friendlyFileName=undefined&Locale="@
        + locale + "&sessionID="@ + session
}

/// The placeholder text the attempt's encoding puts in the SKU URL.
pub open spec fn spec_attempt_placeholder(attempt: u32) -> Seq<char> {
    if attempt % 3 == 0 {
        "undefined"@
    } else if attempt % 3 == 1 {
        ""@
    } else {
        "null"@
    }
}

/// A SKU-information call, ready for a driver to perform.
#[derive(Debug, Clone)]
pub struct SkuRequest {
    pub branch: usize,
    pub edition_id: u32,
    pub session_id: String,
    pub url: String,
}

/// A download-links call, ready for a driver to perform.
#[derive(Debug, Clone)]
pub struct LinkRequest {
    pub session_id: String,
    pub url: String,
    pub referer: String,
}

/// The stateful orchestrator of one resolution run: the fixed vendor
/// identifiers, the negotiated locale, and the branch-indexed session
/// registry.
pub struct Resolver {
    pub session_data: SessionData,
    pub registry: SessionRegistry,
    pub query_locale: String,
}

impl Resolver {
    /// A fresh resolver for one run, with no branch registered yet.
    pub fn new(query_locale: String) -> (r: Self)
        ensures
            r.registry@.len() == 0,
            r.query_locale@ == query_locale@,
            r.session_data.session_id@.len() == 36,
            r.session_data.org_id@ == "y6jn8c31"@,
            r.session_data.profile_id@ == "606624d44113"@,
    {
        Resolver {
            session_data: SessionData::default(),
            registry: SessionRegistry::new(),
            query_locale,
        }
    }

    /// Registers `session_id` for the next funnel branch. Identifiers of
    /// earlier branches are untouched.
    pub fn register_branch(&mut self, session_id: String) -> (branch: usize)
        ensures
            final(self).registry@ == old(self).registry@.push(session_id@),
            branch == old(self).registry@.len(),
            final(self).session_data == old(self).session_data,
            final(self).query_locale == old(self).query_locale,
    {
        self.registry.register(session_id)
    }

    /// The gateway allow-listing call for a session of this run.
    pub fn whitelist_request(&self, session_id: &str) -> (r: String)
        ensures
            r@ == spec_whitelist_url(self.session_data.org_id@, session_id@),
    {
        whitelist_url(self.session_data.org_id.as_str(), session_id)
    }

    /// The SKU-information call of branch `branch`, shaped for `attempt`.
    /// The session presented is exactly the one registered for the
    /// branch; a branch that was never registered is an ordering fault.
    pub fn sku_request(&self, branch: usize, edition_id: u32, attempt: u32) -> (r: Result<
        SkuRequest,
        ResolveError,
    >)
        ensures
            match r {
                Ok(q) => {
                    &&& branch < self.registry@.len()
                    &&& q.branch == branch
                    &&& q.edition_id == edition_id
                    &&& q.session_id@ == self.registry@[branch as int]
                    &&& q.url@ == spec_sku_url(
                        self.session_data.profile_id@,
                        edition_id,
                        spec_attempt_placeholder(attempt),
                        self.query_locale@,
                        self.registry@[branch as int],
                    )
                },
                Err(e) => branch >= self.registry@.len() && (e
                    matches ResolveError::SessionNotFound { index } && index == branch),
            },
    {
        let session = match self.registry.session_for(branch) {
            Ok(s) => s.clone(),
            Err(e) => {
                return Err(e);
            },
        };
        let enc = encoding_for_attempt(attempt);
        let ph = placeholder(&enc);
        let mut u =
            "https://www.microsoft.com/software-download-connector/api/getskuinformationbyproductedition?profile=".to_owned();
        u.append(self.session_data.profile_id.as_str());
        u.append("&productEditionId=");
        let id = u64_to_string(edition_id as u64);
        u.append(id.as_str());
        u.append("&SKU=");
        u.append(ph);
        u.append("&friendlyFileName=");
        u.append(ph);
        u.append("&Locale=");
        u.append(self.query_locale.as_str());
        u.append("&sessionID=");
        u.append(session.as_str());
        Ok(SkuRequest { branch, edition_id, session_id: session, url: u })
    }

    /// The download-links call for one (branch, SKU) linkage. The session
    /// presented is the one registered when the linkage's branch ran its
    /// SKU discovery — reused, never recreated.
    pub fn link_request(&self, entry: &LanguageData) -> (r: Result<LinkRequest, ResolveError>)
        ensures
            match r {
                Ok(q) => {
                    &&& entry.session_index < self.registry@.len()
                    &&& q.session_id@ == self.registry@[entry.session_index as int]
                    &&& q.referer@ == "https://www.microsoft.com/software-download/windows11"@
                    &&& q.url@ == spec_links_url(
                        self.session_data.profile_id@,
                        entry.sku_id@,
                        self.query_locale@,
                        self.registry@[entry.session_index as int],
                    )
                },
                Err(e) => entry.session_index >= self.registry@.len() && (e
                    matches ResolveError::SessionNotFound { index } && index
                    == entry.session_index),
            },
    {
        let session = match self.registry.session_for(entry.session_index) {
            Ok(s) => s.clone(),
            Err(e) => {
                return Err(e);
            },
        };
        let mut u =
            "https://www.microsoft.com/software-download-connector/api/GetProductDownloadLinksBySku?profile=".to_owned();
        u.append(self.session_data.profile_id.as_str());
        u.append("&productEditionId=undefined&SKU=");
        u.append(entry.sku_id.as_str());
        u.append("&friendlyFileName=undefined&Locale=");
        u.append(self.query_locale.as_str());
        u.append("&sessionID=");
        u.append(session.as_str());
        Ok(
            LinkRequest {
                session_id: session,
                url: u,
                referer: "https://www.microsoft.com/software-download/windows11".to_owned(),
            },
        )
    }
}

/// The index of the first group carrying `name`, or `-1` when none does.
pub open spec fn spec_find_language(groups: Seq<LanguageModel>, name: Seq<char>) -> int
    decreases groups.len(),
{
    if groups.len() == 0 {
        -1
    } else if groups[0].name == name {
        0
    } else {
        let r = spec_find_language(groups.skip(1), name);
        if r < 0 {
            -1
        } else {
            r + 1
        }
    }
}

/// `spec_find_language` returns the first carrier of the name, and `-1`
/// exactly when no group carries it.
pub proof fn lemma_spec_find_language(groups: Seq<LanguageModel>, name: Seq<char>)
    ensures
        spec_find_language(groups, name) >= 0 ==> 0 <= spec_find_language(groups, name)
            < groups.len() && groups[spec_find_language(groups, name)].name == name && (forall|
            j: int,
        |
            0 <= j < spec_find_language(groups, name) ==> groups[j].name != name),
        spec_find_language(groups, name) < 0 ==> forall|j: int|
            0 <= j < groups.len() ==> groups[j].name != name,
    decreases groups.len(),
{
    if groups.len() > 0 && groups[0].name != name {
        lemma_spec_find_language(groups.skip(1), name);
        assert(forall|j: int| 1 <= j < groups.len() ==> groups[j] == groups.skip(1)[j - 1]);
    }
}

/// One SKU merged into the language groups: a group already carrying the
/// SKU's language gains one (branch, SKU) entry; otherwise a new group is
/// opened for it.
pub open spec fn spec_merge_sku(groups: Seq<LanguageModel>, branch: nat, sku: Sku) -> Seq<
    LanguageModel,
> {
    let entry = LanguageEntryModel { session_index: branch, sku_id: sku.id@ };
    let i = spec_find_language(groups, sku.language@);
    if 0 <= i < groups.len() {
        groups.update(
            i,
            LanguageModel {
                name: groups[i].name,
                display_name: groups[i].display_name,
                data: groups[i].data.push(entry),
            },
        )
    } else {
        groups.push(
            LanguageModel {
                name: sku.language@,
                display_name: sku.localized_language@,
                data: seq![entry],
            },
        )
    }
}

/// A whole branch's SKUs merged into the language groups, in order.
pub open spec fn spec_merge_branch(
    groups: Seq<LanguageModel>,
    branch: nat,
    skus: Seq<Sku>,
) -> Seq<LanguageModel>
    decreases skus.len(),
{
    if skus.len() == 0 {
        groups
    } else {
        spec_merge_branch(spec_merge_sku(groups, branch, skus[0]), branch, skus.skip(1))
    }
}

/// Finds the first accumulated group carrying exactly `name`.
fn find_group(languages: &Vec<WindowsLanguage>, name: &str) -> (r: Option<usize>)
    ensures
        match r {
            Some(j) => j < languages@.len() && languages@[j as int].name@ == name@ && forall|
                k: int,
            | 0 <= k < j ==> languages@[k].name@ != name@,
            None => forall|k: int| 0 <= k < languages@.len() ==> languages@[k].name@ != name@,
        },
{
    let mut j: usize = 0;
    while j < languages.len()
        invariant
            j <= languages@.len(),
            forall|k: int| 0 <= k < j ==> languages@[k].name@ != name@,
        decreases languages@.len() - j,
    {
        if str_eq(languages[j].name.as_str(), name) {
            return Some(j);
        }
        j = j + 1;
    }
    None
}

/// Merges one SKU of branch `branch` into the accumulated groups.
fn merge_sku(languages: &mut Vec<WindowsLanguage>, branch: usize, sku: &Sku)
    ensures
        final(languages)@.map_values(|l: WindowsLanguage| l@) == spec_merge_sku(
            old(languages)@.map_values(|l: WindowsLanguage| l@),
            branch as nat,
            *sku,
        ),
{
    let ghost old_langs = languages@;
    let ghost groups = languages@.map_values(|l: WindowsLanguage| l@);
    let ghost entry_model = LanguageEntryModel { session_index: branch as nat, sku_id: sku.id@ };
    let entry = LanguageData { session_index: branch, sku_id: sku.id.clone() };
    let ghost entry_ghost = entry;
    match find_group(languages, sku.language.as_str()) {
        Some(j) => {
            proof {
                assert forall|k: int| 0 <= k < groups.len() implies groups[k].name
                    == old_langs[k].name@ by {}
                lemma_spec_find_language(groups, sku.language@);
                let f = spec_find_language(groups, sku.language@);
                if f < 0 {
                    assert(groups[j as int].name == sku.language@);
                }
                if f < j {
                    assert(old_langs[f].name@ != sku.language@);
                    assert(groups[f].name == old_langs[f].name@);
                } else if f > j {
                    assert(groups[j as int].name == old_langs[j as int].name@);
                    assert(groups[j as int].name == sku.language@);
                }
                assert(f == j);
            }
            let mut g = languages.remove(j);
            g.data.push(entry);
            languages.insert(j, g);
            proof {
                assert(languages@ =~= old_langs.update(j as int, languages@[j as int]));
                assert(languages@[j as int].name == old_langs[j as int].name);
                assert(languages@[j as int].display_name == old_langs[j as int].display_name);
                assert(languages@[j as int].data@ =~= old_langs[j as int].data@.push(entry_ghost));
                assert(languages@[j as int]@.data =~= groups[j as int].data.push(entry_model));
                assert(languages@.map_values(|l: WindowsLanguage| l@) =~~= spec_merge_sku(
                    groups,
                    branch as nat,
                    *sku,
                ));
            }
        },
        None => {
            proof {
                lemma_spec_find_language(groups, sku.language@);
                let f = spec_find_language(groups, sku.language@);
                if f >= 0 {
                    assert(groups[f].name == sku.language@);
                }
            }
            let mut data: Vec<LanguageData> = Vec::new();
            data.push(entry);
            languages.push(
                WindowsLanguage {
                    name: sku.language.clone(),
                    display_name: sku.localized_language.clone(),
                    data,
                },
            );
            proof {
                let last = languages@.len() - 1;
                assert(languages@[last].data@ =~= seq![entry_ghost]);
                assert(languages@[last]@.data =~= seq![entry_model]);
                assert(languages@.map_values(|l: WindowsLanguage| l@) =~~= spec_merge_sku(
                    groups,
                    branch as nat,
                    *sku,
                ));
            }
        },
    }
}

/// Merges every SKU a branch's SKU call returned into the accumulated
/// language groups. A language surfaced by several branches accumulates
/// one (branch, SKU) entry per branch rather than being overwritten.
pub fn record_branch_skus(languages: &mut Vec<WindowsLanguage>, branch: usize, skus: &Vec<Sku>)
    ensures
        final(languages)@.map_values(|l: WindowsLanguage| l@) == spec_merge_branch(
            old(languages)@.map_values(|l: WindowsLanguage| l@),
            branch as nat,
            skus@,
        ),
{
    let ghost groups0 = languages@.map_values(|l: WindowsLanguage| l@);
    let mut i: usize = 0;
    proof {
        assert(skus@.skip(0) =~= skus@);
    }
    while i < skus.len()
        invariant
            i <= skus@.len(),
            spec_merge_branch(groups0, branch as nat, skus@) == spec_merge_branch(
                languages@.map_values(|l: WindowsLanguage| l@),
                branch as nat,
                skus@.skip(i as int),
            ),
        decreases skus@.len() - i,
    {
        let ghost t = skus@.skip(i as int);
        proof {
            assert(t.skip(1) =~= skus@.skip(i + 1));
        }
        merge_sku(languages, branch, &skus[i]);
        i = i + 1;
    }
    proof {
        assert(skus@.skip(skus@.len() as int) =~= Seq::<Sku>::empty());
    }
}

/// Appends each returned download option as a named architecture: the
/// option's numeric type mapped to its architecture name, with its URI.
pub fn record_download_options(
    architectures: &mut Vec<WindowsArchitecture>,
    options: &Vec<ProductDownloadOption>,
)
    ensures
        final(architectures)@.map_values(|a: WindowsArchitecture| a@) == old(
            architectures,
        )@.map_values(|a: WindowsArchitecture| a@) + options@.map_values(
            |o: ProductDownloadOption|
                (crate::types::ArchitectureModel {
                    name: spec_arch_name(o.download_type),
                    url: o.uri@,
                }),
        ),
{
    let mut i: usize = 0;
    while i < options.len()
        invariant
            i <= options@.len(),
            architectures@.map_values(|a: WindowsArchitecture| a@) =~= old(
                architectures,
            )@.map_values(|a: WindowsArchitecture| a@) + options@.subrange(
                0,
                i as int,
            ).map_values(
                |o: ProductDownloadOption|
                    (crate::types::ArchitectureModel {
                        name: spec_arch_name(o.download_type),
                        url: o.uri@,
                    }),
            ),
        decreases options@.len() - i,
    {
        let ghost prev = architectures@;
        let name = get_arch_from_type(options[i].download_type);
        let arch = WindowsArchitecture { name, url: options[i].uri.clone() };
        let ghost na = arch;
        architectures.push(arch);
        i = i + 1;
        proof {
            let f = |o: ProductDownloadOption|
                (crate::types::ArchitectureModel {
                    name: spec_arch_name(o.download_type),
                    url: o.uri@,
                });
            assert(na@ == f(options@[i - 1]));
            assert(architectures@.map_values(|a: WindowsArchitecture| a@) =~= prev.map_values(
                |a: WindowsArchitecture| a@,
            ).push(na@));
            assert(options@.subrange(0, i as int).map_values(f) =~= options@.subrange(
                0,
                i - 1,
            ).map_values(f).push(f(options@[i - 1])));
            assert(architectures@.map_values(|a: WindowsArchitecture| a@) =~= old(
                architectures,
            )@.map_values(|a: WindowsArchitecture| a@) + options@.subrange(0, i as int).map_values(
                f,
            ));
        }
    }
    proof {
        assert(options@.subrange(0, options@.len() as int) =~= options@);
    }
}

/// Finds the first discovered language whose name or localized name
/// contains the selection fragment, case-insensitively.
pub fn find_language(languages: &Vec<WindowsLanguage>, language_name: &str) -> (r: Result<
    usize,
    ResolveError,
>)
    ensures
        match r {
            Ok(i) => {
                &&& i < languages@.len()
                &&& (contains_ci(languages@[i as int].name@, language_name@) || contains_ci(
                    languages@[i as int].display_name@,
                    language_name@,
                ))
                &&& forall|j: int|
                    0 <= j < i ==> !contains_ci(languages@[j].name@, language_name@)
                        && !contains_ci(languages@[j].display_name@, language_name@)
            },
            Err(e) => {
                &&& forall|j: int|
                    0 <= j < languages@.len() ==> !contains_ci(languages@[j].name@, language_name@)
                        && !contains_ci(languages@[j].display_name@, language_name@)
                &&& e matches ResolveError::LanguageNotFound { name } && name@ == language_name@
            },
        },
{
    let mut i: usize = 0;
    while i < languages.len()
        invariant
            i <= languages@.len(),
            forall|j: int|
                0 <= j < i ==> !contains_ci(languages@[j].name@, language_name@) && !contains_ci(
                    languages@[j].display_name@,
                    language_name@,
                ),
        decreases languages@.len() - i,
    {
        if contains_str_ci(languages[i].name.as_str(), language_name) || contains_str_ci(
            languages[i].display_name.as_str(),
            language_name,
        ) {
            return Ok(i);
        }
        i = i + 1;
    }
    Err(ResolveError::LanguageNotFound { name: language_name.to_owned() })
}

/// The final funnel stage: the URL of the first discovered option whose
/// architecture name equals the request, case-insensitively;
/// `ArchitectureNotFound` naming the request when none does.
pub fn get_download_url(
    architectures: &Vec<WindowsArchitecture>,
    architecture_name: &str,
) -> (r: Result<String, ResolveError>)
    ensures
        match r {
            Ok(u) => exists|i: int|
                {
                    &&& 0 <= i < architectures@.len()
                    &&& #[trigger] equal_ci(architectures@[i].name@, architecture_name@)
                    &&& u@ == architectures@[i].url@
                    &&& forall|j: int|
                        0 <= j < i ==> !equal_ci(architectures@[j].name@, architecture_name@)
                },
            Err(e) => {
                &&& forall|j: int|
                    0 <= j < architectures@.len() ==> !equal_ci(
                        architectures@[j].name@,
                        architecture_name@,
                    )
                &&& e matches ResolveError::ArchitectureNotFound { name } && name@
                    == architecture_name@
            },
        },
{
    let mut i: usize = 0;
    while i < architectures.len()
        invariant
            i <= architectures@.len(),
            forall|j: int|
                0 <= j < i ==> !equal_ci(architectures@[j].name@, architecture_name@),
        decreases architectures@.len() - i,
    {
        if equal_str_ci(architectures[i].name.as_str(), architecture_name) {
            return Ok(architectures[i].url.clone());
        }
        i = i + 1;
    }
    Err(ResolveError::ArchitectureNotFound { name: architecture_name.to_owned() })
}

/// How the language stage runs for a selection: the firmware-shell fork
/// short-circuits to one fixed record and issues no vendor call at all;
/// everything else goes through the vendor's SKU discovery.
pub enum LanguagesPlan {
    Shell { record: WindowsLanguage },
    Vendor,
}

/// Decides the language stage's path from the version name alone.
pub fn plan_languages(version_name: &str) -> (r: LanguagesPlan)
    ensures
        spec_is_shell_version(version_name@) ==> (r matches LanguagesPlan::Shell { record } && {
            &&& record.name@ == "en-us"@
            &&& record.display_name@ == "English (US)"@
            &&& record.data@.len() == 1
            &&& record.data@[0].session_index == 0
            &&& record.data@[0].sku_id@ == "1"@
        }),
        !spec_is_shell_version(version_name@) ==> r is Vendor,
{
    if is_shell_version(version_name) {
        LanguagesPlan::Shell { record: uefi_language() }
    } else {
        LanguagesPlan::Vendor
    }
}

/// How the architecture stage runs for a selection: the firmware-shell
/// fork derives a static link and consults only the release's metadata
/// document; everything else goes through the vendor's download-links
/// discovery.
pub enum ArchitecturesPlan {
    Shell { version_url: String },
    Vendor,
}

/// Decides the architecture stage's path from the version name alone.
pub fn plan_architectures(version_name: &str, release_name: &str) -> (r: ArchitecturesPlan)
    ensures
        spec_is_shell_version(version_name@) ==> (r matches ArchitecturesPlan::Shell {
            version_url,
        } && version_url@ == spec_uefi_version_url(release_name@)),
        !spec_is_shell_version(version_name@) ==> r is Vendor,
{
    if is_shell_version(version_name) {
        ArchitecturesPlan::Shell { version_url: uefi_version_url(release_name) }
    } else {
        ArchitecturesPlan::Vendor
    }
}

/// Sessions are branch-scoped and immutable: once a branch is
/// registered, later registrations never change which identifier the
/// registry holds for it. So the download-links call for a SKU
/// discovered under a branch presents exactly the identifier that
/// branch's SKU call presented, and two branches registered with
/// distinct identifiers never share one.
pub proof fn lemma_sessions_branch_scoped(
    reg0: Seq<Seq<char>>,
    reg1: Seq<Seq<char>>,
    b0: int,
    b1: int,
)
    requires
        reg0.len() <= reg1.len(),
        reg1.subrange(0, reg0.len() as int) == reg0,
        0 <= b0 < reg0.len(),
        0 <= b1 < reg0.len(),
    ensures
        reg1[b0] == reg0[b0],
        reg1[b1] == reg0[b1],
        reg0[b0] != reg0[b1] ==> reg1[b0] != reg1[b1],
{
    assert(reg1[b0] == reg1.subrange(0, reg0.len() as int)[b0]);
    assert(reg1[b1] == reg1.subrange(0, reg0.len() as int)[b1]);
}

} // verus!
