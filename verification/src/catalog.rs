//! The static product catalog: versions, their releases, and the editions
//! of each release with their internal numeric edition identifiers.
//!
//! The table is fixed at build time and read-only. Its full contents are
//! given by the spec function [`catalog`], and every lookup here is
//! case-insensitive substring matching with first-match-wins ordering.

use vstd::prelude::*;

use crate::error::ResolveError;
use crate::text::contains_ci;
use crate::text::contains_str_ci;
use crate::types::WindowsEdition;
use crate::types::WindowsRelease;
use crate::types::WindowsVersion;

verus! {

/// Model of an edition: its display name and its internal identifiers.
#[verifier::ext_equal]
pub struct EditionModel {
    pub name: Seq<char>,
    pub ids: Seq<u32>,
}

/// Model of a release: its display name and its editions.
#[verifier::ext_equal]
pub struct ReleaseModel {
    pub name: Seq<char>,
    pub editions: Seq<EditionModel>,
}

/// Model of a version line: name, vendor page type, and releases.
#[verifier::ext_equal]
pub struct VersionModel {
    pub name: Seq<char>,
    pub page_type: Seq<char>,
    pub releases: Seq<ReleaseModel>,
}

/// A catalog edition entry.
#[derive(Debug, Clone)]
pub struct WindowsEditionData {
    pub name: String,
    pub ids: Vec<u32>,
}

impl View for WindowsEditionData {
    type V = EditionModel;

    open spec fn view(&self) -> EditionModel {
        EditionModel { name: self.name@, ids: self.ids@ }
    }
}

/// A catalog release entry.
#[derive(Debug, Clone)]
pub struct WindowsReleaseData {
    pub name: String,
    pub editions: Vec<WindowsEditionData>,
}

impl View for WindowsReleaseData {
    type V = ReleaseModel;

    open spec fn view(&self) -> ReleaseModel {
        ReleaseModel {
            name: self.name@,
            editions: self.editions@.map_values(|e: WindowsEditionData| e@),
        }
    }
}

/// A catalog version entry.
#[derive(Debug, Clone)]
pub struct WindowsVersionData {
    pub name: String,
    pub page_type: String,
    pub releases: Vec<WindowsReleaseData>,
}

impl View for WindowsVersionData {
    type V = VersionModel;

    open spec fn view(&self) -> VersionModel {
        VersionModel {
            name: self.name@,
            page_type: self.page_type@,
            releases: self.releases@.map_values(|r: WindowsReleaseData| r@),
        }
    }
}

/// The two standard editions of a firmware-shell release.
pub open spec fn uefi_editions() -> Seq<EditionModel> {
    seq![
        EditionModel { name: "Release"@, ids: seq![0u32] },
        EditionModel { name: "Debug"@, ids: seq![1u32] },
    ]
}

/// The whole catalog, exactly as [`get_windows_versions`] builds it.
pub open spec fn catalog() -> Seq<VersionModel> {
    seq![
        VersionModel {
            name: "Windows 11"@,
            page_type: "windows11"@,
            releases: seq![
                ReleaseModel {
                    name: "24H2 (Build 26100.1742 - 2024.10)"@,
                    editions: seq![
                        EditionModel {
                            name: "Windows 11 Home/Pro/Edu"@,
                            ids: seq![3113u32, 3131u32],
                        },
                        EditionModel {
                            name: "Windows 11 Home China "@,
                            ids: seq![3115u32, 3132u32],
                        },
                        EditionModel {
                            name: "Windows 11 Pro China "@,
                            ids: seq![3114u32, 3133u32],
                        },
                    ],
                },
            ],
        },
        VersionModel {
            name: "Windows 10"@,
            page_type: "Windows10ISO"@,
            releases: seq![
                ReleaseModel {
                    name: "22H2 v1 (Build 19045.2965 - 2023.05)"@,
                    editions: seq![
                        EditionModel { name: "Windows 10 Home/Pro/Edu"@, ids: seq![2618u32] },
                        EditionModel { name: "Windows 10 Home China "@, ids: seq![2378u32] },
                    ],
                },
            ],
        },
        VersionModel {
            name: "UEFI Shell 2.2"@,
            page_type: "UEFI_SHELL 2.2"@,
            releases: seq![
                ReleaseModel { name: "25H1 (edk2-stable202505)"@, editions: uefi_editions() },
                ReleaseModel { name: "24H2 (edk2-stable202411)"@, editions: uefi_editions() },
                ReleaseModel { name: "24H1 (edk2-stable202405)"@, editions: uefi_editions() },
                ReleaseModel { name: "23H2 (edk2-stable202311)"@, editions: uefi_editions() },
                ReleaseModel { name: "23H1 (edk2-stable202305)"@, editions: uefi_editions() },
                ReleaseModel { name: "22H2 (edk2-stable202211)"@, editions: uefi_editions() },
                ReleaseModel { name: "22H1 (edk2-stable202205)"@, editions: uefi_editions() },
                ReleaseModel { name: "21H2 (edk2-stable202108)"@, editions: uefi_editions() },
                ReleaseModel { name: "21H1 (edk2-stable202105)"@, editions: uefi_editions() },
                ReleaseModel { name: "20H2 (edk2-stable202011)"@, editions: uefi_editions() },
            ],
        },
        VersionModel {
            name: "UEFI Shell 2.0"@,
            page_type: "UEFI_SHELL 2.0"@,
            releases: seq![
                ReleaseModel {
                    name: "4.632 [20100426]"@,
                    editions: seq![
                        EditionModel { name: "Release"@, ids: seq![0u32] },
                    ],
                },
            ],
        },
    ]
}

/// Builds one edition entry with a single identifier.
fn edition1(name: &str, id0: u32) -> (e: WindowsEditionData)
    ensures
        e@ == (EditionModel { name: name@, ids: seq![id0] }),
{
    let mut ids: Vec<u32> = Vec::new();
    ids.push(id0);
    proof {
        assert(ids@ =~= seq![id0]);
    }
    WindowsEditionData { name: name.to_owned(), ids }
}

/// Builds one edition entry with a pair of identifiers.
fn edition2(name: &str, id0: u32, id1: u32) -> (e: WindowsEditionData)
    ensures
        e@ == (EditionModel { name: name@, ids: seq![id0, id1] }),
{
    let mut ids: Vec<u32> = Vec::new();
    ids.push(id0);
    ids.push(id1);
    proof {
        assert(ids@ =~= seq![id0, id1]);
    }
    WindowsEditionData { name: name.to_owned(), ids }
}

/// Builds one firmware-shell release entry with its two fixed editions.
fn uefi_release(name: &str) -> (r: WindowsReleaseData)
    ensures
        r@ == (ReleaseModel { name: name@, editions: uefi_editions() }),
{
    let mut editions: Vec<WindowsEditionData> = Vec::new();
    editions.push(edition1("Release", 0));
    editions.push(edition1("Debug", 1));
    let r = WindowsReleaseData { name: name.to_owned(), editions };
    proof {
        assert(r@.editions =~~= uefi_editions());
    }
    r
}

/// Builds the static catalog. The result is exactly [`catalog`].
pub fn get_windows_versions() -> (r: Vec<WindowsVersionData>)
    ensures
        r@.map_values(|v: WindowsVersionData| v@) == catalog(),
{
    // Windows 11
    let mut w11_editions: Vec<WindowsEditionData> = Vec::new();
    w11_editions.push(edition2("Windows 11 Home/Pro/Edu", 3113, 3131));
    w11_editions.push(edition2("Windows 11 Home China ", 3115, 3132));
    w11_editions.push(edition2("Windows 11 Pro China ", 3114, 3133));
    let mut w11_releases: Vec<WindowsReleaseData> = Vec::new();
    w11_releases.push(
        WindowsReleaseData {
            name: "24H2 (Build 26100.1742 - 2024.10)".to_owned(),
            editions: w11_editions,
        },
    );
    let w11 = WindowsVersionData {
        name: "Windows 11".to_owned(),
        page_type: "windows11".to_owned(),
        releases: w11_releases,
    };
    proof {
        assert(w11@ =~~= catalog()[0]);
    }

    // Windows 10
    let mut w10_editions: Vec<WindowsEditionData> = Vec::new();
    w10_editions.push(edition1("Windows 10 Home/Pro/Edu", 2618));
    w10_editions.push(edition1("Windows 10 Home China ", 2378));
    let mut w10_releases: Vec<WindowsReleaseData> = Vec::new();
    w10_releases.push(
        WindowsReleaseData {
            name: "22H2 v1 (Build 19045.2965 - 2023.05)".to_owned(),
            editions: w10_editions,
        },
    );
    let w10 = WindowsVersionData {
        name: "Windows 10".to_owned(),
        page_type: "Windows10ISO".to_owned(),
        releases: w10_releases,
    };
    proof {
        assert(w10@ =~~= catalog()[1]);
    }

    // UEFI Shell 2.2
    let mut u22_releases: Vec<WindowsReleaseData> = Vec::new();
    u22_releases.push(uefi_release("25H1 (edk2-stable202505)"));
    u22_releases.push(uefi_release("24H2 (edk2-stable202411)"));
    u22_releases.push(uefi_release("24H1 (edk2-stable202405)"));
    u22_releases.push(uefi_release("23H2 (edk2-stable202311)"));
    u22_releases.push(uefi_release("23H1 (edk2-stable202305)"));
    u22_releases.push(uefi_release("22H2 (edk2-stable202211)"));
    u22_releases.push(uefi_release("22H1 (edk2-stable202205)"));
    u22_releases.push(uefi_release("21H2 (edk2-stable202108)"));
    u22_releases.push(uefi_release("21H1 (edk2-stable202105)"));
    u22_releases.push(uefi_release("20H2 (edk2-stable202011)"));
    let u22 = WindowsVersionData {
        name: "UEFI Shell 2.2".to_owned(),
        page_type: "UEFI_SHELL 2.2".to_owned(),
        releases: u22_releases,
    };
    proof {
        assert(u22@ =~~= catalog()[2]);
    }

    // UEFI Shell 2.0
    let mut u20_editions: Vec<WindowsEditionData> = Vec::new();
    u20_editions.push(edition1("Release", 0));
    let mut u20_releases: Vec<WindowsReleaseData> = Vec::new();
    u20_releases.push(
        WindowsReleaseData { name: "4.632 [20100426]".to_owned(), editions: u20_editions },
    );
    let u20 = WindowsVersionData {
        name: "UEFI Shell 2.0".to_owned(),
        page_type: "UEFI_SHELL 2.0".to_owned(),
        releases: u20_releases,
    };
    proof {
        assert(u20@ =~~= catalog()[3]);
    }

    let mut r: Vec<WindowsVersionData> = Vec::new();
    r.push(w11);
    r.push(w10);
    r.push(u22);
    r.push(u20);
    proof {
        assert(r@.map_values(|v: WindowsVersionData| v@) =~~= catalog());
    }
    r
}

/// `i` is the first catalog version whose name contains `sel`,
/// case-insensitively.
pub open spec fn is_first_version_match(i: int, sel: Seq<char>) -> bool {
    &&& 0 <= i < catalog().len()
    &&& contains_ci(catalog()[i].name, sel)
    &&& forall|j: int| 0 <= j < i ==> !contains_ci(catalog()[j].name, sel)
}

/// No catalog version name contains `sel`, case-insensitively.
pub open spec fn no_version_match(sel: Seq<char>) -> bool {
    forall|j: int| 0 <= j < catalog().len() ==> !contains_ci(catalog()[j].name, sel)
}

/// `k` is the first release of version `v` whose name contains `sel`.
pub open spec fn is_first_release_match(v: VersionModel, k: int, sel: Seq<char>) -> bool {
    &&& 0 <= k < v.releases.len()
    &&& contains_ci(v.releases[k].name, sel)
    &&& forall|j: int| 0 <= j < k ==> !contains_ci(v.releases[j].name, sel)
}

/// No release of version `v` has a name containing `sel`.
pub open spec fn no_release_match(v: VersionModel, sel: Seq<char>) -> bool {
    forall|j: int| 0 <= j < v.releases.len() ==> !contains_ci(v.releases[j].name, sel)
}

/// Finds the first catalog version matching `sel`.
fn find_version(versions: &Vec<WindowsVersionData>, sel: &str) -> (r: Option<usize>)
    requires
        versions@.map_values(|v: WindowsVersionData| v@) == catalog(),
    ensures
        match r {
            Some(i) => i < versions@.len() && is_first_version_match(i as int, sel@),
            None => no_version_match(sel@),
        },
{
    proof {
        assert(versions@.len() == catalog().len());
    }
    let mut i: usize = 0;
    while i < versions.len()
        invariant
            i <= versions@.len(),
            forall|j: int| 0 <= j < i ==> !contains_ci(catalog()[j].name, sel@),
        decreases versions@.len() - i,
    {
        proof {
            assert(versions@[i as int]@ == catalog()[i as int]);
        }
        if contains_str_ci(versions[i].name.as_str(), sel) {
            return Some(i);
        }
        i = i + 1;
    }
    None
}

/// Finds the first release of `version` matching `sel`.
fn find_release(version: &WindowsVersionData, sel: &str) -> (r: Option<usize>)
    ensures
        match r {
            Some(k) => k < version.releases@.len() && is_first_release_match(
                version@,
                k as int,
                sel@,
            ),
            None => no_release_match(version@, sel@),
        },
{
    let mut k: usize = 0;
    while k < version.releases.len()
        invariant
            k <= version.releases@.len(),
            forall|j: int| 0 <= j < k ==> !contains_ci(version@.releases[j].name, sel@),
        decreases version.releases@.len() - k,
    {
        proof {
            assert(version@.releases[k as int] == version.releases@[k as int]@);
        }
        if contains_str_ci(version.releases[k].name.as_str(), sel) {
            return Some(k);
        }
        k = k + 1;
    }
    None
}

/// Finds the first listed edition whose name contains `edition_name`,
/// case-insensitively; `EditionNotFound` when none does.
pub fn find_edition(editions: &Vec<WindowsEdition>, edition_name: &str) -> (r: Result<
    usize,
    ResolveError,
>)
    ensures
        match r {
            Ok(i) => i < editions@.len() && contains_ci(editions@[i as int].name@, edition_name@)
                && forall|j: int|
                0 <= j < i ==> !contains_ci(editions@[j].name@, edition_name@),
            Err(e) => {
                &&& forall|j: int|
                    0 <= j < editions@.len() ==> !contains_ci(editions@[j].name@, edition_name@)
                &&& e matches ResolveError::EditionNotFound { name } && name@ == edition_name@
            },
        },
{
    let mut i: usize = 0;
    while i < editions.len()
        invariant
            i <= editions@.len(),
            forall|j: int| 0 <= j < i ==> !contains_ci(editions@[j].name@, edition_name@),
        decreases editions@.len() - i,
    {
        if contains_str_ci(editions[i].name.as_str(), edition_name) {
            return Ok(i);
        }
        i = i + 1;
    }
    Err(ResolveError::EditionNotFound { name: edition_name.to_owned() })
}

/// Lists every catalog version, with its position in the table.
pub fn get_available_versions() -> (r: Vec<WindowsVersion>)
    ensures
        r@.len() == catalog().len(),
        forall|i: int|
            #![trigger r@[i]]
            0 <= i < r@.len() ==> {
                &&& r@[i].name@ == catalog()[i].name
                &&& r@[i].page_type@ == catalog()[i].page_type
                &&& r@[i].index == i
            },
{
    let versions = get_windows_versions();
    let mut r: Vec<WindowsVersion> = Vec::new();
    let mut i: usize = 0;
    while i < versions.len()
        invariant
            versions@.map_values(|v: WindowsVersionData| v@) == catalog(),
            versions@.len() == catalog().len(),
            i <= versions@.len(),
            r@.len() == i,
            forall|j: int|
                #![trigger r@[j]]
                0 <= j < i ==> {
                    &&& r@[j].name@ == catalog()[j].name
                    &&& r@[j].page_type@ == catalog()[j].page_type
                    &&& r@[j].index == j
                },
        decreases versions@.len() - i,
    {
        proof {
            assert(versions@[i as int]@ == catalog()[i as int]);
        }
        r.push(
            WindowsVersion {
                name: versions[i].name.clone(),
                page_type: versions[i].page_type.clone(),
                index: i,
            },
        );
        i = i + 1;
    }
    r
}

/// Lists the releases of the first version matching `version_name`, with
/// their positions; `VersionNotFound` when no version matches.
pub fn get_releases(version_name: &str) -> (r: Result<Vec<WindowsRelease>, ResolveError>)
    ensures
        match r {
            Ok(rs) => exists|i: int|
                {
                    &&& #[trigger] is_first_version_match(i, version_name@)
                    &&& rs@.len() == catalog()[i].releases.len()
                    &&& forall|k: int|
                        #![trigger rs@[k]]
                        0 <= k < rs@.len() ==> rs@[k].name@ == catalog()[i].releases[k].name
                            && rs@[k].index == k
                },
            Err(e) => {
                &&& no_version_match(version_name@)
                &&& e matches ResolveError::VersionNotFound { name } && name@ == version_name@
            },
        },
{
    let versions = get_windows_versions();
    match find_version(&versions, version_name) {
        None => Err(ResolveError::VersionNotFound { name: version_name.to_owned() }),
        Some(i) => {
            let ghost gi = i as int;
            proof {
                assert(versions@[gi]@ == catalog()[gi]);
            }
            let version = &versions[i];
            let mut rs: Vec<WindowsRelease> = Vec::new();
            let mut k: usize = 0;
            while k < version.releases.len()
                invariant
                    version@ == catalog()[gi],
                    k <= version.releases@.len(),
                    rs@.len() == k,
                    forall|j: int|
                        #![trigger rs@[j]]
                        0 <= j < k ==> rs@[j].name@ == catalog()[gi].releases[j].name
                            && rs@[j].index == j,
                decreases version.releases@.len() - k,
            {
                proof {
                    assert(version@.releases[k as int] == version.releases@[k as int]@);
                }
                rs.push(WindowsRelease { name: version.releases[k].name.clone(), index: k });
                k = k + 1;
            }
            Ok(rs)
        },
    }
}

/// Lists the editions of the first release matching `release_name` under
/// the first version matching `version_name`; `VersionNotFound` or
/// `ReleaseNotFound` when a fragment matches nothing.
pub fn get_editions(version_name: &str, release_name: &str) -> (r: Result<
    Vec<WindowsEdition>,
    ResolveError,
>)
    ensures
        match r {
            Ok(es) => exists|i: int, k: int|
                {
                    &&& #[trigger] is_first_version_match(i, version_name@)
                    &&& #[trigger] is_first_release_match(catalog()[i], k, release_name@)
                    &&& es@.len() == catalog()[i].releases[k].editions.len()
                    &&& forall|m: int|
                        #![trigger es@[m]]
                        0 <= m < es@.len() ==> es@[m].name@
                            == catalog()[i].releases[k].editions[m].name && es@[m].id@
                            == catalog()[i].releases[k].editions[m].ids
                },
            Err(e) => match e {
                ResolveError::VersionNotFound { name } => no_version_match(version_name@)
                    && name@ == version_name@,
                ResolveError::ReleaseNotFound { name } => (exists|i: int|
                    #[trigger] is_first_version_match(i, version_name@) && no_release_match(
                        catalog()[i],
                        release_name@,
                    )) && name@ == release_name@,
                _ => false,
            },
        },
{
    let versions = get_windows_versions();
    match find_version(&versions, version_name) {
        None => Err(ResolveError::VersionNotFound { name: version_name.to_owned() }),
        Some(i) => {
            let ghost gi = i as int;
            proof {
                assert(versions@[gi]@ == catalog()[gi]);
            }
            let version = &versions[i];
            match find_release(version, release_name) {
                None => Err(ResolveError::ReleaseNotFound { name: release_name.to_owned() }),
                Some(k) => {
                    let ghost gk = k as int;
                    let release = &version.releases[k];
                    proof {
                        assert(release@ == catalog()[gi].releases[gk]);
                    }
                    let mut es: Vec<WindowsEdition> = Vec::new();
                    let mut m: usize = 0;
                    while m < release.editions.len()
                        invariant
                            release@ == catalog()[gi].releases[gk],
                            m <= release.editions@.len(),
                            es@.len() == m,
                            forall|j: int|
                                #![trigger es@[j]]
                                0 <= j < m ==> es@[j].name@
                                    == catalog()[gi].releases[gk].editions[j].name && es@[j].id@
                                    == catalog()[gi].releases[gk].editions[j].ids,
                        decreases release.editions@.len() - m,
                    {
                        proof {
                            assert(release@.editions[m as int] == release.editions@[m as int]@);
                        }
                        let ed = &release.editions[m];
                        let mut ids: Vec<u32> = Vec::new();
                        let mut t: usize = 0;
                        while t < ed.ids.len()
                            invariant
                                t <= ed.ids@.len(),
                                ids@ =~= ed.ids@.subrange(0, t as int),
                            decreases ed.ids@.len() - t,
                        {
                            ids.push(ed.ids[t]);
                            t = t + 1;
                        }
                        proof {
                            assert(ids@ =~= ed.ids@);
                        }
                        es.push(WindowsEdition { name: ed.name.clone(), id: ids });
                        m = m + 1;
                    }
                    Ok(es)
                },
            }
        },
    }
}

} // verus!
