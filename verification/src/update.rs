//! Choosing an update from the latest GitHub release.
//!
//! The network requests are made by the caller; this module decides, from the
//! release description and the running version, whether an update exists,
//! which asset to install and where its SHA-256 checksum comes from.
use vstd::prelude::*;
use vstd::utf8::{decode_utf8, valid_utf8};
use crate::text::{chars_of, concat, concat_str, contains, contains_str, ends_with_str, first_where, is_whitespace, is_whitespace_char, lemma_first_where, lemma_first_where_unique, lowercase_chars, lowercase_of, slice_chars, starts_with_str, string_of, trim_start};
use crate::version::{is_newer_version, version_lt, version_tuple, version_tuple_of};

verus! {

/// A downloadable file attached to a release.
#[derive(Clone, Debug)]
pub struct GithubAsset {
    pub name: String,
    pub browser_download_url: String,
    pub digest: Option<String>,
}

/// The fields of a GitHub release that the updater reads.
#[derive(Clone, Debug)]
pub struct GithubRelease {
    pub tag_name: String,
    pub body: String,
    pub draft: bool,
    pub prerelease: bool,
    pub assets: Vec<GithubAsset>,
}

/// An update that can be downloaded and verified.
#[derive(Clone, Debug)]
pub struct AvailableUpdate {
    pub version: String,
    pub download_url: String,
    pub checksum: String,
    pub notes: String,
}

/// An update whose checksum must first be read from a `.sha256` asset.
pub struct PendingChecksum {
    pub version: String,
    pub download_url: String,
    pub notes: String,
    pub checksum_url: String,
}

/// What the latest release means for the running version.
pub enum ReleaseDecision {
    UpToDate,
    Ready(AvailableUpdate),
    NeedsChecksumFile(PendingChecksum),
}

/// Why an update check or installation could not go on.
pub enum UpdateError {
    NoRepository,
    InvalidCurrentVersion(String),
    InvalidReleaseVersion(String),
    NoWindowsExecutable,
    EmptyChecksumFile,
    NoChecksum,
    ChecksumFileNotText(String),
    ChecksumMismatch,
}

// ---------------------------------------------------------------------------
// Views
// ---------------------------------------------------------------------------

pub struct AssetView {
    pub name: Seq<char>,
    pub url: Seq<char>,
    pub digest: Option<Seq<char>>,
}

pub struct ReleaseView {
    pub tag_name: Seq<char>,
    pub body: Seq<char>,
    pub draft: bool,
    pub prerelease: bool,
    pub assets: Seq<AssetView>,
}

pub struct UpdateView {
    pub version: Seq<char>,
    pub download_url: Seq<char>,
    pub checksum: Seq<char>,
    pub notes: Seq<char>,
}

pub struct PendingView {
    pub version: Seq<char>,
    pub download_url: Seq<char>,
    pub notes: Seq<char>,
    pub checksum_url: Seq<char>,
}

pub enum DecisionView {
    UpToDate,
    Ready(UpdateView),
    NeedsChecksumFile(PendingView),
}

pub enum UpdateErrorView {
    NoRepository,
    InvalidCurrentVersion(Seq<char>),
    InvalidReleaseVersion(Seq<char>),
    NoWindowsExecutable,
    EmptyChecksumFile,
    NoChecksum,
    ChecksumFileNotText(Seq<char>),
    ChecksumMismatch,
}

impl View for GithubAsset {
    type V = AssetView;

    open spec fn view(&self) -> AssetView {
        AssetView {
            name: self.name@,
            url: self.browser_download_url@,
            digest: match self.digest {
                Some(d) => Some(d@),
                None => None,
            },
        }
    }
}

impl View for GithubRelease {
    type V = ReleaseView;

    open spec fn view(&self) -> ReleaseView {
        ReleaseView {
            tag_name: self.tag_name@,
            body: self.body@,
            draft: self.draft,
            prerelease: self.prerelease,
            assets: self.assets@.map_values(|a: GithubAsset| a@),
        }
    }
}

impl View for AvailableUpdate {
    type V = UpdateView;

    open spec fn view(&self) -> UpdateView {
        UpdateView {
            version: self.version@,
            download_url: self.download_url@,
            checksum: self.checksum@,
            notes: self.notes@,
        }
    }
}

impl View for PendingChecksum {
    type V = PendingView;

    open spec fn view(&self) -> PendingView {
        PendingView {
            version: self.version@,
            download_url: self.download_url@,
            notes: self.notes@,
            checksum_url: self.checksum_url@,
        }
    }
}

impl View for ReleaseDecision {
    type V = DecisionView;

    open spec fn view(&self) -> DecisionView {
        match self {
            ReleaseDecision::UpToDate => DecisionView::UpToDate,
            ReleaseDecision::Ready(u) => DecisionView::Ready(u@),
            ReleaseDecision::NeedsChecksumFile(p) => DecisionView::NeedsChecksumFile(p@),
        }
    }
}

impl View for UpdateError {
    type V = UpdateErrorView;

    open spec fn view(&self) -> UpdateErrorView {
        match self {
            UpdateError::NoRepository => UpdateErrorView::NoRepository,
            UpdateError::InvalidCurrentVersion(v) => UpdateErrorView::InvalidCurrentVersion(v@),
            UpdateError::InvalidReleaseVersion(v) => UpdateErrorView::InvalidReleaseVersion(v@),
            UpdateError::NoWindowsExecutable => UpdateErrorView::NoWindowsExecutable,
            UpdateError::EmptyChecksumFile => UpdateErrorView::EmptyChecksumFile,
            UpdateError::NoChecksum => UpdateErrorView::NoChecksum,
            UpdateError::ChecksumFileNotText(e) => UpdateErrorView::ChecksumFileNotText(e@),
            UpdateError::ChecksumMismatch => UpdateErrorView::ChecksumMismatch,
        }
    }
}

/// The view of a `Result` whose parts have views.
pub open spec fn result_view<T: View, E: View>(r: Result<T, E>) -> Result<T::V, E::V> {
    match r {
        Ok(t) => Ok(t@),
        Err(e) => Err(e@),
    }
}

// ---------------------------------------------------------------------------
// Specification
// ---------------------------------------------------------------------------

pub open spec fn windows_suffix() -> Seq<char> {
    "-windows-x86_64.exe"@
}

/// The portable executable that the release for `tag` should carry.
pub open spec fn expected_executable_name(tag: Seq<char>) -> Seq<char> {
    "EmulatorHub-"@ + tag + windows_suffix()
}

pub open spec fn named(name: Seq<char>) -> spec_fn(AssetView) -> bool {
    |a: AssetView| a.name == name
}

pub open spec fn is_windows_executable() -> spec_fn(AssetView) -> bool {
    |a: AssetView| windows_suffix().is_suffix_of(a.name)
}

/// Index of the executable to install: the expected name first, otherwise
/// the first asset whose name ends with the Windows suffix.
pub open spec fn executable_index(r: ReleaseView) -> int {
    let exact = first_where(r.assets, named(expected_executable_name(r.tag_name)));
    if exact < r.assets.len() {
        exact
    } else {
        first_where(r.assets, is_windows_executable())
    }
}

/// `digest.strip_prefix("sha256:").unwrap_or(digest)`.
pub open spec fn without_sha256_prefix(d: Seq<char>) -> Seq<char> {
    if "sha256:"@.is_prefix_of(d) {
        d.subrange(7, d.len() as int)
    } else {
        d
    }
}

/// The decision that `evaluate_release` makes.
pub open spec fn release_decision(r: ReleaseView, current: Seq<char>) -> Result<
    DecisionView,
    UpdateErrorView,
> {
    if r.draft || r.prerelease {
        Ok(DecisionView::UpToDate)
    } else if version_tuple_of(current) is None {
        Err(UpdateErrorView::InvalidCurrentVersion(current))
    } else if version_tuple_of(r.tag_name) is None {
        Err(UpdateErrorView::InvalidReleaseVersion(r.tag_name))
    } else if !version_lt(version_tuple_of(current).unwrap(), version_tuple_of(r.tag_name).unwrap()) {
        Ok(DecisionView::UpToDate)
    } else {
        let e = executable_index(r);
        if e >= r.assets.len() {
            Err(UpdateErrorView::NoWindowsExecutable)
        } else {
            let exe = r.assets[e];
            let k = first_where(r.assets, named(exe.name + ".sha256"@));
            if k < r.assets.len() {
                Ok(
                    DecisionView::NeedsChecksumFile(
                        PendingView {
                            version: r.tag_name,
                            download_url: exe.url,
                            notes: r.body,
                            checksum_url: r.assets[k].url,
                        },
                    ),
                )
            } else {
                match exe.digest {
                    Some(d) => Ok(
                        DecisionView::Ready(
                            UpdateView {
                                version: r.tag_name,
                                download_url: exe.url,
                                checksum: lowercase_of(without_sha256_prefix(d)),
                                notes: r.body,
                            },
                        ),
                    ),
                    None => Err(UpdateErrorView::NoChecksum),
                }
            }
        }
    }
}

/// The first whitespace-separated word of a text, if any.
pub open spec fn first_word(s: Seq<char>) -> Option<Seq<char>> {
    let t = trim_start(s);
    if t.len() == 0 {
        None
    } else {
        Some(t.subrange(0, first_where(t, |c: char| is_whitespace(c))))
    }
}

/// The checksum that a `.sha256` file gives: its first word, lower-cased.
pub open spec fn checksum_from_file_spec(bytes: Seq<u8>) -> Result<Seq<char>, UpdateErrorView> {
    if !valid_utf8(bytes) {
        Err(UpdateErrorView::ChecksumFileNotText(utf8_error_text(bytes)))
    } else {
        match first_word(decode_utf8(bytes)) {
            Some(w) => Ok(lowercase_of(w)),
            None => Err(UpdateErrorView::EmptyChecksumFile),
        }
    }
}

// ---------------------------------------------------------------------------
// Implementation
// ---------------------------------------------------------------------------

/// The display text of the `FromUtf8Error` that `String::from_utf8` gives
/// for bytes that are not UTF-8 (it tells where the bytes stop being valid).
pub uninterp spec fn utf8_error_text(bytes: Seq<u8>) -> Seq<char>;

/// `String::from_utf8`.
///
/// Trusted: the conversion succeeds exactly on valid UTF-8 and then yields the
/// decoded characters; on failure the error's display text is returned, which
/// depends on the bytes alone (named `utf8_error_text`).
#[verifier::external_body]
fn string_from_utf8(bytes: Vec<u8>) -> (r: Result<String, String>)
    ensures
        r is Ok <==> valid_utf8(bytes@),
        r matches Ok(s) ==> s@ == decode_utf8(bytes@),
        r matches Err(e) ==> e@ == utf8_error_text(bytes@),
{
    match String::from_utf8(bytes) {
        Ok(s) => Ok(s),
        Err(e) => Err(e.to_string()),
    }
}

fn copy_string(s: &String) -> (r: String)
    ensures
        r@ == s@,
{
    s.clone()
}

/// The repository to query, when the build names one that is not the
/// placeholder.
pub fn configured_repository(value: Option<&str>) -> (r: Option<String>)
    ensures
        match value {
            Some(v) => if v@.len() > 0 && !contains(v@, "OWNER/REPOSITORY"@) {
                r matches Some(s) && s@ == v@
            } else {
                r is None
            },
            None => r is None,
        },
{
    match value {
        Some(v) => {
            let chars = chars_of(v);
            if chars.len() > 0 && !contains_str(&chars, "OWNER/REPOSITORY") {
                Some(string_of(&chars))
            } else {
                None
            }
        },
        None => None,
    }
}

/// The GitHub API address of the latest release of `repository`.
pub fn latest_release_endpoint(repository: &str) -> (r: String)
    ensures
        r@ == "https://api.github.com/repos/"@ + repository@ + "/releases/latest"@,
{
    let prefix = chars_of("https://api.github.com/repos/");
    let repo = chars_of(repository);
    let a = concat(&prefix, &repo);
    let b = concat_str(&a, "/releases/latest");
    string_of(&b)
}

/// Index of the first asset named exactly `name`, or the number of assets.
fn find_asset_named(assets: &Vec<GithubAsset>, name: &Vec<char>) -> (i: usize)
    ensures
        i == first_where(assets@.map_values(|a: GithubAsset| a@), named(name@)),
{
    let ghost views = assets@.map_values(|a: GithubAsset| a@);
    let mut i: usize = 0;
    while i < assets.len()
        invariant
            i <= assets.len(),
            views == assets@.map_values(|a: GithubAsset| a@),
            forall|k: int| 0 <= k < i ==> !named(name@)(#[trigger] views[k]),
        decreases assets.len() - i,
    {
        let candidate = chars_of(assets[i].name.as_str());
        if candidate.len() == name.len() && slices_equal(&candidate, name) {
            proof {
                lemma_first_where_unique(views, named(name@), i as int);
            }
            return i;
        }
        i = i + 1;
    }
    proof {
        lemma_first_where_unique(views, named(name@), i as int);
    }
    i
}

/// Index of the first asset whose name ends with the Windows suffix.
fn find_windows_executable(assets: &Vec<GithubAsset>) -> (i: usize)
    ensures
        i == first_where(assets@.map_values(|a: GithubAsset| a@), is_windows_executable()),
{
    let ghost views = assets@.map_values(|a: GithubAsset| a@);
    let mut i: usize = 0;
    while i < assets.len()
        invariant
            i <= assets.len(),
            views == assets@.map_values(|a: GithubAsset| a@),
            forall|k: int| 0 <= k < i ==> !is_windows_executable()(#[trigger] views[k]),
        decreases assets.len() - i,
    {
        let candidate = chars_of(assets[i].name.as_str());
        if ends_with_str(&candidate, "-windows-x86_64.exe") {
            proof {
                lemma_first_where_unique(views, is_windows_executable(), i as int);
            }
            return i;
        }
        i = i + 1;
    }
    proof {
        lemma_first_where_unique(views, is_windows_executable(), i as int);
    }
    i
}

fn slices_equal(a: &Vec<char>, b: &Vec<char>) -> (r: bool)
    ensures
        r == (a@ == b@),
{
    if a.len() != b.len() {
        return false;
    }
    let mut i: usize = 0;
    while i < a.len()
        invariant
            a.len() == b.len(),
            i <= a.len(),
            forall|k: int| 0 <= k < i ==> a@[k] == b@[k],
        decreases a.len() - i,
    {
        if a[i] != b[i] {
            return false;
        }
        i = i + 1;
    }
    proof {
        assert(a@ =~= b@);
    }
    true
}

/// Decides what the latest release means for the running `current_version`.
pub fn evaluate_release(release: &GithubRelease, current_version: &str) -> (r: Result<
    ReleaseDecision,
    UpdateError,
>)
    ensures
        result_view(r) == release_decision(release@, current_version@),
{
    let ghost rv = release@;
    if release.draft || release.prerelease {
        return Ok(ReleaseDecision::UpToDate);
    }
    let current = match version_tuple(current_version) {
        Some(v) => v,
        None => {
            let chars = chars_of(current_version);
            return Err(UpdateError::InvalidCurrentVersion(string_of(&chars)));
        },
    };
    let remote = match version_tuple(release.tag_name.as_str()) {
        Some(v) => v,
        None => return Err(UpdateError::InvalidReleaseVersion(copy_string(&release.tag_name))),
    };
    if !is_newer_version(remote, current) {
        return Ok(ReleaseDecision::UpToDate);
    }
    let tag = chars_of(release.tag_name.as_str());
    let expected_a = concat(&chars_of("EmulatorHub-"), &tag);
    let expected = concat_str(&expected_a, "-windows-x86_64.exe");
    let exact = find_asset_named(&release.assets, &expected);
    let e = if exact < release.assets.len() {
        exact
    } else {
        find_windows_executable(&release.assets)
    };
    proof {
        assert(rv.assets == release.assets@.map_values(|a: GithubAsset| a@));
        lemma_first_where(rv.assets, is_windows_executable());
        assert(e == executable_index(rv));
    }
    if e >= release.assets.len() {
        return Err(UpdateError::NoWindowsExecutable);
    }
    let exe = &release.assets[e];
    let exe_name = chars_of(exe.name.as_str());
    let checksum_name = concat_str(&exe_name, ".sha256");
    let k = find_asset_named(&release.assets, &checksum_name);
    proof {
        assert(rv.assets[e as int] == exe@);
    }
    if k < release.assets.len() {
        proof {
            assert(rv.assets[k as int] == release.assets@[k as int]@);
        }
        return Ok(
            ReleaseDecision::NeedsChecksumFile(
                PendingChecksum {
                    version: copy_string(&release.tag_name),
                    download_url: copy_string(&exe.browser_download_url),
                    notes: copy_string(&release.body),
                    checksum_url: copy_string(&release.assets[k].browser_download_url),
                },
            ),
        );
    }
    match &exe.digest {
        Some(d) => {
            let dv = chars_of(d.as_str());
            proof {
                reveal_strlit("sha256:");
            }
            let stripped = if starts_with_str(&dv, "sha256:") {
                slice_chars(&dv, 7, dv.len())
            } else {
                slice_chars(&dv, 0, dv.len())
            };
            proof {
                assert(dv@.subrange(0, dv@.len() as int) == dv@);
            }
            let checksum = lowercase_chars(&stripped);
            Ok(
                ReleaseDecision::Ready(
                    AvailableUpdate {
                        version: copy_string(&release.tag_name),
                        download_url: copy_string(&exe.browser_download_url),
                        checksum: string_of(&checksum),
                        notes: copy_string(&release.body),
                    },
                ),
            )
        },
        None => Err(UpdateError::NoChecksum),
    }
}

/// The first whitespace-separated word of `v`.
fn first_word_chars(v: &Vec<char>) -> (r: Option<Vec<char>>)
    ensures
        match first_word(v@) {
            Some(w) => r matches Some(x) && x@ == w,
            None => r is None,
        },
{
    let n = v.len();
    let mut i: usize = 0;
    proof {
        assert(v@.subrange(0, n as int) == v@);
    }
    while i < n && is_whitespace_char(v[i])
        invariant
            i <= n == v.len(),
            trim_start(v@) == trim_start(v@.subrange(i as int, n as int)),
        decreases n - i,
    {
        proof {
            let s = v@.subrange(i as int, n as int);
            assert(s.drop_first() == v@.subrange(i + 1, n as int));
        }
        i = i + 1;
    }
    let ghost t = trim_start(v@);
    proof {
        assert(t == v@.subrange(i as int, n as int));
    }
    if i == n {
        return None;
    }
    let mut j: usize = i;
    while j < n && !is_whitespace_char(v[j])
        invariant
            i <= j <= n == v.len(),
            t == v@.subrange(i as int, n as int),
            forall|k: int| 0 <= k < j - i ==> !is_whitespace(#[trigger] t[k]),
        decreases n - j,
    {
        j = j + 1;
    }
    proof {
        lemma_first_where_unique(t, |c: char| is_whitespace(c), j - i);
        assert(t.subrange(0, j - i) == v@.subrange(i as int, j as int));
    }
    Some(slice_chars(v, i, j))
}

/// Reads the checksum from the downloaded contents of a `.sha256` asset.
pub fn checksum_from_file(contents: Vec<u8>) -> (r: Result<String, UpdateError>)
    ensures
        match checksum_from_file_spec(contents@) {
            Ok(c) => r matches Ok(s) && s@ == c,
            Err(e) => r matches Err(x) && x@ == e,
        },
{
    let text = match string_from_utf8(contents) {
        Ok(s) => s,
        Err(message) => return Err(UpdateError::ChecksumFileNotText(message)),
    };
    let chars = chars_of(text.as_str());
    match first_word_chars(&chars) {
        Some(w) => {
            let lower = lowercase_chars(&w);
            Ok(string_of(&lower))
        },
        None => Err(UpdateError::EmptyChecksumFile),
    }
}

/// Completes a pending update with the checksum read from its `.sha256` file.
pub fn finish_with_checksum_file(pending: PendingChecksum, contents: Vec<u8>) -> (r: Result<
    AvailableUpdate,
    UpdateError,
>)
    ensures
        match checksum_from_file_spec(contents@) {
            Ok(c) => r matches Ok(u) && u@ == (UpdateView {
                version: pending@.version,
                download_url: pending@.download_url,
                checksum: c,
                notes: pending@.notes,
            }),
            Err(e) => r matches Err(x) && x@ == e,
        },
{
    let checksum = checksum_from_file(contents)?;
    Ok(
        AvailableUpdate {
            version: pending.version,
            download_url: pending.download_url,
            checksum,
            notes: pending.notes,
        },
    )
}

// ---------------------------------------------------------------------------
// Messages
// ---------------------------------------------------------------------------

impl UpdateError {
    /// The message shown for this error.
    pub fn message(&self) -> (r: String)
        ensures
            match self {
                UpdateError::NoRepository => r@
                    == "This build has no GitHub repository configured for updates."@,
                UpdateError::InvalidCurrentVersion(v) => r@ == "Invalid current version: "@ + v@,
                UpdateError::InvalidReleaseVersion(v) => r@ == "Invalid release version: "@ + v@,
                UpdateError::NoWindowsExecutable => r@
                    == "The latest release has no Windows executable asset."@,
                UpdateError::EmptyChecksumFile => r@ == "The release checksum file is empty."@,
                UpdateError::NoChecksum => r@ == "The latest release has no SHA-256 checksum."@,
                UpdateError::ChecksumFileNotText(e) => r@ == e@,
                UpdateError::ChecksumMismatch => r@
                    == "Downloaded update failed SHA-256 verification."@,
            },
    {
        match self {
            UpdateError::NoRepository => string_of(
                &chars_of("This build has no GitHub repository configured for updates."),
            ),
            UpdateError::InvalidCurrentVersion(v) => string_of(
                &concat(&chars_of("Invalid current version: "), &chars_of(v.as_str())),
            ),
            UpdateError::InvalidReleaseVersion(v) => string_of(
                &concat(&chars_of("Invalid release version: "), &chars_of(v.as_str())),
            ),
            UpdateError::NoWindowsExecutable => string_of(
                &chars_of("The latest release has no Windows executable asset."),
            ),
            UpdateError::EmptyChecksumFile => string_of(
                &chars_of("The release checksum file is empty."),
            ),
            UpdateError::NoChecksum => string_of(
                &chars_of("The latest release has no SHA-256 checksum."),
            ),
            UpdateError::ChecksumFileNotText(e) => string_of(&chars_of(e.as_str())),
            UpdateError::ChecksumMismatch => string_of(
                &chars_of("Downloaded update failed SHA-256 verification."),
            ),
        }
    }
}

// ---------------------------------------------------------------------------
// Replacing the running program
// ---------------------------------------------------------------------------

/// The program started as an update helper is given its own path, the flag,
/// the program to replace and the downloaded file; it returns the last two.
pub fn update_helper_paths(args: &Vec<String>) -> (r: Result<(String, String), String>)
    ensures
        args@.len() == 4 ==> (r matches Ok((target, downloaded)) && target@ == args@[2]@
            && downloaded@ == args@[3]@),
        args@.len() != 4 ==> (r matches Err(m) && m@ == "Invalid update helper arguments."@),
{
    if args.len() != 4 {
        return Err(string_of(&chars_of("Invalid update helper arguments.")));
    }
    Ok((args[2].clone(), args[3].clone()))
}

/// How many times the helper tries to move the old program aside, half a
/// second apart, before giving up.
pub const SWAP_ATTEMPTS: u32 = 120;

/// What the helper does after an attempt to move the old program aside.
pub enum SwapStep {
    /// Move the download into place.
    Install,
    /// Wait half a second and try again.
    Retry,
    /// Give up with this message.
    TimedOut(String),
}

/// The helper's progress: how many attempts have failed so far.
pub struct UpdateSwap {
    failed_attempts: u32,
}

impl UpdateSwap {
    pub closed spec fn failed(&self) -> nat {
        self.failed_attempts as nat
    }

    #[verifier::type_invariant]
    spec fn within_limit(self) -> bool {
        self.failed_attempts < SWAP_ATTEMPTS
    }

    pub fn new() -> (r: UpdateSwap)
        ensures
            r.failed() == 0,
    {
        UpdateSwap { failed_attempts: 0 }
    }

    /// The next step once an attempt has moved the old program aside (or
    /// found none) or has failed to. After the hundred-and-twentieth failure
    /// the helper gives up.
    pub fn after_attempt(self, moved_old: bool) -> (r: (SwapStep, Option<UpdateSwap>))
        ensures
            moved_old ==> r.0 is Install && r.1 is None,
            !moved_old && self.failed() + 1 < SWAP_ATTEMPTS ==> r.0 is Retry && (r.1 matches Some(
                next,
            ) && next.failed() == self.failed() + 1),
            !moved_old && self.failed() + 1 >= SWAP_ATTEMPTS ==> r.1 is None && (r.0 matches SwapStep::TimedOut(m)
                && m@ == "Timed out waiting for Emulator Hub to exit."@),
    {
        proof {
            use_type_invariant(&self);
        }
        if moved_old {
            (SwapStep::Install, None)
        } else if self.failed_attempts + 1 < SWAP_ATTEMPTS {
            (SwapStep::Retry, Some(UpdateSwap { failed_attempts: self.failed_attempts + 1 }))
        } else {
            (
                SwapStep::TimedOut(
                    string_of(&chars_of("Timed out waiting for Emulator Hub to exit.")),
                ),
                None,
            )
        }
    }
}

} // verus!
