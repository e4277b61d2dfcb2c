//! TiKV - A distributed key/value database
//!
//! This crate holds the snapshot lifecycle of the store: how a replica that
//! lags behind is brought up to date with a copy of a region's state. It
//! also holds the errors of the cloud services, the interfaces of table
//! files, and the version information of the build.

pub mod cloud;
pub mod snap;
pub mod sst;
pub mod text;

use vstd::prelude::*;
use vstd::string::StringExecFns;
use crate::text::{
    framed_from,
    is_plain,
    lemma_frame_step,
    lemma_framed_lines,
    lemma_plain_add,
    nonempty_lines,
    split_nonempty_lines,
    trim,
    trimmed,
};

verus! {

/// What the build environment says of the build. A field is `None` where
/// the environment said nothing.
#[derive(Clone, Debug, PartialEq, Eq)]
pub struct BuildInfo {
    pub edition: Option<String>,
    pub git_hash: Option<String>,
    pub git_branch: Option<String>,
    pub rustc_version: Option<String>,
    pub enable_features: Option<String>,
    pub profile: Option<String>,
}

pub struct BuildInfoView {
    pub edition: Option<Seq<char>>,
    pub git_hash: Option<Seq<char>>,
    pub git_branch: Option<Seq<char>>,
    pub rustc_version: Option<Seq<char>>,
    pub enable_features: Option<Seq<char>>,
    pub profile: Option<Seq<char>>,
}

/// The text of an optional string.
pub open spec fn text_of(v: Option<String>) -> Option<Seq<char>> {
    match v {
        Some(s) => Some(s@),
        None => None,
    }
}

impl View for BuildInfo {
    type V = BuildInfoView;

    open spec fn view(&self) -> BuildInfoView {
        BuildInfoView {
            edition: text_of(self.edition),
            git_hash: text_of(self.git_hash),
            git_branch: text_of(self.git_branch),
            rustc_version: text_of(self.rustc_version),
            enable_features: text_of(self.enable_features),
            profile: text_of(self.profile),
        }
    }
}

impl BuildInfoView {
    /// The build of which the environment said nothing.
    pub open spec fn unknown() -> BuildInfoView {
        BuildInfoView {
            edition: None,
            git_hash: None,
            git_branch: None,
            rustc_version: None,
            enable_features: None,
            profile: None,
        }
    }
}

impl BuildInfo {
    /// The build of which the environment said nothing.
    pub fn unknown() -> (b: BuildInfo)
        ensures
            b@ == BuildInfoView::unknown(),
    {
        BuildInfo {
            edition: None,
            git_hash: None,
            git_branch: None,
            rustc_version: None,
            enable_features: None,
            profile: None,
        }
    }
}

/// The version of this package.
pub open spec fn build_version() -> Seq<char> {
    "0.1.0"@
}

/// What stands in the place of a value that the environment did not give.
pub open spec fn fallback() -> Seq<char> {
    "Unknown (env var does not exist when building)"@
}

/// A value, or `default` in its place.
pub open spec fn or_text(v: Option<Seq<char>>, default: Seq<char>) -> Seq<char> {
    match v {
        Some(s) => s,
        None => default,
    }
}

/// The text of a build time that may be missing.
pub open spec fn time_text(build_time: Option<&str>) -> Option<Seq<char>> {
    match build_time {
        Some(t) => Some(t@),
        None => None,
    }
}

/// The version information: eight lines, each a label and a value, each
/// line preceded by a line feed.
pub open spec fn version_text(build: BuildInfoView, build_time: Option<Seq<char>>) -> Seq<char> {
    "\nRelease Version:   "@ + build_version() + "\nEdition:           "@ + or_text(
        build.edition,
        "Community"@,
    ) + "\nGit Commit Hash:   "@ + or_text(build.git_hash, fallback())
        + "\nGit Commit Branch: "@ + or_text(build.git_branch, fallback())
        + "\nUTC Build Time:    "@ + or_text(build_time, fallback()) + "\nRust Version:      "@
        + or_text(build.rustc_version, fallback()) + "\nEnable Features:   "@ + trimmed(
        or_text(build.enable_features, fallback()),
    ) + "\nProfile:           "@ + or_text(build.profile, fallback())
}

/// The labels of the version information, in order.
pub open spec fn version_labels() -> Seq<Seq<char>> {
    seq![
        "Release Version:   "@,
        "Edition:           "@,
        "Git Commit Hash:   "@,
        "Git Commit Branch: "@,
        "UTC Build Time:    "@,
        "Rust Version:      "@,
        "Enable Features:   "@,
        "Profile:           "@,
    ]
}

/// The values that the version information shows, in the order of their
/// labels.
pub open spec fn version_values(build: BuildInfoView, build_time: Option<Seq<char>>) -> Seq<
    Seq<char>,
> {
    seq![
        build_version(),
        or_text(build.edition, "Community"@),
        or_text(build.git_hash, fallback()),
        or_text(build.git_branch, fallback()),
        or_text(build_time, fallback()),
        or_text(build.rustc_version, fallback()),
        trimmed(or_text(build.enable_features, fallback())),
        or_text(build.profile, fallback()),
    ]
}

/// The lines of the version information: each a label and its value.
pub open spec fn version_lines(build: BuildInfoView, build_time: Option<Seq<char>>) -> Seq<
    Seq<char>,
> {
    Seq::new(8, |k: int| version_labels()[k] + version_values(build, build_time)[k])
}

/// In the version information a line feed stands before each label.
proof fn lemma_fed_labels()
    ensures
        "\nRelease Version:   "@ == seq!['\n'] + version_labels()[0],
        "\nEdition:           "@ == seq!['\n'] + version_labels()[1],
        "\nGit Commit Hash:   "@ == seq!['\n'] + version_labels()[2],
        "\nGit Commit Branch: "@ == seq!['\n'] + version_labels()[3],
        "\nUTC Build Time:    "@ == seq!['\n'] + version_labels()[4],
        "\nRust Version:      "@ == seq!['\n'] + version_labels()[5],
        "\nEnable Features:   "@ == seq!['\n'] + version_labels()[6],
        "\nProfile:           "@ == seq!['\n'] + version_labels()[7],
{
    reveal_strlit("Release Version:   ");
    reveal_strlit("\nRelease Version:   ");
    reveal_strlit("Edition:           ");
    reveal_strlit("\nEdition:           ");
    reveal_strlit("Git Commit Hash:   ");
    reveal_strlit("\nGit Commit Hash:   ");
    reveal_strlit("Git Commit Branch: ");
    reveal_strlit("\nGit Commit Branch: ");
    reveal_strlit("UTC Build Time:    ");
    reveal_strlit("\nUTC Build Time:    ");
    reveal_strlit("Rust Version:      ");
    reveal_strlit("\nRust Version:      ");
    reveal_strlit("Enable Features:   ");
    reveal_strlit("\nEnable Features:   ");
    reveal_strlit("Profile:           ");
    reveal_strlit("\nProfile:           ");
    assert("\nRelease Version:   "@ =~= seq!['\n'] + "Release Version:   "@);
    assert("\nEdition:           "@ =~= seq!['\n'] + "Edition:           "@);
    assert("\nGit Commit Hash:   "@ =~= seq!['\n'] + "Git Commit Hash:   "@);
    assert("\nGit Commit Branch: "@ =~= seq!['\n'] + "Git Commit Branch: "@);
    assert("\nUTC Build Time:    "@ =~= seq!['\n'] + "UTC Build Time:    "@);
    assert("\nRust Version:      "@ =~= seq!['\n'] + "Rust Version:      "@);
    assert("\nEnable Features:   "@ =~= seq!['\n'] + "Enable Features:   "@);
    assert("\nProfile:           "@ =~= seq!['\n'] + "Profile:           "@);
}

/// Every label is a plain text that is not empty.
proof fn lemma_plain_labels()
    ensures
        forall|k: int|
            0 <= k < 8 ==> is_plain(#[trigger] version_labels()[k]) && version_labels()[k].len()
                > 0,
{
    reveal_strlit("Release Version:   ");
    reveal_strlit("Edition:           ");
    reveal_strlit("Git Commit Hash:   ");
    reveal_strlit("Git Commit Branch: ");
    reveal_strlit("UTC Build Time:    ");
    reveal_strlit("Rust Version:      ");
    reveal_strlit("Enable Features:   ");
    reveal_strlit("Profile:           ");
}

/// The version information is its lines, each behind a line feed.
proof fn lemma_version_text_is_framed(build: BuildInfoView, build_time: Option<Seq<char>>)
    ensures
        version_text(build, build_time) == framed_from(version_lines(build, build_time), 0),
{
    let v = version_values(build, build_time);
    let l = version_labels();
    let items = version_lines(build, build_time);
    lemma_fed_labels();
    let x0 = "\nRelease Version:   "@ + v[0];
    let x1 = x0 + "\nEdition:           "@ + v[1];
    let x2 = x1 + "\nGit Commit Hash:   "@ + v[2];
    let x3 = x2 + "\nGit Commit Branch: "@ + v[3];
    let x4 = x3 + "\nUTC Build Time:    "@ + v[4];
    let x5 = x4 + "\nRust Version:      "@ + v[5];
    let x6 = x5 + "\nEnable Features:   "@ + v[6];
    let x7 = x6 + "\nProfile:           "@ + v[7];
    assert(x7 == version_text(build, build_time));
    assert(framed_from(items, 8) == Seq::<char>::empty());
    assert(x7 + framed_from(items, 8) =~= x7);
    assert(x7 + framed_from(items, 8) == x6 + framed_from(items, 7)) by {
        lemma_frame_step(x6, "\nProfile:           "@, l[7], v[7], framed_from(items, 8));
    }
    assert(x6 + framed_from(items, 7) == x5 + framed_from(items, 6)) by {
        lemma_frame_step(x5, "\nEnable Features:   "@, l[6], v[6], framed_from(items, 7));
    }
    assert(x5 + framed_from(items, 6) == x4 + framed_from(items, 5)) by {
        lemma_frame_step(x4, "\nRust Version:      "@, l[5], v[5], framed_from(items, 6));
    }
    assert(x4 + framed_from(items, 5) == x3 + framed_from(items, 4)) by {
        lemma_frame_step(x3, "\nUTC Build Time:    "@, l[4], v[4], framed_from(items, 5));
    }
    assert(x3 + framed_from(items, 4) == x2 + framed_from(items, 3)) by {
        lemma_frame_step(x2, "\nGit Commit Branch: "@, l[3], v[3], framed_from(items, 4));
    }
    assert(x2 + framed_from(items, 3) == x1 + framed_from(items, 2)) by {
        lemma_frame_step(x1, "\nGit Commit Hash:   "@, l[2], v[2], framed_from(items, 3));
    }
    assert(x1 + framed_from(items, 2) == x0 + framed_from(items, 1)) by {
        lemma_frame_step(x0, "\nEdition:           "@, l[1], v[1], framed_from(items, 2));
    }
    assert(x0 + framed_from(items, 1) == framed_from(items, 0)) by {
        lemma_frame_step(Seq::empty(), "\nRelease Version:   "@, l[0], v[0], framed_from(items, 1));
    }
}

/// The version information has eight lines, one for each label and in the
/// order of the labels, each made of the label and its value, as long as no
/// value holds a line feed or a carriage return. Its text begins with a
/// line feed, so the line before the first label is empty.
pub proof fn law_version_text_has_eight_lines(build: BuildInfoView, build_time: Option<Seq<char>>)
    requires
        forall|k: int| 0 <= k < 8 ==> is_plain(#[trigger] version_values(build, build_time)[k]),
    ensures
        nonempty_lines(version_text(build, build_time)) == version_lines(build, build_time),
        version_lines(build, build_time).len() == 8,
{
    let items = version_lines(build, build_time);
    lemma_plain_labels();
    lemma_version_text_is_framed(build, build_time);
    assert forall|j: int| 0 <= j < items.len() implies is_plain(#[trigger] items[j])
        && items[j].len() > 0 by {
        lemma_plain_add(version_labels()[j], version_values(build, build_time)[j]);
    }
    lemma_framed_lines(items, 0);
    assert(items.skip(0) =~= items);
}

/// The version information of a build of which the environment said
/// nothing has its eight lines whatever the build time is, as long as that
/// is a plain text. It depends on the build time alone.
pub proof fn law_unknown_build_has_eight_lines(build_time: Option<Seq<char>>)
    requires
        build_time matches Some(t) ==> is_plain(t),
    ensures
        nonempty_lines(version_text(BuildInfoView::unknown(), build_time)) == version_lines(
            BuildInfoView::unknown(),
            build_time,
        ),
        version_lines(BuildInfoView::unknown(), build_time).len() == 8,
        version_lines(BuildInfoView::unknown(), build_time)[4] == "UTC Build Time:    "@ + or_text(
            build_time,
            fallback(),
        ),
{
    reveal_strlit("0.1.0");
    reveal_strlit("Community");
    reveal_strlit("Unknown (env var does not exist when building)");
    assert(trimmed(fallback()) == fallback());
    law_version_text_has_eight_lines(BuildInfoView::unknown(), build_time);
}

fn or_default<'a>(v: &'a Option<String>, default: &'a str) -> (r: &'a str)
    ensures
        r@ == or_text(text_of(*v), default@),
{
    match v {
        Some(s) => s.as_str(),
        None => default,
    }
}

/// return the build version of tikv-server
pub fn tikv_build_version() -> (v: String)
    ensures
        v@ == build_version(),
{
    String::from_str("0.1.0")
}

/// Returns the version information of the build that `build` describes.
pub fn version_info(build: &BuildInfo, build_time: Option<&str>) -> (info: String)
    ensures
        info@ == version_text(build@, time_text(build_time)),
{
    let unknown = "Unknown (env var does not exist when building)";
    let time: &str = match build_time {
        Some(t) => t,
        None => unknown,
    };
    let mut info = String::from_str("\nRelease Version:   ");
    info.append(tikv_build_version().as_str());
    info.append("\nEdition:           ");
    info.append(or_default(&build.edition, "Community"));
    info.append("\nGit Commit Hash:   ");
    info.append(or_default(&build.git_hash, unknown));
    info.append("\nGit Commit Branch: ");
    info.append(or_default(&build.git_branch, unknown));
    info.append("\nUTC Build Time:    ");
    info.append(time);
    info.append("\nRust Version:      ");
    info.append(or_default(&build.rustc_version, unknown));
    info.append("\nEnable Features:   ");
    info.append(trim(or_default(&build.enable_features, unknown)));
    info.append("\nProfile:           ");
    info.append(or_default(&build.profile, unknown));
    info
}

/// Returns the tikv version information.
///
/// This is the information of a build of which the environment said
/// nothing; `version_info` takes what the environment said.
pub fn tikv_version_info(build_time: Option<&str>) -> (info: String)
    ensures
        info@ == version_text(BuildInfoView::unknown(), time_text(build_time)),
{
    version_info(&BuildInfo::unknown(), build_time)
}

/// The texts of a list of strings.
pub open spec fn texts(lines: Seq<String>) -> Seq<Seq<char>> {
    lines.map_values(|l: String| l@)
}

/// The lines that announce the build `build`: a welcome, then the lines of
/// its version information that are not empty.
pub fn info_lines(build: &BuildInfo, build_time: Option<&str>) -> (lines: Vec<String>)
    ensures
        texts(lines@) == seq!["Welcome to TiKV"@] + nonempty_lines(
            version_text(build@, time_text(build_time)),
        ),
{
    let info = version_info(build, build_time);
    let mut lines: Vec<String> = Vec::new();
    lines.push(String::from_str("Welcome to TiKV"));
    let mut rest = split_nonempty_lines(info.as_str());
    assert(texts(lines@) =~= seq!["Welcome to TiKV"@]);
    let ghost head = lines@;
    let ghost tail = rest@;
    lines.append(&mut rest);
    assert(texts(lines@) =~= texts(head) + texts(tail));
    lines
}

/// The lines with which the tikv version information is announced: the
/// caller writes each of them to the log.
pub fn log_tikv_info(build_time: Option<&str>) -> (lines: Vec<String>)
    ensures
        texts(lines@) == seq!["Welcome to TiKV"@] + nonempty_lines(
            version_text(BuildInfoView::unknown(), time_text(build_time)),
        ),
{
    info_lines(&BuildInfo::unknown(), build_time)
}

} // verus!
