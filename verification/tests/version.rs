use tikv_snap::text::{is_white_space, split_nonempty_lines, trim};
use tikv_snap::{
    info_lines, log_tikv_info, tikv_build_version, tikv_version_info, version_info, BuildInfo,
};

const FALLBACK: &str = "Unknown (env var does not exist when building)";

#[test]
fn build_version() {
    assert_eq!(tikv_build_version(), "0.1.0");
}

#[test]
fn version_info_without_environment() {
    let info = tikv_version_info(Some("2024-01-01 00:00:00"));
    let expected = format!(
        "\nRelease Version:   0.1.0\
         \nEdition:           Community\
         \nGit Commit Hash:   {f}\
         \nGit Commit Branch: {f}\
         \nUTC Build Time:    2024-01-01 00:00:00\
         \nRust Version:      {f}\
         \nEnable Features:   {f}\
         \nProfile:           {f}",
        f = FALLBACK
    );
    assert_eq!(info, expected);
    let unknown_time = tikv_version_info(None);
    assert!(unknown_time.contains(&format!("\nUTC Build Time:    {}\n", FALLBACK)));
}

#[test]
fn version_info_with_environment() {
    let build = BuildInfo {
        edition: Some("Enterprise".to_string()),
        git_hash: Some("abc123".to_string()),
        git_branch: Some("master".to_string()),
        rustc_version: Some("rustc 1.77".to_string()),
        enable_features: Some("  jemalloc portable \n".to_string()),
        profile: Some("release".to_string()),
    };
    assert_eq!(
        version_info(&build, Some("now")),
        "\nRelease Version:   0.1.0\
         \nEdition:           Enterprise\
         \nGit Commit Hash:   abc123\
         \nGit Commit Branch: master\
         \nUTC Build Time:    now\
         \nRust Version:      rustc 1.77\
         \nEnable Features:   jemalloc portable\
         \nProfile:           release"
    );
    assert_eq!(version_info(&BuildInfo::unknown(), None), tikv_version_info(None));
}

#[test]
fn log_lines() {
    let lines = log_tikv_info(Some("t"));
    assert_eq!(lines.len(), 9);
    assert_eq!(lines[0], "Welcome to TiKV");
    assert_eq!(lines[1], "Release Version:   0.1.0");
    assert_eq!(lines[2], "Edition:           Community");
    assert_eq!(lines[5], "UTC Build Time:    t");
    assert_eq!(lines[8], format!("Profile:           {}", FALLBACK));
    // a value with line breaks in it gives more lines; empty ones are left out
    let mut build = BuildInfo::unknown();
    build.git_branch = Some("a\r\n\r\nb\n".to_string());
    let lines = info_lines(&build, None);
    assert_eq!(lines.len(), 10);
    assert_eq!(lines[4], "Git Commit Branch: a");
    assert_eq!(lines[5], "b");
}

#[test]
fn trim_agrees_with_std() {
    for s in [
        "", " ", "a", "  a b  ", "\t\n x\r\n", "\u{a0}x\u{3000}", "\u{2003}\u{85}", "x\u{200b}",
        "\u{1680}y\u{202f}\u{205f}\u{2028}\u{2029}", "\u{b}\u{c}z", "\u{1c}q",
    ] {
        assert_eq!(trim(s), s.trim(), "{:?}", s);
    }
    for c in ['\u{0}', ' ', '\t', 'a', '\u{85}', '\u{a0}', '\u{200a}', '\u{200b}', '\u{feff}'] {
        assert_eq!(is_white_space(c), c.is_whitespace(), "{:?}", c);
    }
}

#[test]
fn lines_agree_with_std() {
    for s in [
        "", "\n", "a", "a\n", "a\nb", "a\r\nb\r\n", "\n\na\n\n", "a\rb\n", "a\r", "\r\n", "\r",
        "x\r\r\ny", "\u{e9}\n\u{4e2d}",
    ] {
        let expected: Vec<String> =
            s.lines().filter(|l| !l.is_empty()).map(|l| l.to_string()).collect();
        assert_eq!(split_nonempty_lines(s), expected, "{:?}", s);
    }
}
