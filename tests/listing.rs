use aur_listing::index::{parse_index, split_lines};
use aur_listing::remote::{index_address, list_aur, status_is_success, ListError};
use aur_listing::render::{render_listing, render_record, Style, Theme};
use aur_listing::targets::{list, remote_marker_string};

fn strings(v: &[&str]) -> Vec<String> {
    v.iter().map(|s| s.to_string()).collect()
}

fn bytes(v: &[&str]) -> Vec<Vec<u8>> {
    v.iter().map(|s| s.as_bytes().to_vec()).collect()
}

fn plain() -> Style {
    Style { prefix: Vec::new(), suffix: Vec::new() }
}

fn plain_theme() -> Theme {
    Theme { repo: plain(), pkg: plain(), version: plain(), installed: plain() }
}

fn styled(prefix: &str) -> Style {
    Style { prefix: prefix.as_bytes().to_vec(), suffix: b"</>".to_vec() }
}

fn styled_theme() -> Theme {
    Theme { repo: styled("<r>"), pkg: styled("<p>"), version: styled("<v>"), installed: styled("<i>") }
}

#[test]
fn marker_is_aur() {
    assert_eq!(remote_marker_string(), "aur");
}

#[test]
fn empty_targets_list_every_database_and_remote() {
    let plan = list(&Vec::new(), &strings(&["core", "extra", "multilib"]));
    assert_eq!(plan.local, strings(&["core", "extra", "multilib"]));
    assert!(plan.remote);
}

#[test]
fn empty_targets_without_databases_list_remote_only() {
    let plan = list(&Vec::new(), &Vec::new());
    assert!(plan.local.is_empty());
    assert!(plan.remote);
}

#[test]
fn single_marker_is_removed() {
    let plan = list(&strings(&["core", "aur", "extra"]), &strings(&["core", "extra"]));
    assert_eq!(plan.local, strings(&["core", "extra"]));
    assert_eq!(plan.local.len(), 2);
    assert!(plan.remote);
}

#[test]
fn marker_alone_lists_remote_only() {
    let plan = list(&strings(&["aur"]), &strings(&["core"]));
    assert!(plan.local.is_empty());
    assert!(plan.remote);
}

#[test]
fn repeated_marker_is_removed_everywhere() {
    let plan = list(&strings(&["aur", "core", "aur"]), &strings(&["core"]));
    assert_eq!(plan.local, strings(&["core"]));
    assert!(plan.remote);
}

#[test]
fn targets_without_marker_pass_unchanged() {
    let targets = strings(&["extra", "unknown", "extra"]);
    let plan = list(&targets, &strings(&["core", "extra"]));
    assert_eq!(plan.local, targets);
    assert!(!plan.remote);
}

#[test]
fn index_body_drops_header_and_empty_lines() {
    let records = parse_index(&b"header\nfoo\n\nbar\nbaz\n".to_vec());
    assert_eq!(records, bytes(&["foo", "bar", "baz"]));
}

#[test]
fn index_body_keeps_duplicates_and_last_line_without_feed() {
    let records = parse_index(&b"# header\nb\na\nb".to_vec());
    assert_eq!(records, bytes(&["b", "a", "b"]));
}

#[test]
fn index_body_of_header_only_has_no_records() {
    assert!(parse_index(&b"header\n".to_vec()).is_empty());
    assert!(parse_index(&b"foo".to_vec()).is_empty());
    assert!(parse_index(&Vec::new()).is_empty());
}

#[test]
fn split_lines_counts_every_feed() {
    assert_eq!(split_lines(&Vec::new()), bytes(&[""]));
    assert_eq!(split_lines(&b"a\n\nbc\n".to_vec()), bytes(&["a", "", "bc", ""]));
}

#[test]
fn quiet_rendering_is_bare_names() {
    let out = render_listing(&bytes(&["foo", "bar"]), true, &vec![true, false], &styled_theme());
    assert_eq!(out, b"foo\nbar\n".to_vec());
}

#[test]
fn decorated_rendering_of_installed_package() {
    let out = render_listing(&bytes(&["foo"]), false, &vec![true], &plain_theme());
    assert_eq!(String::from_utf8(out).unwrap(), "aur foo unknown-version [installed]\n");
}

#[test]
fn decorated_rendering_of_missing_package() {
    let out = render_listing(&bytes(&["foo", "bar"]), false, &vec![false, true], &plain_theme());
    assert_eq!(
        String::from_utf8(out).unwrap(),
        "aur foo unknown-version\naur bar unknown-version [installed]\n"
    );
}

#[test]
fn decorated_rendering_paints_each_piece() {
    let mut out = b"x".to_vec();
    render_record(&mut out, &b"foo".to_vec(), false, true, &styled_theme());
    assert_eq!(
        String::from_utf8(out).unwrap(),
        "x<r>aur </><p>foo</><v> unknown-version</><i> [installed]</>\n"
    );
}

#[test]
fn empty_listing_renders_nothing() {
    assert!(render_listing(&Vec::new(), false, &Vec::new(), &styled_theme()).is_empty());
}

#[test]
fn failure_status_gives_error_with_address_and_status() {
    let address = "https://aur.archlinux.org/packages.gz".to_string();
    let r = list_aur(&address, 404, &b"header\nfoo\n".to_vec());
    assert_eq!(r, Err(ListError::HttpStatus { address: address.clone(), status: 404 }));
    for status in [100u16, 199, 300, 301, 500] {
        assert_eq!(
            list_aur(&address, status, &b"header\nfoo\n".to_vec()),
            Err(ListError::HttpStatus { address: address.clone(), status })
        );
    }
}

#[test]
fn success_status_gives_records() {
    let address = "https://aur.archlinux.org/packages.gz".to_string();
    for status in [200u16, 204, 299] {
        assert_eq!(list_aur(&address, status, &b"header\nfoo\n\nbar\n".to_vec()), Ok(bytes(&["foo", "bar"])));
    }
}

#[test]
fn status_success_range() {
    assert!(!status_is_success(199));
    assert!(status_is_success(200));
    assert!(status_is_success(299));
    assert!(!status_is_success(300));
}

#[test]
fn listing_twice_gives_same_bytes() {
    let address = "https://aur.archlinux.org/packages.gz".to_string();
    let body = b"header\nfoo\nbar\n".to_vec();
    let run = || {
        let records = list_aur(&address, 200, &body).unwrap();
        let installed = vec![false; records.len()];
        render_listing(&records, false, &installed, &styled_theme())
    };
    assert_eq!(run(), run());
}

#[test]
fn index_address_joins_file_name() {
    assert_eq!(
        index_address("https://aur.archlinux.org").unwrap(),
        "https://aur.archlinux.org/packages.gz"
    );
    assert_eq!(
        index_address("https://example.com/mirror/").unwrap(),
        "https://example.com/mirror/packages.gz"
    );
}

#[test]
fn index_address_rejects_bad_endpoint() {
    assert_eq!(
        index_address("not a url"),
        Err(ListError::Address { endpoint: "not a url".to_string() })
    );
}
