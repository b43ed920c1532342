use toolchain_finder::date::Date;
use toolchain_finder::manifest::{
    body, dist_host, dist_path, request, u8_from_str, version_from_str, BodyError, Manifest,
    PackageInfo, Rename,
};
use toolchain_finder::table::Table;
use toolchain_finder::text::print_vec;
use toolchain_finder::version::{Channel, ParseError};

#[test]
fn test_body() {
    let response = b"HTTP/2.0 200 OK\r\nx-amz-bucket-region: us-west-1\r\nserver: AmazonS3\r\nx-cache: Miss from cloudfront\r\n\r\ntest message";
    assert_eq!(body(response), Ok("test message"));
    let response = b"\r\n\r\ntest message";
    assert_eq!(body(response), Ok("test message"));
    let response = b"\r\n\r\ntest message\r\n\r\ntest message";
    assert_eq!(body(response), Ok("test message\r\n\r\ntest message"));
}

#[test]
fn test_printvec() {
    let test_vec = vec!["a".to_string(), "b".to_string(), "c".to_string()];
    assert_eq!(print_vec(&test_vec, ""), "abc");
    assert_eq!(print_vec(&test_vec, ","), "a,b,c");
    assert_eq!(print_vec(&test_vec, " , "), "a , b , c");
}

#[test]
fn print_vec_edges() {
    let none: Vec<String> = Vec::new();
    assert_eq!(print_vec(&none, ", "), "");
    assert_eq!(print_vec(&["only".to_string()], ", "), "only");
    assert_eq!(print_vec(&["".to_string(), "".to_string()], "-"), "-");
}

#[test]
fn body_errors() {
    assert_eq!(body(b""), Err(BodyError::NoBody));
    assert_eq!(body(b"\r\n\r"), Err(BodyError::NoBody));
    assert_eq!(body(b"HTTP/1.0 200 OK\r\nno blank line"), Err(BodyError::NoBody));
    assert_eq!(body(b"\r\n\r\n"), Ok(""));
    assert_eq!(body(b"\r\r\n\r\nx"), Ok("x"));
    assert_eq!(body(b"a\r\n\r\n\xff\xfe"), Err(BodyError::NotText));
    assert_eq!(body(b"a\r\n\r\n\xc3"), Err(BodyError::NotText));
    assert_eq!(body("a\r\n\r\nh\u{e9}llo".as_bytes()), Ok("h\u{e9}llo"));
    assert_eq!(BodyError::NoBody.message(), "Not search pattern");
}

#[test]
fn format_versions() {
    assert_eq!(u8_from_str("2"), Some(2));
    assert_eq!(u8_from_str("+2"), Some(2));
    assert_eq!(u8_from_str("007"), Some(7));
    assert_eq!(u8_from_str("255"), Some(255));
    assert_eq!(u8_from_str("0"), Some(0));
    assert_eq!(u8_from_str("256"), None);
    assert_eq!(u8_from_str("99999999999999999999"), None);
    assert_eq!(u8_from_str(""), None);
    assert_eq!(u8_from_str("+"), None);
    assert_eq!(u8_from_str("-1"), None);
    assert_eq!(u8_from_str("2a"), None);
    assert_eq!(u8_from_str("300x"), None);
    assert_eq!(u8_from_str(" 2"), None);
    for n in 0..=255u8 {
        assert_eq!(u8_from_str(&n.to_string()), u8::from_str_radix(&n.to_string(), 10).ok());
    }
}

#[test]
fn package_version_fields() {
    assert_eq!(version_from_str(""), Ok(None));
    let v = version_from_str("1.33.0-nightly (9eac38634 2018-12-31)").unwrap().unwrap();
    assert_eq!(v.channel, Channel::Nightly);
    assert_eq!(v.version, "1.33.0");
    assert_eq!(version_from_str("1.33.0-beta.5 (9eac38634 2018-12-31)"), Err(ParseError::Channel));
    assert_eq!(version_from_str(" "), Err(ParseError::Number));
}

#[test]
fn paths_and_requests() {
    assert_eq!(dist_path("2019-01-01", "nightly"), "/dist/2019-01-01/channel-rust-nightly.toml");
    assert_eq!(dist_host(), "static.rust-lang.org");
    assert_eq!(
        request("/dist/2019-01-01/channel-rust-nightly.toml"),
        "GET /dist/2019-01-01/channel-rust-nightly.toml HTTP/1.0\r\nHost: static.rust-lang.org\r\n\r\n"
    );
}

fn offers(entries: &[(&str, bool)]) -> Table<PackageInfo> {
    let mut table = Table::new();
    for (target, available) in entries {
        table.insert(target.to_string(), PackageInfo::new(*available));
    }
    table
}

fn new_year() -> Manifest {
    let mut m = Manifest::new(2, Date::parse("2019-01-01").unwrap());
    m.add_package(
        "rust".to_string(),
        "1.33.0-nightly (9eac38634 2018-12-31)",
        offers(&[("x86_64-pc-windows-gnu", true), ("x86_64-unknown-redox", false)]),
    )
    .unwrap();
    m.add_package(
        "rls-preview".to_string(),
        "1.31.6 (ae0d89a08 2018-12-31)",
        offers(&[("x86_64-pc-windows-gnu", true)]),
    )
    .unwrap();
    m.add_package("rust-src".to_string(), "1.33.0-nightly (9eac38634 2018-12-31)", offers(&[("*", true)]))
        .unwrap();
    m.add_package("rust-docs".to_string(), "", offers(&[("*", false)])).unwrap();
    m.add_rename("rls".to_string(), "rls-preview".to_string());
    m
}

#[test]
fn rename_resolution() {
    let m = new_year();
    assert_eq!(m.renames.get("rls"), Some(&Rename { to: "rls-preview".to_string() }));
    let info = m.resolve("rls", "x86_64-pc-windows-gnu").unwrap();
    assert!(info.available);
    assert!(!m.is_missing("rls", "x86_64-pc-windows-gnu"));
    assert!(m.pkg_for_target("rls", "x86_64-pc-windows-gnu").is_none());
    assert!(m.is_missing("rls", "x86_64-unknown-redox"));
}

#[test]
fn wildcard_fallback() {
    let m = new_year();
    let sources = m.pkg.get("rust-src").unwrap();
    assert!(sources.target.get("x86_64-pc-windows-gnu").is_none());
    assert!(sources.target.get("*").is_some());
    assert_eq!(sources.target.get("*").unwrap().available, true);
    assert_eq!(m.pkg_for_target("rust-src", "x86_64-pc-windows-gnu").unwrap().available, true);
    for target in ["x86_64-pc-windows-gnu", "", "*", "any thing"] {
        assert_eq!(m.resolve("rust-src", target), Some(PackageInfo::new(true)));
        assert!(!m.is_missing("rust-src", target));
    }
}

#[test]
fn missing_means_unresolved_or_unavailable() {
    let m = new_year();
    assert!(m.is_missing("clippy", "x86_64-pc-windows-gnu"));
    assert!(m.is_missing("rust", "x86_64-unknown-redox"));
    assert!(m.is_missing("rust", "wasm32"));
    assert!(m.is_missing("rust-docs", "x86_64-pc-windows-gnu"));
    assert!(!m.is_missing("rust", "x86_64-pc-windows-gnu"));
}

#[test]
fn package_versions() {
    let m = new_year();
    assert_eq!(m.manifest_version, 2u8);
    assert_eq!(m.date.to_text(), "2019-01-01");
    let rust = m.pkg_version("rust").unwrap();
    assert_eq!(rust.channel, Channel::Nightly);
    assert_eq!(rust.version, "1.33.0");
    assert_eq!(rust.commit.hash, "9eac38634");
    assert_eq!(rust.commit.date.to_text(), "2018-12-31");
    assert!(m.pkg_version("rust-docs").is_none());
    assert!(m.pkg_version("clippy").is_none());
    assert!(m.pkg_version("rls").is_none());
}

#[test]
fn malformed_package_is_left_out() {
    let mut m = new_year();
    let r = m.add_package("cargo".to_string(), "0.34.0-beta.5 (x 2018-12-31)", offers(&[("*", true)]));
    assert_eq!(r, Err(ParseError::Channel));
    assert!(m.pkg.get("cargo").is_none());
    assert!(m.is_missing("cargo", "x86_64-pc-windows-gnu"));
}

#[test]
fn tables_hold_one_value_per_key() {
    let mut t: Table<PackageInfo> = Table::new();
    assert!(t.get("a").is_none());
    assert!(!t.contains_key("a"));
    t.insert("a".to_string(), PackageInfo::new(false));
    t.insert("b".to_string(), PackageInfo::new(false));
    t.insert("a".to_string(), PackageInfo::new(true));
    assert_eq!(t.get("a"), Some(&PackageInfo::new(true)));
    assert_eq!(t.get("b"), Some(&PackageInfo::new(false)));
    assert!(t.contains_key("b"));
    assert!(t.get("").is_none());
}

#[test]
fn package_info_equality_reads_every_field() {
    let a = PackageInfo::new(true);
    let mut b = a.clone();
    assert!(a == b);
    b.xz_hash = Some("x".to_string());
    assert!(a != b);
    let c = b.clone();
    assert!(b == c);
    b.url = Some("u".to_string());
    assert!(b != c);
    assert!(PackageInfo::new(true) != PackageInfo::new(false));
}

#[test]
fn descriptors_are_equal_whatever_the_order_and_the_hashes() {
    let a = new_year();
    let mut b = Manifest::new(2, Date::parse("2019-01-01").unwrap());
    b.add_rename("rls".to_string(), "rls-preview".to_string());
    b.add_package("rust-docs".to_string(), "", offers(&[("*", false)])).unwrap();
    b.add_package("rust-src".to_string(), "1.33.0-nightly (000000000 2018-12-31)", offers(&[("*", true)]))
        .unwrap();
    b.add_package(
        "rls-preview".to_string(),
        "1.31.6 (ae0d89a08 2018-12-31)",
        offers(&[("x86_64-pc-windows-gnu", true)]),
    )
    .unwrap();
    b.add_package(
        "rust".to_string(),
        "1.33.0-nightly (9eac38634 2018-12-31)",
        offers(&[("x86_64-unknown-redox", false), ("x86_64-pc-windows-gnu", true)]),
    )
    .unwrap();
    assert!(a == b);
    assert!(b == a);
    assert!(a == new_year());
}

#[test]
fn descriptors_differ_by_any_part() {
    let a = new_year();
    let mut other_version = new_year();
    other_version.manifest_version = 3;
    assert!(a != other_version);
    let mut other_date = new_year();
    other_date.date = Date::parse("2019-01-02").unwrap();
    assert!(a != other_date);
    let mut more = new_year();
    more.add_package("cargo".to_string(), "", offers(&[])).unwrap();
    assert!(a != more);
    assert!(more != a);
    let mut renamed = new_year();
    renamed.add_rename("rls".to_string(), "rls".to_string());
    assert!(a != renamed);
    let mut other_offer = new_year();
    other_offer.add_package("rust-docs".to_string(), "", offers(&[("*", true)])).unwrap();
    assert!(a != other_offer);
    let mut other_release = new_year();
    other_release
        .add_package("rust-src".to_string(), "1.33.0-nightly (9eac38634 2019-01-01)", offers(&[("*", true)]))
        .unwrap();
    assert!(a != other_release);
    let mut unreleased = new_year();
    unreleased.add_package("rust-src".to_string(), "", offers(&[("*", true)])).unwrap();
    assert!(a != unreleased);
    assert!(unreleased != a);
}
