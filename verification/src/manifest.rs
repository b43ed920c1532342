//! Release descriptors: what one day's release offers, package by package and
//! target by target.

use crate::date::Date;
use crate::table::{same_entries, Table};
use crate::text::{chars_of, same_text};
use crate::version::{parse_version, version_same, ParseError, VersionView};
pub use crate::version::{Channel, Commit, Version};
use std::str::FromStr;
use vstd::prelude::*;
use vstd::slice::slice_subrange;
use vstd::utf8::{decode_utf8, valid_utf8};

verus! {

/// What a descriptor says of one package for one target.
#[derive(Debug)]
pub struct PackageInfo {
    pub available: bool,
    pub url: Option<String>,
    pub hash: Option<String>,
    pub xz_url: Option<String>,
    pub xz_hash: Option<String>,
}

/// The characters of an optional text.
pub open spec fn opt_text(o: Option<String>) -> Option<Seq<char>> {
    match o {
        Some(s) => Some(s@),
        None => None,
    }
}

fn clone_opt_text(o: &Option<String>) -> (r: Option<String>)
    ensures
        r == *o,
{
    match o {
        Some(s) => Some(s.clone()),
        None => None,
    }
}

fn same_opt_text(a: &Option<String>, b: &Option<String>) -> (r: bool)
    ensures
        r == (opt_text(*a) == opt_text(*b)),
{
    match (a, b) {
        (Some(x), Some(y)) => same_text(x.as_str(), y.as_str()),
        (None, None) => true,
        _ => false,
    }
}

impl PackageInfo {
    /// A package that is on offer or not, with no download data.
    pub fn new(available: bool) -> (r: PackageInfo)
        ensures
            r.available == available,
            r.url is None,
            r.hash is None,
            r.xz_url is None,
            r.xz_hash is None,
    {
        PackageInfo { available, url: None, hash: None, xz_url: None, xz_hash: None }
    }

    /// Whether `self` and `other` say the same: the same availability and the
    /// same download data, text by text.
    pub open spec fn same(self, other: PackageInfo) -> bool {
        &&& self.available == other.available
        &&& opt_text(self.url) == opt_text(other.url)
        &&& opt_text(self.hash) == opt_text(other.hash)
        &&& opt_text(self.xz_url) == opt_text(other.xz_url)
        &&& opt_text(self.xz_hash) == opt_text(other.xz_hash)
    }
}

impl Clone for PackageInfo {
    fn clone(&self) -> (r: PackageInfo)
        ensures
            r == *self,
    {
        PackageInfo {
            available: self.available,
            url: clone_opt_text(&self.url),
            hash: clone_opt_text(&self.hash),
            xz_url: clone_opt_text(&self.xz_url),
            xz_hash: clone_opt_text(&self.xz_hash),
        }
    }
}

impl PartialEq for PackageInfo {
    fn eq(&self, other: &PackageInfo) -> (r: bool) {
        self.available == other.available && same_opt_text(&self.url, &other.url) && same_opt_text(
            &self.hash,
            &other.hash,
        ) && same_opt_text(&self.xz_url, &other.xz_url) && same_opt_text(
            &self.xz_hash,
            &other.xz_hash,
        )
    }
}

impl vstd::std_specs::cmp::PartialEqSpecImpl for PackageInfo {
    open spec fn obeys_eq_spec() -> bool {
        true
    }

    open spec fn eq_spec(&self, other: &PackageInfo) -> bool {
        self.same(*other)
    }
}

impl Eq for PackageInfo {

}

/// The canonical name that an older component name now goes by.
#[derive(Debug)]
pub struct Rename {
    pub to: String,
}

impl Clone for Rename {
    fn clone(&self) -> (r: Rename)
        ensures
            r == *self,
    {
        Rename { to: self.to.clone() }
    }
}

impl PartialEq for Rename {
    fn eq(&self, other: &Rename) -> (r: bool) {
        same_text(self.to.as_str(), other.to.as_str())
    }
}

impl vstd::std_specs::cmp::PartialEqSpecImpl for Rename {
    open spec fn obeys_eq_spec() -> bool {
        true
    }

    open spec fn eq_spec(&self, other: &Rename) -> bool {
        self.to@ == other.to@
    }
}

impl Eq for Rename {

}

/// One package of a descriptor: its own version, where it was released that
/// day, and what is on offer for each target. The key `*` stands for every
/// target that has no entry of its own.
#[derive(Debug)]
pub struct PackageTargets {
    pub version: Option<Version>,
    pub target: Table<PackageInfo>,
}

impl PartialEq for PackageTargets {
    fn eq(&self, other: &PackageTargets) -> (r: bool) {
        let versions = match (&self.version, &other.version) {
            (None, None) => true,
            (Some(a), Some(b)) => a.same(b),
            _ => false,
        };
        versions && self.target.same_as(&other.target)
    }
}

impl vstd::std_specs::cmp::PartialEqSpecImpl for PackageTargets {
    open spec fn obeys_eq_spec() -> bool {
        true
    }

    open spec fn eq_spec(&self, other: &PackageTargets) -> bool {
        &&& match (self.version, other.version) {
            (None, None) => true,
            (Some(a), Some(b)) => version_same(a@, b@),
            _ => false,
        }
        &&& same_entries(self.target@, other.target@)
    }
}

impl Eq for PackageTargets {

}

/// One day's release descriptor.
#[derive(Debug)]
pub struct Manifest {
    pub manifest_version: u8,
    pub date: Date,
    pub pkg: Table<PackageTargets>,
    pub renames: Table<Rename>,
}

impl PartialEq for Manifest {
    fn eq(&self, other: &Manifest) -> (r: bool) {
        self.manifest_version == other.manifest_version && self.date.same_day(&other.date)
            && self.pkg.same_as(&other.pkg) && self.renames.same_as(&other.renames)
    }
}

impl vstd::std_specs::cmp::PartialEqSpecImpl for Manifest {
    open spec fn obeys_eq_spec() -> bool {
        true
    }

    open spec fn eq_spec(&self, other: &Manifest) -> bool {
        &&& self.manifest_version == other.manifest_version
        &&& self.date == other.date
        &&& same_entries(self.pkg@, other.pkg@)
        &&& same_entries(self.renames@, other.renames@)
    }
}

impl Eq for Manifest {

}

/// The name under which a descriptor lists a component: where the descriptor
/// renames it, the name it is renamed to; else the name itself.
pub open spec fn canonical_name(m: Manifest, name: Seq<char>) -> Seq<char> {
    if m.renames@.contains_key(name) {
        m.renames@[name].to@
    } else {
        name
    }
}

/// What a descriptor says of the package `pkg` for `target`: the entry of the
/// target itself, else the entry `*`, else nothing. A package the descriptor
/// does not list has no entry at all.
pub open spec fn target_info(m: Manifest, pkg: Seq<char>, target: Seq<char>) -> Option<
    PackageInfo,
> {
    if !m.pkg@.contains_key(pkg) {
        None
    } else {
        let offers = m.pkg@[pkg].target@;
        if offers.contains_key(target) {
            Some(offers[target])
        } else if offers.contains_key("*"@) {
            Some(offers["*"@])
        } else {
            None
        }
    }
}

/// What a descriptor says of a component for `target`, the component looked up
/// under its canonical name.
pub open spec fn resolved(m: Manifest, component: Seq<char>, target: Seq<char>) -> Option<
    PackageInfo,
> {
    target_info(m, canonical_name(m, component), target)
}

/// Whether a component is missing from a descriptor for `target`: the
/// descriptor says nothing of it, or says that it is not available.
pub open spec fn is_missing(m: Manifest, component: Seq<char>, target: Seq<char>) -> bool {
    match resolved(m, component, target) {
        None => true,
        Some(info) => !info.available,
    }
}

/// Those of `names`, in their order, that are missing from the descriptor for
/// `target`.
pub open spec fn missing_names(m: Manifest, names: Seq<Seq<char>>, target: Seq<char>) -> Seq<
    Seq<char>,
>
    decreases names.len(),
{
    if names.len() == 0 {
        Seq::empty()
    } else {
        let earlier = missing_names(m, names.drop_last(), target);
        if is_missing(m, names.last(), target) {
            earlier.push(names.last())
        } else {
            earlier
        }
    }
}

/// The version of the package `name` in a descriptor, where the descriptor
/// lists the package and the package was released.
pub open spec fn listed_version(m: Manifest, name: Seq<char>) -> Option<Version> {
    if m.pkg@.contains_key(name) {
        m.pkg@[name].version
    } else {
        None
    }
}

/// The version that a descriptor's version field denotes: none where the field
/// is empty, else the version written in it.
pub open spec fn parse_package_version(s: Seq<char>) -> Result<
    Option<VersionView>,
    ParseError,
> {
    if s.len() == 0 {
        Ok(None)
    } else {
        match parse_version(s) {
            Ok(v) => Ok(Some(v)),
            Err(e) => Err(e),
        }
    }
}

/// Reads the version field of a package: empty where the package was not
/// released that day.
pub fn version_from_str(s: &str) -> (r: Result<Option<Version>, ParseError>)
    ensures
        match parse_package_version(s@) {
            Ok(None) => r == Ok::<Option<Version>, ParseError>(None),
            Ok(Some(v)) => r matches Ok(Some(version)) && version@ == v,
            Err(e) => r == Err::<Option<Version>, ParseError>(e),
        },
{
    if s.is_empty() {
        Ok(None)
    } else {
        match Version::from_str(s) {
            Ok(version) => Ok(Some(version)),
            Err(e) => Err(e),
        }
    }
}

impl Manifest {
    /// A descriptor of the given format version and date that lists no
    /// package and renames none.
    pub fn new(manifest_version: u8, date: Date) -> (m: Manifest)
        ensures
            m.manifest_version == manifest_version,
            m.date == date,
            m.pkg@ == Map::<Seq<char>, PackageTargets>::empty(),
            m.renames@ == Map::<Seq<char>, Rename>::empty(),
    {
        Manifest { manifest_version, date, pkg: Table::new(), renames: Table::new() }
    }

    /// Lists the package `name` with what it offers per target and with the
    /// version that its version field denotes. A package whose version field
    /// is malformed is not listed, and the error is handed back.
    pub fn add_package(&mut self, name: String, version: &str, target: Table<PackageInfo>) -> (r:
        Result<(), ParseError>)
        ensures
            final(self).manifest_version == old(self).manifest_version,
            final(self).date == old(self).date,
            final(self).renames == old(self).renames,
            match parse_package_version(version@) {
                Ok(v) => {
                    &&& r is Ok
                    &&& final(self).pkg@.dom() == old(self).pkg@.dom().insert(name@)
                    &&& forall|k: Seq<char>|
                        k != name@ && old(self).pkg@.contains_key(k) ==> final(self).pkg@[k] == old(
                            self,
                        ).pkg@[k]
                    &&& final(self).pkg@[name@].target == target
                    &&& match v {
                        None => final(self).pkg@[name@].version is None,
                        Some(v) => final(self).pkg@[name@].version matches Some(version)
                            && version@ == v,
                    }
                },
                Err(e) => r == Err::<(), ParseError>(e) && final(self).pkg == old(self).pkg,
            },
    {
        match version_from_str(version) {
            Ok(version) => {
                self.pkg.insert(name, PackageTargets { version, target });
                Ok(())
            },
            Err(e) => Err(e),
        }
    }

    /// Records that the component `alias` goes by the name `to`.
    pub fn add_rename(&mut self, alias: String, to: String)
        ensures
            final(self).manifest_version == old(self).manifest_version,
            final(self).date == old(self).date,
            final(self).pkg == old(self).pkg,
            final(self).renames@ == old(self).renames@.insert(alias@, (Rename { to })),
    {
        self.renames.insert(alias, Rename { to });
    }

    /// What the descriptor says of the package `pkg` for `target`, falling
    /// back on the entry `*`.
    pub fn pkg_for_target(&self, pkg: &str, target: &str) -> (r: Option<PackageInfo>)
        ensures
            r == target_info(*self, pkg@, target@),
    {
        match self.pkg.get(pkg) {
            Some(package_target) => match package_target.target.get(target) {
                Some(package_info) => Some(package_info.clone()),
                None => match package_target.target.get("*") {
                    Some(package_info) => Some(package_info.clone()),
                    None => None,
                },
            },
            None => None,
        }
    }

    /// The version of the package `name`, where the descriptor lists the
    /// package and the package was released.
    pub fn pkg_version(&self, name: &str) -> (r: Option<Version>)
        ensures
            r == listed_version(*self, name@),
    {
        match self.pkg.get(name) {
            Some(pkg) => match &pkg.version {
                Some(version) => Some(version.clone()),
                None => None,
            },
            None => None,
        }
    }

    /// What the descriptor says of a component for `target`: the component is
    /// looked up under the name it is renamed to, where the descriptor renames
    /// it, and the entry `*` stands in for a target without an entry.
    pub fn resolve(&self, component: &str, target: &str) -> (r: Option<PackageInfo>)
        ensures
            r == resolved(*self, component@, target@),
    {
        match self.renames.get(component) {
            Some(rename) => self.pkg_for_target(rename.to.as_str(), target),
            None => self.pkg_for_target(component, target),
        }
    }

    /// Whether a component is missing for `target`: unresolved, or resolved to
    /// a package that is not available.
    pub fn is_missing(&self, component: &str, target: &str) -> (r: bool)
        ensures
            r == is_missing(*self, component@, target@),
    {
        match self.resolve(component, target) {
            Some(package_info) => !package_info.available,
            None => true,
        }
    }
}

/// A component that a descriptor renames is resolved through the package it is
/// renamed to.
pub proof fn lemma_rename_resolution(
    m: Manifest,
    alias: Seq<char>,
    target: Seq<char>,
)
    requires
        m.renames@.contains_key(alias),
        m.pkg@.contains_key(m.renames@[alias].to@),
        m.pkg@[m.renames@[alias].to@].target@.contains_key(target),
    ensures
        resolved(m, alias, target) == Some(m.pkg@[m.renames@[alias].to@].target@[target]),
        m.pkg@[m.renames@[alias].to@].target@[target].available ==> !is_missing(m, alias, target),
{
}

/// A package that offers only the entry `*`, and offers it as available, is
/// resolved as available for every target.
pub proof fn lemma_wildcard_fallback(m: Manifest, component: Seq<char>, target: Seq<char>)
    requires
        m.pkg@.contains_key(canonical_name(m, component)),
        m.pkg@[canonical_name(m, component)].target@.dom() == set!["*"@],
        m.pkg@[canonical_name(m, component)].target@["*"@].available,
    ensures
        resolved(m, component, target) == Some(
            m.pkg@[canonical_name(m, component)].target@["*"@],
        ),
        !is_missing(m, component, target),
{
    let offers = m.pkg@[canonical_name(m, component)].target@;
}

/// The value of a text of decimal digits.
pub open spec fn digits_value(s: Seq<char>) -> nat
    decreases s.len(),
{
    if s.len() == 0 {
        0
    } else {
        (digits_value(s.drop_last()) * 10 + (s.last() as int - '0' as int)) as nat
    }
}

/// Whether every character of `s` is a decimal digit.
pub open spec fn all_digits(s: Seq<char>) -> bool {
    forall|i: int| 0 <= i < s.len() ==> '0' <= #[trigger] s[i] <= '9'
}

/// The number that a text denotes as a format version: decimal digits, with
/// an optional `+` before them, of a value up to 255.
pub open spec fn parse_u8(s: Seq<char>) -> Option<u8> {
    let digits = if s.len() > 0 && s[0] == '+' {
        s.skip(1)
    } else {
        s
    };
    if digits.len() > 0 && all_digits(digits) && digits_value(digits) <= 255 {
        Some(digits_value(digits) as u8)
    } else {
        None
    }
}

proof fn lemma_digits_value_grows(s: Seq<char>, n: int)
    requires
        0 <= n <= s.len(),
        all_digits(s),
    ensures
        digits_value(s.take(n)) <= digits_value(s),
    decreases s.len() - n,
{
    if n < s.len() {
        let t = s.drop_last();
        lemma_digits_value_grows(t, n);
        assert(t.take(n) =~= s.take(n));
    } else {
        assert(s.take(n) =~= s);
    }
}

/// Reads a format version written in decimal digits.
pub fn u8_from_str(s: &str) -> (r: Option<u8>)
    ensures
        r == parse_u8(s@),
{
    let v = chars_of(s);
    let start: usize = if v.len() > 0 && v[0] == '+' {
        1
    } else {
        0
    };
    let ghost digits = v@.skip(start as int);
    if start == v.len() {
        return None;
    }
    let mut value: u32 = 0;
    let mut i: usize = start;
    while i < v.len()
        invariant
            start <= i <= v.len(),
            start < v.len(),
            digits == v@.skip(start as int),
            digits == if s@.len() > 0 && s@[0] == '+' {
                s@.skip(1)
            } else {
                s@
            },
            all_digits(digits.take(i - start)),
            value == digits_value(digits.take(i - start)),
            value <= 255,
        decreases v.len() - i,
    {
        let c: char = v[i];
        let ghost sofar = digits.take(i - start);
        let ghost next = digits.take(i - start + 1);
        assert(next.drop_last() =~= sofar);
        if !('0' <= c && c <= '9') {
            assert(digits[i - start] == c);
            return None;
        }
        let wider: u32 = value * 10 + (c as u32 - '0' as u32);
        if wider > 255 {
            proof {
                if all_digits(digits) {
                    lemma_digits_value_grows(digits, i - start + 1);
                }
            }
            return None;
        }
        value = wider;
        i += 1;
    }
    assert(digits.take(i - start) =~= digits);
    Some(value as u8)
}

/// Why a response holds no descriptor text.
#[derive(Clone, Copy, Debug, PartialEq, Eq, Structural, PartialOrd, Ord, Hash)]
pub enum BodyError {
    /// No blank line ends the response's header.
    NoBody,
    /// What follows the header is not UTF-8 text.
    NotText,
}

impl BodyError {
    /// A short description of the error.
    pub fn message(&self) -> (r: String)
        ensures
            r@ == match *self {
                BodyError::NoBody => "Not search pattern"@,
                BodyError::NotText => "invalid utf-8 sequence"@,
            },
    {
        match self {
            BodyError::NoBody => "Not search pattern".to_owned(),
            BodyError::NotText => "invalid utf-8 sequence".to_owned(),
        }
    }
}

/// Whether the four bytes from `p` on are a carriage return, a line feed, a
/// carriage return and a line feed.
pub open spec fn blank_line_at(bytes: Seq<u8>, p: int) -> bool {
    &&& 0 <= p
    &&& p + 4 <= bytes.len()
    &&& bytes[p] == 13
    &&& bytes[p + 1] == 10
    &&& bytes[p + 2] == 13
    &&& bytes[p + 3] == 10
}

/// The first place from `p` on at which a blank line stands, or the length of
/// `bytes` where none does.
pub open spec fn blank_line_from(bytes: Seq<u8>, p: int) -> int
    decreases bytes.len() - p,
{
    if p < 0 || p + 4 > bytes.len() {
        bytes.len() as int
    } else if blank_line_at(bytes, p) {
        p
    } else {
        blank_line_from(bytes, p + 1)
    }
}

/// The body of a response: the text behind the first blank line.
pub open spec fn body_of(response: Seq<u8>) -> Result<Seq<char>, BodyError> {
    let p = blank_line_from(response, 0);
    if p == response.len() {
        Err(BodyError::NoBody)
    } else if !valid_utf8(response.skip(p + 4)) {
        Err(BodyError::NotText)
    } else {
        Ok(decode_utf8(response.skip(p + 4)))
    }
}

/// Calls `std::str::from_utf8`, which hands the bytes back as text exactly
/// when they are well-formed UTF-8; the text's characters are those that the
/// bytes encode.
#[verifier::external_body]
fn utf8_text(bytes: &[u8]) -> (r: Option<&str>)
    ensures
        r is Some <==> valid_utf8(bytes@),
        r matches Some(s) ==> s@ == decode_utf8(bytes@),
{
    std::str::from_utf8(bytes).ok()
}

/// The body of a response: the text that follows the first blank line.
pub fn body(response: &[u8]) -> (r: Result<&str, BodyError>)
    ensures
        match body_of(response@) {
            Ok(text) => r is Ok && r->Ok_0@ == text,
            Err(e) => r == Err::<&str, BodyError>(e),
        },
{
    let n = response.len();
    if n < 4 {
        return Err(BodyError::NoBody);
    }
    let mut p: usize = 0;
    while p <= n - 4
        invariant
            n == response@.len(),
            n >= 4,
            p <= n - 3,
            blank_line_from(response@, 0) == blank_line_from(response@, p as int),
        decreases n - p,
    {
        if response[p] == 13 && response[p + 1] == 10 && response[p + 2] == 13 && response[p + 3]
            == 10 {
            let rest = slice_subrange(response, p + 4, n);
            return match utf8_text(rest) {
                Some(text) => Ok(text),
                None => Err(BodyError::NotText),
            };
        }
        p += 1;
    }
    Err(BodyError::NoBody)
}

/// The path under which the descriptor of a day and a channel is published.
pub open spec fn dist_path_of(date: Seq<char>, channel: Seq<char>) -> Seq<char> {
    "/dist/"@ + date + "/channel-rust-"@ + channel + ".toml"@
}

/// The path under which the descriptor of a day and a channel is published.
pub fn dist_path(date: &str, channel: &str) -> (r: String)
    ensures
        r@ == dist_path_of(date@, channel@),
{
    let mut path = "/dist/".to_owned();
    path.append(date);
    path.append("/channel-rust-");
    path.append(channel);
    path.append(".toml");
    path
}

/// The host that publishes the descriptors.
pub fn dist_host() -> (r: &'static str)
    ensures
        r@ == "static.rust-lang.org"@,
{
    "static.rust-lang.org"
}

/// The request that asks the host for `path`.
pub open spec fn request_of(path: Seq<char>) -> Seq<char> {
    "GET "@ + path + " HTTP/1.0\r\nHost: "@ + "static.rust-lang.org"@ + "\r\n\r\n"@
}

/// The request that asks the host for `path`.
pub fn request(path: &str) -> (r: String)
    ensures
        r@ == request_of(path@),
{
    let mut text = "GET ".to_owned();
    text.append(path);
    text.append(" HTTP/1.0\r\nHost: ");
    text.append(dist_host());
    text.append("\r\n\r\n");
    text
}

} // verus!
