//! Release versions: channel, dotted number and originating commit.
//!
//! A version is written `<dotted-number>[-<channel>] (<hash> <date>)`. Versions
//! are ordered by channel, then by the dotted number as text, then by the
//! commit's date; the commit's hash takes no part in order or equality.

use crate::date::{day_text, lemma_date_by_day, parsed_day, Date};
use crate::text::{
    chars_of, find_char, index_of, lemma_lex_asymmetric, lemma_lex_irreflexive, lemma_lex_total,
    lemma_lex_transitive, lex_less, same_text, text_less,
};
use std::cmp::Ordering;
use std::str::FromStr;
use vstd::prelude::*;
use vstd::std_specs::cmp::{PartialEqSpec, PartialOrdSpec};

verus! {

/// Why a text is not a version, a commit or a channel.
#[derive(Clone, Copy, Debug, PartialEq, Eq, Structural, PartialOrd, Ord, Hash)]
pub enum ParseError {
    /// No space parts the dotted number from the commit.
    Layout,
    /// The dotted number is not made of digit groups parted by single dots.
    Number,
    /// No space parts the commit's hash from its date.
    Commit,
    /// The commit's date is not a calendar date written `YYYY-MM-DD`.
    Date,
    /// The channel tag is none of the known channels.
    Channel,
}

impl ParseError {
    /// A short description of the error.
    pub fn message(&self) -> (r: String)
        ensures
            r@ == match *self {
                ParseError::Layout => "missing commit"@,
                ParseError::Number => "wrong version number"@,
                ParseError::Commit => "wrong commit"@,
                ParseError::Date => "wrong date"@,
                ParseError::Channel => "wrong channel"@,
            },
    {
        match self {
            ParseError::Layout => "missing commit".to_owned(),
            ParseError::Number => "wrong version number".to_owned(),
            ParseError::Commit => "wrong commit".to_owned(),
            ParseError::Date => "wrong date".to_owned(),
            ParseError::Channel => "wrong channel".to_owned(),
        }
    }
}

/// A release track. Stable comes before Beta, Beta before Nightly.
#[derive(Clone, Copy, Debug, PartialEq, Eq, Structural, Hash)]
pub enum Channel {
    Stable,
    Beta,
    Nightly,
}

/// The channel that a tag names; the empty tag names Stable.
pub open spec fn channel_of(tag: Seq<char>) -> Option<Channel> {
    if tag.len() == 0 || tag == "stable"@ {
        Some(Channel::Stable)
    } else if tag == "beta"@ {
        Some(Channel::Beta)
    } else if tag == "nightly"@ {
        Some(Channel::Nightly)
    } else {
        None
    }
}

impl Channel {
    /// The channel's place in the order of channels.
    pub open spec fn rank(self) -> int {
        match self {
            Channel::Stable => 0,
            Channel::Beta => 1,
            Channel::Nightly => 2,
        }
    }

    /// The channel's place in the order of channels, as a number.
    pub fn to_u8(&self) -> (r: u8)
        ensures
            r == self.rank(),
    {
        match self {
            Channel::Stable => 0,
            Channel::Beta => 1,
            Channel::Nightly => 2,
        }
    }
}

impl FromStr for Channel {
    type Err = ParseError;

    /// Reads a channel tag.
    fn from_str(s: &str) -> (r: Result<Channel, ParseError>)
        ensures
            match channel_of(s@) {
                Some(channel) => r == Ok::<Channel, ParseError>(channel),
                None => r == Err::<Channel, ParseError>(ParseError::Channel),
            },
    {
        if s.is_empty() || same_text(s, "stable") {
            Ok(Channel::Stable)
        } else if same_text(s, "beta") {
            Ok(Channel::Beta)
        } else if same_text(s, "nightly") {
            Ok(Channel::Nightly)
        } else {
            Err(ParseError::Channel)
        }
    }
}

impl PartialOrd for Channel {
    fn partial_cmp(&self, other: &Channel) -> (r: Option<Ordering>) {
        let a = self.to_u8();
        let b = other.to_u8();
        if a < b {
            Some(Ordering::Less)
        } else if a > b {
            Some(Ordering::Greater)
        } else {
            Some(Ordering::Equal)
        }
    }
}

impl vstd::std_specs::cmp::PartialOrdSpecImpl for Channel {
    open spec fn obeys_partial_cmp_spec() -> bool {
        true
    }

    open spec fn partial_cmp_spec(&self, other: &Channel) -> Option<Ordering> {
        if self.rank() < other.rank() {
            Some(Ordering::Less)
        } else if self.rank() > other.rank() {
            Some(Ordering::Greater)
        } else {
            Some(Ordering::Equal)
        }
    }
}

/// What a commit is: its hash and the day number of its date.
pub struct CommitView {
    pub hash: Seq<char>,
    pub date: int,
}

/// The commit a release was built from.
#[derive(Debug)]
pub struct Commit {
    pub hash: String,
    pub date: Date,
}

impl View for Commit {
    type V = CommitView;

    open spec fn view(&self) -> CommitView {
        CommitView { hash: self.hash@, date: self.date@ }
    }
}

/// Whether `c` is a round bracket.
pub open spec fn is_paren(c: char) -> bool {
    c == '(' || c == ')'
}

/// `s` without the round brackets it starts with.
pub open spec fn strip_front(s: Seq<char>) -> Seq<char>
    decreases s.len(),
{
    if s.len() > 0 && is_paren(s[0]) {
        strip_front(s.drop_first())
    } else {
        s
    }
}

/// `s` without the round brackets it ends with.
pub open spec fn strip_back(s: Seq<char>) -> Seq<char>
    decreases s.len(),
{
    if s.len() > 0 && is_paren(s.last()) {
        strip_back(s.drop_last())
    } else {
        s
    }
}

/// `s` without the round brackets at either end.
pub open spec fn strip_parens(s: Seq<char>) -> Seq<char> {
    strip_back(strip_front(s))
}

/// The commit that a text denotes: the text without the round brackets at its
/// ends is a hash, one space and a date.
pub open spec fn parse_commit(s: Seq<char>) -> Result<CommitView, ParseError> {
    let t = strip_parens(s);
    let space = index_of(t, ' ');
    if space == t.len() {
        Err(ParseError::Commit)
    } else {
        match parsed_day(t.skip(space + 1)) {
            None => Err(ParseError::Date),
            Some(day) => Ok(CommitView { hash: t.take(space), date: day }),
        }
    }
}

proof fn lemma_strip_front(s: Seq<char>, lo: int)
    requires
        0 <= lo <= s.len(),
        forall|j: int| 0 <= j < lo ==> is_paren(s[j]),
        lo < s.len() ==> !is_paren(s[lo]),
    ensures
        strip_front(s) == s.skip(lo),
    decreases lo,
{
    if lo > 0 {
        let t = s.drop_first();
        lemma_strip_front(t, lo - 1);
    }
}

proof fn lemma_strip_back(s: Seq<char>, hi: int)
    requires
        0 <= hi <= s.len(),
        forall|j: int| hi <= j < s.len() ==> is_paren(s[j]),
        hi > 0 ==> !is_paren(s[hi - 1]),
    ensures
        strip_back(s) == s.take(hi),
    decreases s.len() - hi,
{
    if hi < s.len() {
        let t = s.drop_last();
        lemma_strip_back(t, hi);
    }
}

impl Clone for Commit {
    fn clone(&self) -> (r: Commit)
        ensures
            r == *self,
    {
        Commit { hash: self.hash.clone(), date: self.date }
    }
}

impl FromStr for Commit {
    type Err = ParseError;

    /// Reads a commit written as `(<hash> <date>)`; the round brackets may be
    /// left out.
    fn from_str(input: &str) -> (r: Result<Commit, ParseError>)
        ensures
            match parse_commit(input@) {
                Ok(commit) => r is Ok && r->Ok_0@ == commit,
                Err(e) => r == Err::<Commit, ParseError>(e),
            },
    {
        let v = chars_of(input);
        let mut lo: usize = 0;
        while lo < v.len() && (v[lo] == '(' || v[lo] == ')')
            invariant
                lo <= v.len(),
                forall|j: int| 0 <= j < lo ==> is_paren(v@[j]),
            decreases v.len() - lo,
        {
            lo += 1;
        }
        let mut hi: usize = v.len();
        while hi > lo && (v[hi - 1] == '(' || v[hi - 1] == ')')
            invariant
                lo <= hi <= v.len(),
                forall|j: int| hi <= j < v.len() ==> is_paren(v@[j]),
            decreases hi,
        {
            hi -= 1;
        }
        let ghost front = v@.skip(lo as int);
        let ghost t = v@.subrange(lo as int, hi as int);
        proof {
            lemma_strip_front(v@, lo as int);
            lemma_strip_back(front, hi - lo);
            assert(strip_parens(input@) == t);
        }
        let space = find_char(&v, lo, hi, ' ');
        if space == hi {
            return Err(ParseError::Commit);
        }
        let hash = input.substring_char(lo, space);
        let date = input.substring_char(space + 1, hi);
        assert(hash@ =~= t.take(space - lo));
        assert(date@ =~= t.skip(space - lo + 1));
        match Date::parse(date) {
            None => Err(ParseError::Date),
            Some(date) => Ok(Commit { hash: hash.to_owned(), date }),
        }
    }
}

impl PartialEq for Commit {
    fn eq(&self, other: &Commit) -> (r: bool) {
        self.date.same_day(&other.date)
    }
}

impl vstd::std_specs::cmp::PartialEqSpecImpl for Commit {
    open spec fn obeys_eq_spec() -> bool {
        true
    }

    open spec fn eq_spec(&self, other: &Commit) -> bool {
        self.date@ == other.date@
    }
}

impl Eq for Commit {

}

impl PartialOrd for Commit {
    fn partial_cmp(&self, other: &Commit) -> (r: Option<Ordering>) {
        if self.date.before(&other.date) {
            Some(Ordering::Less)
        } else if other.date.before(&self.date) {
            Some(Ordering::Greater)
        } else {
            Some(Ordering::Equal)
        }
    }
}

impl vstd::std_specs::cmp::PartialOrdSpecImpl for Commit {
    open spec fn obeys_partial_cmp_spec() -> bool {
        true
    }

    open spec fn partial_cmp_spec(&self, other: &Commit) -> Option<Ordering> {
        if self.date@ < other.date@ {
            Some(Ordering::Less)
        } else if self.date@ > other.date@ {
            Some(Ordering::Greater)
        } else {
            Some(Ordering::Equal)
        }
    }
}

/// What a version is: its channel, its dotted number and its commit.
pub struct VersionView {
    pub channel: Channel,
    pub version: Seq<char>,
    pub commit: CommitView,
}

/// A release's version.
#[derive(Debug)]
pub struct Version {
    pub channel: Channel,
    pub version: String,
    pub commit: Commit,
}

impl View for Version {
    type V = VersionView;

    open spec fn view(&self) -> VersionView {
        VersionView { channel: self.channel, version: self.version@, commit: self.commit@ }
    }
}

/// Whether `c` is one of the digits `0` to `9`.
pub open spec fn is_digit(c: char) -> bool {
    '0' <= c <= '9'
}

/// Whether `s` is a dotted number: digits, with single dots between digits.
pub open spec fn is_dotted_number(s: Seq<char>) -> bool {
    &&& s.len() > 0
    &&& forall|i: int|
        0 <= i < s.len() ==> is_digit(#[trigger] s[i]) || (s[i] == '.' && 0 < i < s.len() - 1
            && is_digit(s[i - 1]) && is_digit(s[i + 1]))
}

/// The version that a text denotes.
///
/// The text up to its first space is the dotted number, followed, where it
/// holds a hyphen, by the channel tag behind the first hyphen. What follows
/// the first space is the commit.
pub open spec fn parse_version(s: Seq<char>) -> Result<VersionView, ParseError> {
    let space = index_of(s, ' ');
    let head = s.take(space);
    let dash = index_of(head, '-');
    let number = head.take(dash);
    let tag = if dash < head.len() {
        head.skip(dash + 1)
    } else {
        Seq::empty()
    };
    if space == s.len() {
        Err(ParseError::Layout)
    } else if !is_dotted_number(number) {
        Err(ParseError::Number)
    } else {
        match parse_commit(s.skip(space + 1)) {
            Err(e) => Err(e),
            Ok(commit) => match channel_of(tag) {
                None => Err(ParseError::Channel),
                Some(channel) => Ok(VersionView { channel, version: number, commit }),
            },
        }
    }
}

/// The text of a version: the dotted number, then the commit in round
/// brackets. The channel is not written.
pub open spec fn version_text(v: VersionView) -> Seq<char> {
    v.version + " ("@ + v.commit.hash + " "@ + day_text(v.commit.date) + ")"@
}

/// Whether `a` comes strictly before `b`: by channel, then by the dotted number
/// as text, then by the commit's date.
pub open spec fn version_less(a: VersionView, b: VersionView) -> bool {
    ||| a.channel.rank() < b.channel.rank()
    ||| a.channel == b.channel && lex_less(a.version, b.version)
    ||| a.channel == b.channel && a.version == b.version && a.commit.date < b.commit.date
}

/// Whether `a` and `b` count as the same version: same channel, same dotted
/// number, same commit date. The commit's hash is not looked at.
pub open spec fn version_same(a: VersionView, b: VersionView) -> bool {
    a.channel == b.channel && a.version == b.version && a.commit.date == b.commit.date
}

/// Whether the first `n` characters of `v` are a dotted number.
fn dotted_number(v: &Vec<char>, n: usize) -> (r: bool)
    requires
        n <= v.len(),
    ensures
        r == is_dotted_number(v@.take(n as int)),
{
    let ghost s = v@.take(n as int);
    if n == 0 {
        return false;
    }
    let mut i: usize = 0;
    while i < n
        invariant
            i <= n <= v.len(),
            s == v@.take(n as int),
            forall|j: int|
                0 <= j < i ==> is_digit(#[trigger] s[j]) || (s[j] == '.' && 0 < j < s.len() - 1
                    && is_digit(s[j - 1]) && is_digit(s[j + 1])),
        decreases n - i,
    {
        let c: char = v[i];
        let digit = '0' <= c && c <= '9';
        if !digit {
            if c != '.' || i == 0 || i + 1 >= n {
                assert(!is_digit(s[i as int]));
                return false;
            }
            let before: char = v[i - 1];
            let after: char = v[i + 1];
            if !('0' <= before && before <= '9' && '0' <= after && after <= '9') {
                assert(!is_digit(s[i as int]));
                return false;
            }
        }
        i += 1;
    }
    true
}

impl Clone for Version {
    fn clone(&self) -> (r: Version)
        ensures
            r == *self,
    {
        Version {
            channel: self.channel,
            version: self.version.clone(),
            commit: self.commit.clone(),
        }
    }
}

impl FromStr for Version {
    type Err = ParseError;

    /// Reads a version written as `<dotted-number>[-<channel>] (<hash> <date>)`.
    fn from_str(s: &str) -> (r: Result<Version, ParseError>)
        ensures
            match parse_version(s@) {
                Ok(version) => r is Ok && r->Ok_0@ == version,
                Err(e) => r == Err::<Version, ParseError>(e),
            },
    {
        let v = chars_of(s);
        let n = v.len();
        let space = find_char(&v, 0, n, ' ');
        let dash = find_char(&v, 0, space, '-');
        let ghost head = s@.take(space as int);
        assert(v@.subrange(0, n as int) =~= s@);
        assert(v@.take(dash as int) =~= head.take(dash as int));
        if space == n {
            return Err(ParseError::Layout);
        }
        if !dotted_number(&v, dash) {
            return Err(ParseError::Number);
        }
        let number = s.substring_char(0, dash);
        let rest = s.substring_char(space + 1, n);
        let commit = match Commit::from_str(rest) {
            Ok(commit) => commit,
            Err(e) => {
                return Err(e);
            },
        };
        let channel = if dash < space {
            let tag = s.substring_char(dash + 1, space);
            assert(tag@ =~= head.skip(dash + 1));
            Channel::from_str(tag)
        } else {
            Ok(Channel::Stable)
        };
        match channel {
            Ok(channel) => Ok(Version { channel, version: number.to_owned(), commit }),
            Err(e) => Err(e),
        }
    }
}

impl Version {
    /// Writes the version as `<dotted-number> (<hash> <date>)`.
    pub fn to_string(&self) -> (r: String)
        ensures
            r@ == version_text(self@),
    {
        let mut out = self.version.clone();
        out.append(" (");
        out.append(self.commit.hash.as_str());
        out.append(" ");
        let date = self.commit.date.to_text();
        out.append(date.as_str());
        out.append(")");
        out
    }

    /// Whether `self` and `other` count as the same version.
    pub fn same(&self, other: &Version) -> (r: bool)
        ensures
            r == version_same(self@, other@),
    {
        self.channel == other.channel && self.version == other.version
            && self.commit.date.same_day(&other.commit.date)
    }

    /// Whether `self` comes strictly before `other`.
    pub fn before(&self, other: &Version) -> (r: bool)
        ensures
            r == version_less(self@, other@),
    {
        let a = self.channel.to_u8();
        let b = other.channel.to_u8();
        if a != b {
            return a < b;
        }
        if text_less(self.version.as_str(), other.version.as_str()) {
            return true;
        }
        self.version == other.version && self.commit.date.before(&other.commit.date)
    }
}

impl PartialEq for Version {
    fn eq(&self, other: &Version) -> (r: bool) {
        self.same(other)
    }
}

impl vstd::std_specs::cmp::PartialEqSpecImpl for Version {
    open spec fn obeys_eq_spec() -> bool {
        true
    }

    open spec fn eq_spec(&self, other: &Version) -> bool {
        version_same(self@, other@)
    }
}

impl Eq for Version {

}

impl PartialOrd for Version {
    fn partial_cmp(&self, other: &Version) -> (r: Option<Ordering>) {
        proof {
            lemma_version_order(self@, other@);
        }
        if self.before(other) {
            Some(Ordering::Less)
        } else if other.before(self) {
            Some(Ordering::Greater)
        } else {
            Some(Ordering::Equal)
        }
    }
}

impl vstd::std_specs::cmp::PartialOrdSpecImpl for Version {
    open spec fn obeys_partial_cmp_spec() -> bool {
        true
    }

    open spec fn partial_cmp_spec(&self, other: &Version) -> Option<Ordering> {
        if version_less(self@, other@) {
            Some(Ordering::Less)
        } else if version_same(self@, other@) {
            Some(Ordering::Equal)
        } else {
            Some(Ordering::Greater)
        }
    }
}

/// Of two versions exactly one holds: the first comes before the second, they
/// count as the same, or the second comes before the first.
pub proof fn lemma_version_order(a: VersionView, b: VersionView)
    ensures
        version_less(a, b) || version_same(a, b) || version_less(b, a),
        !(version_less(a, b) && version_same(a, b)),
        !(version_less(b, a) && version_same(a, b)),
        !(version_less(a, b) && version_less(b, a)),
{
    lemma_lex_total(a.version, b.version);
    lemma_lex_irreflexive(a.version);
    if lex_less(a.version, b.version) {
        lemma_lex_asymmetric(a.version, b.version);
    }
}

/// The operators on versions go by `version_less` and `version_same`: `<`
/// holds where the first comes before the second, `>` where the second comes
/// before the first, and `==` where they count as the same, which is where
/// neither `<` nor `>` holds.
pub proof fn lemma_version_operators(a: Version, b: Version)
    ensures
        a.partial_cmp_spec(&b) == Some(Ordering::Less) <==> version_less(a@, b@),
        a.partial_cmp_spec(&b) == Some(Ordering::Greater) <==> version_less(b@, a@),
        a.partial_cmp_spec(&b) == Some(Ordering::Equal) <==> version_same(a@, b@),
        a.eq_spec(&b) <==> a.partial_cmp_spec(&b) == Some(Ordering::Equal),
{
    lemma_version_order(a@, b@);
}

/// The order of versions is a strict total order: of any two versions
/// exactly one of `<`, `==` and `>` holds, and `<` is transitive.
pub proof fn lemma_version_total_order(a: Version, b: Version, c: Version)
    ensures
        ({
            let less = a.partial_cmp_spec(&b) == Some(Ordering::Less);
            let same = a.eq_spec(&b);
            let greater = a.partial_cmp_spec(&b) == Some(Ordering::Greater);
            &&& less || same || greater
            &&& !(less && same)
            &&& !(less && greater)
            &&& !(same && greater)
        }),
        a.partial_cmp_spec(&b) == Some(Ordering::Less) && b.partial_cmp_spec(&c) == Some(
            Ordering::Less,
        ) ==> a.partial_cmp_spec(&c) == Some(Ordering::Less),
{
    lemma_version_order(a@, b@);
    if version_less(a@, b@) && version_less(b@, c@) {
        lemma_version_order_transitive(a@, b@, c@);
    }
}

/// The order of versions is transitive.
pub proof fn lemma_version_order_transitive(a: VersionView, b: VersionView, c: VersionView)
    requires
        version_less(a, b),
        version_less(b, c),
    ensures
        version_less(a, c),
{
    if a.channel == b.channel && b.channel == c.channel {
        if lex_less(a.version, b.version) && lex_less(b.version, c.version) {
            lemma_lex_transitive(a.version, b.version, c.version);
        }
    }
}

/// Two commits of the same date are equal, whatever their hashes.
pub proof fn lemma_commit_equality_ignores_hash(a: Commit, b: Commit)
    requires
        a.date == b.date,
    ensures
        a.eq_spec(&b),
        a.partial_cmp_spec(&b) == Some(Ordering::Equal),
{
    lemma_date_by_day(a.date, b.date);
}

} // verus!
