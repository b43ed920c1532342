//! The installed toolchain: its channel, its target and its components.

use crate::date::Date;
use crate::manifest::{listed_version, missing_names, Manifest};
use crate::text::{chars_of, find_char, index_of, joined, lemma_index_of, print_vec, same_text, texts};
use crate::version::{version_less, version_text, Version, VersionView};
use vstd::prelude::*;

verus! {

/// A component of the installed toolchain.
#[derive(Debug)]
pub struct Component {
    pub name: String,
    /// Whether the component is part of every toolchain.
    pub required: bool,
    /// The version that is installed, where it is known.
    pub version: Option<Version>,
}

/// Whether a component of this name is part of every toolchain.
pub open spec fn is_required(name: Seq<char>) -> bool {
    name == "rustc"@ || name == "cargo"@
}

/// The line that announces a component's move from one version to another.
pub open spec fn update_line(name: Seq<char>, from: VersionView, to: VersionView) -> Seq<char> {
    name + " - from "@ + version_text(from) + " to "@ + version_text(to)
}

/// What is announced of a component that is installed in version `installed`
/// and published in version `published`: the move, where both are known and
/// the published one is the later.
pub open spec fn update_of(
    name: Seq<char>,
    installed: Option<Version>,
    published: Option<Version>,
) -> Option<Seq<char>> {
    match (installed, published) {
        (Some(from), Some(to)) => if version_less(from@, to@) {
            Some(update_line(name, from@, to@))
        } else {
            None
        },
        _ => None,
    }
}

impl Clone for Component {
    fn clone(&self) -> (r: Component)
        ensures
            r == *self,
    {
        Component {
            name: self.name.clone(),
            required: self.required,
            version: match &self.version {
                Some(version) => Some(version.clone()),
                None => None,
            },
        }
    }
}

impl Component {
    /// The component `name` as the descriptor of the installed release lists
    /// it.
    pub fn from(manifest: &Manifest, name: &str) -> (r: Component)
        ensures
            r.name@ == name@,
            r.required == is_required(name@),
            r.version == listed_version(*manifest, name@),
    {
        let required = same_text(name, "rustc") || same_text(name, "cargo");
        Component { name: name.to_owned(), required, version: manifest.pkg_version(name) }
    }

    /// The line that announces the component's move to the version `other`,
    /// where that version is later than the installed one.
    pub fn update_info(&self, other: Option<Version>) -> (r: Option<String>)
        ensures
            opt_line(r) == update_of(self.name@, self.version, other),
    {
        match (&self.version, &other) {
            (Some(version), Some(other)) => {
                if version.before(other) {
                    let mut line = self.name.clone();
                    line.append(" - from ");
                    let from = version.to_string();
                    line.append(from.as_str());
                    line.append(" to ");
                    let to = other.to_string();
                    line.append(to.as_str());
                    Some(line)
                } else {
                    None
                }
            },
            _ => None,
        }
    }
}

/// The characters of an optional line.
pub open spec fn opt_line(o: Option<String>) -> Option<Seq<char>> {
    match o {
        Some(s) => Some(s@),
        None => None,
    }
}

/// The installed toolchain, as it is captured once per run.
#[derive(Debug)]
pub struct Toolchain {
    pub channel: String,
    pub target: String,
    pub components: Vec<Component>,
    /// The descriptor of the installed release.
    pub manifest: Manifest,
}

/// The names of the components, in their order.
pub open spec fn names_of(components: Seq<Component>) -> Seq<Seq<char>> {
    Seq::new(components.len(), |i: int| components[i].name@)
}

/// The names of the components that are not part of every toolchain, in
/// their order.
pub open spec fn optional_names(components: Seq<Component>) -> Seq<Seq<char>>
    decreases components.len(),
{
    if components.len() == 0 {
        Seq::empty()
    } else {
        let earlier = optional_names(components.drop_last());
        if components.last().required {
            earlier
        } else {
            earlier.push(components.last().name@)
        }
    }
}

/// The channel and the target that a toolchain's name holds: what stands
/// before its first hyphen, and what stands behind it.
pub open spec fn channel_target_of(toolchain: Seq<char>) -> Option<(Seq<char>, Seq<char>)> {
    let dash = index_of(toolchain, '-');
    if dash == toolchain.len() {
        None
    } else {
        Some((toolchain.take(dash), toolchain.skip(dash + 1)))
    }
}

/// Reads the channel and the target out of a toolchain's name, such as
/// `nightly-x86_64-pc-windows-gnu`.
pub fn current_channel_target(toolchain: &str) -> (r: Option<(String, String)>)
    ensures
        match channel_target_of(toolchain@) {
            Some((channel, target)) => r matches Some((c, t)) && c@ == channel && t@ == target,
            None => r is None,
        },
{
    let v = chars_of(toolchain);
    let n = v.len();
    let dash = find_char(&v, 0, n, '-');
    assert(v@.subrange(0, n as int) =~= toolchain@);
    if dash == n {
        return None;
    }
    let channel = toolchain.substring_char(0, dash);
    let target = toolchain.substring_char(dash + 1, n);
    Some((channel.to_owned(), target.to_owned()))
}

/// Whether `pattern` stands in `s` from the place `i` on.
pub open spec fn occurs_at(s: Seq<char>, i: int, pattern: Seq<char>) -> bool {
    &&& 0 <= i
    &&& i + pattern.len() <= s.len()
    &&& s.subrange(i, i + pattern.len()) == pattern
}

/// `s` without the occurrences of `pattern`, found from left to right; an
/// empty pattern occurs nowhere.
pub open spec fn without(s: Seq<char>, pattern: Seq<char>) -> Seq<char>
    decreases s.len(),
{
    if s.len() == 0 {
        s
    } else if pattern.len() > 0 && occurs_at(s, 0, pattern) {
        without(s.skip(pattern.len() as int), pattern)
    } else {
        seq![s[0]] + without(s.drop_first(), pattern)
    }
}

/// The names of the components that a toolchain's component list holds for
/// `target`: each line of the list that is not empty, without the hyphen and
/// target that follow a name.
pub open spec fn component_names(contents: Seq<char>, target: Seq<char>) -> Seq<Seq<char>>
    decreases contents.len(),
{
    let end = index_of(contents, '\n');
    let line = contents.take(end);
    let first = if line.len() > 0 {
        seq![without(line, seq!['-'] + target)]
    } else {
        Seq::empty()
    };
    if 0 <= end < contents.len() {
        first + component_names(contents.skip(end + 1), target)
    } else {
        first
    }
}

/// Whether `pattern` stands in `v` from the place `i` on.
fn matches_at(v: &Vec<char>, i: usize, pattern: &Vec<char>) -> (r: bool)
    requires
        i <= v.len(),
    ensures
        r == occurs_at(v@, i as int, pattern@),
{
    if pattern.len() > v.len() - i {
        return false;
    }
    let mut k: usize = 0;
    while k < pattern.len()
        invariant
            k <= pattern.len(),
            i + pattern.len() <= v.len(),
            forall|j: int| 0 <= j < k ==> v@[i + j] == pattern@[j],
        decreases pattern.len() - k,
    {
        if v[i + k] != pattern[k] {
            return false;
        }
        k += 1;
    }
    assert(v@.subrange(i as int, i + pattern.len()) =~= pattern@);
    true
}

/// `line` without the occurrences of `pattern`.
fn remove_all(line: &str, pattern: &Vec<char>) -> (r: String)
    requires
        pattern.len() > 0,
    ensures
        r@ == without(line@, pattern@),
{
    let v = chars_of(line);
    let n = v.len();
    let mut out = String::new();
    let mut kept: usize = 0;
    let mut i: usize = 0;
    assert(line@.skip(0) =~= line@);
    while i < n
        invariant
            kept <= i <= n,
            n == v.len(),
            v@ == line@,
            pattern.len() > 0,
            without(line@, pattern@) == out@ + line@.subrange(kept as int, i as int) + without(
                line@.skip(i as int),
                pattern@,
            ),
        decreases n - i,
    {
        let ghost rest = line@.skip(i as int);
        if matches_at(&v, i, pattern) {
            let run = line.substring_char(kept, i);
            out.append(run);
            assert(rest.subrange(0, pattern.len() as int) =~= line@.subrange(
                i as int,
                i + pattern.len(),
            ));
            assert(rest.skip(pattern.len() as int) =~= line@.skip(i + pattern.len()));
            i += pattern.len();
            kept = i;
        } else {
            proof {
                if i + pattern.len() <= n {
                    assert(rest.subrange(0, pattern.len() as int) =~= line@.subrange(
                        i as int,
                        i + pattern.len(),
                    ));
                }
                assert(rest.drop_first() =~= line@.skip(i + 1));
            }
            i += 1;
        }
    }
    let run = line.substring_char(kept, n);
    out.append(run);
    out
}

/// Reads the names of the installed components out of a toolchain's
/// component list, which holds one component per line, each followed by a
/// hyphen and the target where it is built for one.
pub fn installed_components(contents: &str, target: &str) -> (r: Vec<String>)
    ensures
        texts(r@) == component_names(contents@, target@),
{
    let v = chars_of(contents);
    let n = v.len();
    let mut pattern: Vec<char> = Vec::new();
    pattern.push('-');
    let mut tail = chars_of(target);
    pattern.append(&mut tail);
    let mut out: Vec<String> = Vec::new();
    let mut pos: usize = 0;
    let mut done = false;
    assert(contents@.skip(0) =~= contents@);
    while !done
        invariant
            pos <= n,
            n == v.len(),
            v@ == contents@,
            pattern@ == seq!['-'] + target@,
            !done ==> component_names(contents@, target@) == texts(out@) + component_names(
                contents@.skip(pos as int),
                target@,
            ),
            done ==> component_names(contents@, target@) == texts(out@),
        decreases n - pos + if done { 0int } else { 1int },
    {
        let ghost rest = contents@.skip(pos as int);
        let end = find_char(&v, pos, n, '\n');
        proof {
            lemma_index_of(rest, '\n');
        }
        if end > pos {
            let line = contents.substring_char(pos, end);
            assert(line@ =~= rest.take(end - pos));
            let name = remove_all(line, &pattern);
            out.push(name);
        }
        if end < n {
            assert(rest.skip(end - pos + 1) =~= contents@.skip(end + 1));
            pos = end + 1;
        } else {
            done = true;
        }
    }
    out
}

/// The line that tells which optional components are installed.
pub open spec fn components_line(names: Seq<Seq<char>>) -> Seq<char> {
    if names.len() == 0 {
        "With no components"@
    } else if names.len() == 1 {
        "With component: "@ + names[0]
    } else {
        "With components: "@ + joined(names, ", "@)
    }
}

/// The summary of an installed toolchain.
pub open spec fn info_of(t: Toolchain) -> Seq<char> {
    match listed_version(t.manifest, "rustc"@) {
        Some(version) => "Installed: "@ + t.channel@ + "-"@ + t.target@ + " "@ + version_text(
            version@,
        ) + "\n"@ + components_line(optional_names(t.components@)),
        None => "Not found installed rustc"@,
    }
}

/// The toolchain that the given name, component list and descriptor of the
/// installed release describe.
pub open spec fn describes(
    t: Toolchain,
    toolchain: Seq<char>,
    components: Seq<char>,
    manifest: Manifest,
) -> bool {
    &&& channel_target_of(toolchain) matches Some((channel, target))
    &&& t.channel@ == channel
    &&& t.target@ == target
    &&& t.manifest == manifest
    &&& names_of(t.components@) == component_names(components, target)
    &&& forall|i: int|
        0 <= i < t.components@.len() ==> {
            &&& (#[trigger] t.components@[i]).required == is_required(t.components@[i].name@)
            &&& t.components@[i].version == listed_version(manifest, t.components@[i].name@)
        }
}

impl Toolchain {
    /// The installed toolchain, from its name (channel, hyphen, target), the
    /// text of its component list and the descriptor of the installed
    /// release. There is none where the name holds no hyphen.
    pub fn new(toolchain: &str, components: &str, manifest: Manifest) -> (r: Option<Toolchain>)
        ensures
            r is Some <==> channel_target_of(toolchain@) is Some,
            r matches Some(t) ==> describes(t, toolchain@, components@, manifest),
    {
        let (channel, target) = match current_channel_target(toolchain) {
            Some(pair) => pair,
            None => {
                return None;
            },
        };
        let names = installed_components(components, target.as_str());
        let mut list: Vec<Component> = Vec::new();
        let mut i: usize = 0;
        while i < names.len()
            invariant
                i <= names.len(),
                list.len() == i,
                forall|j: int|
                    0 <= j < i ==> {
                        &&& (#[trigger] list@[j]).name@ == names@[j]@
                        &&& list@[j].required == is_required(list@[j].name@)
                        &&& list@[j].version == listed_version(manifest, list@[j].name@)
                    },
            decreases names.len() - i,
        {
            list.push(Component::from(&manifest, names[i].as_str()));
            i += 1;
        }
        assert(names_of(list@) =~= texts(names@));
        Some(Toolchain { channel, target, components: list, manifest })
    }

    /// The names of the components, in their order.
    pub fn component_names(&self) -> (r: Vec<String>)
        ensures
            texts(r@) == names_of(self.components@),
    {
        let mut out: Vec<String> = Vec::new();
        let mut i: usize = 0;
        while i < self.components.len()
            invariant
                i <= self.components.len(),
                texts(out@) == names_of(self.components@).take(i as int),
            decreases self.components.len() - i,
        {
            let ghost before = texts(out@);
            out.push(self.components[i].name.clone());
            assert(texts(out@) =~= before.push(self.components@[i as int].name@));
            i += 1;
        }
        out
    }

    /// The names of the components that a descriptor lacks for the installed
    /// target, in their order: those it does not resolve, and those it
    /// resolves to a package that is not available.
    pub fn missing_components(&self, manifest: &Manifest) -> (r: Vec<String>)
        ensures
            texts(r@) == missing_names(*manifest, names_of(self.components@), self.target@),
    {
        let ghost names = names_of(self.components@);
        let mut out: Vec<String> = Vec::new();
        let mut i: usize = 0;
        while i < self.components.len()
            invariant
                i <= self.components.len(),
                names == names_of(self.components@),
                texts(out@) == missing_names(*manifest, names.take(i as int), self.target@),
            decreases self.components.len() - i,
        {
            let name = &self.components[i].name;
            assert(names.take(i + 1).drop_last() =~= names.take(i as int));
            if manifest.is_missing(name.as_str(), self.target.as_str()) {
                out.push(name.clone());
            }
            i += 1;
        }
        assert(names.take(i as int) =~= names);
        out
    }

    /// The names of the components that are not part of every toolchain.
    pub fn component_list(&self) -> (r: Vec<String>)
        ensures
            texts(r@) == optional_names(self.components@),
    {
        let mut out: Vec<String> = Vec::new();
        let mut i: usize = 0;
        while i < self.components.len()
            invariant
                i <= self.components.len(),
                texts(out@) == optional_names(self.components@.take(i as int)),
            decreases self.components.len() - i,
        {
            let ghost next = self.components@.take(i + 1);
            assert(next.drop_last() =~= self.components@.take(i as int));
            if !self.components[i].required {
                out.push(self.components[i].name.clone());
            }
            i += 1;
        }
        assert(self.components@.take(i as int) =~= self.components@);
        out
    }

    /// The summary of the installed toolchain: what is installed, and with
    /// which optional components.
    pub fn info(&self) -> (r: String)
        ensures
            r@ == info_of(*self),
    {
        match self.manifest.pkg_version("rustc") {
            Some(version) => {
                let mut out = "Installed: ".to_owned();
                out.append(self.channel.as_str());
                out.append("-");
                out.append(self.target.as_str());
                out.append(" ");
                let text = version.to_string();
                out.append(text.as_str());
                out.append("\n");
                let names = self.component_list();
                if names.len() == 0 {
                    out.append("With no components");
                } else if names.len() == 1 {
                    out.append("With component: ");
                    out.append(names[0].as_str());
                } else {
                    out.append("With components: ");
                    let list = print_vec(names.as_slice(), ", ");
                    out.append(list.as_str());
                }
                out
            },
            None => "Not found installed rustc".to_owned(),
        }
    }

    /// The date of the commit that the installed release was built from,
    /// where the descriptor of the installed release tells it.
    pub fn installed_date(&self) -> (r: Option<Date>)
        ensures
            r == match listed_version(self.manifest, "rust"@) {
                Some(version) => Some(version.commit.date),
                None => None,
            },
    {
        match self.manifest.pkg_version("rust") {
            Some(version) => Some(version.commit.date),
            None => None,
        }
    }
}

} // verus!
