//! The resolver: the search, backward in time, for the nearest release that
//! offers every installed component.
//!
//! A [`Rust`] is the search's cursor. The search itself does no fetching: it
//! says which day's descriptor it needs next ([`Rust::action`]) and takes what
//! the release source gave for that day ([`Rust::step`]). [`Rust::resolve`]
//! runs the same steps over outcomes that were fetched beforehand.

use crate::date::{date_on, day_text, lemma_date_on, parsed_day, Date, MAX_DAY, MIN_DAY};
use crate::manifest::{listed_version, missing_names, Manifest};
use crate::text::texts;
use crate::toolchain::{names_of, optional_names, update_of, Component, Toolchain};
use crate::version::Version;
use vstd::prelude::*;

verus! {

/// The number of days that a search for the nearest release examines at most.
pub const LOOKBACK_DAYS: usize = 31;

/// Where a search ends.
#[derive(Clone, Copy, Debug, PartialEq, Eq, Structural)]
pub enum Mode {
    /// Looks for something newer: the search does not go past the date of the
    /// installed release.
    NewerOnly,
    /// Looks for the nearest release, older ones included: the search passes
    /// over no more than `LOOKBACK_DAYS` days.
    Nearest,
}

/// What the release source gave for one day.
#[derive(Debug)]
pub enum Fetched {
    /// The day's descriptor.
    Descriptor(Manifest),
    /// Nothing was published that day.
    NotFound,
    /// The source could not be reached; the text says why.
    TransportError(String),
}

/// Why a day's release does not qualify.
#[derive(Debug)]
pub enum Reason {
    /// Nothing was published that day.
    NotPublished,
    /// The source could not be reached; the text says why.
    Transport(String),
    /// The release lacks the named components.
    Missing(Vec<String>),
}

/// A day that the search examined and passed over.
#[derive(Debug)]
pub struct Rejected {
    pub date: Date,
    pub reason: Reason,
}

/// What a search asks of its caller.
#[derive(Clone, Copy, Debug, PartialEq, Eq, Structural)]
pub enum Action {
    /// Fetch the descriptor of this day and hand the outcome to `step`.
    Fetch(Date),
    /// The cursor stands on the nearest release that qualifies.
    Found,
    /// No day within the search's bounds is left.
    Exhausted,
}

/// What to advise once a search has ended.
#[derive(Debug)]
pub enum Recommendation {
    /// The installed release is the nearest that qualifies.
    UpToDate,
    /// A release newer than the installed one qualifies. `components` holds a
    /// line for each optional component that it brings in a later version.
    Update { date: Date, components: Vec<String> },
    /// Only a release older than the installed one qualifies. `components`
    /// names the optional components to add to it.
    Pin { date: Date, components: Vec<String> },
    /// No release within the search's bounds qualifies.
    NoMatch,
}

/// The cursor of a search.
#[derive(Debug)]
pub struct Rust {
    /// The day the search counts back from.
    pub today: Date,
    /// How many days before `today` the cursor stands; one less than that
    /// before the first step.
    pub offset: i64,
    /// The day the cursor stands on.
    pub date: Date,
    pub toolchain: Toolchain,
    /// The descriptor of the day the cursor stands on, where there is one.
    pub manifest: Option<Manifest>,
    /// The days examined and passed over, nearest first.
    pub rejected: Vec<Rejected>,
}

/// The descriptor that a fetch gave, if it gave one.
pub open spec fn descriptor_of(fetched: Fetched) -> Option<Manifest> {
    match fetched {
        Fetched::Descriptor(manifest) => Some(manifest),
        _ => None,
    }
}

/// The installed components that a day's release lacks. A day without a
/// descriptor lacks them all.
pub open spec fn missing_of(t: Toolchain, manifest: Option<Manifest>) -> Seq<Seq<char>> {
    match manifest {
        Some(m) => missing_names(m, names_of(t.components@), t.target@),
        None => names_of(t.components@),
    }
}

/// Whether a day's release qualifies: it has a descriptor, and the descriptor
/// offers every installed component for the installed target.
pub open spec fn qualifies(t: Toolchain, manifest: Option<Manifest>) -> bool {
    manifest is Some && missing_of(t, manifest).len() == 0
}

/// Whether the day numbered `day` lies within the bounds of a search that
/// has passed over `passed` days already: the calendar holds the day, and the
/// mode admits it.
pub open spec fn within(mode: Mode, installed: int, day: int, passed: int) -> bool {
    &&& MIN_DAY <= day <= MAX_DAY
    &&& match mode {
        Mode::NewerOnly => installed <= day,
        Mode::Nearest => passed < LOOKBACK_DAYS,
    }
}

/// Whether the cursor stands on a day that the search has examined. Before
/// the first step it stands one day off its offset.
pub open spec fn examined(r: Rust) -> bool {
    r.date@ == r.today@ - r.offset
}

/// What a search asks for from the cursor `r`.
pub open spec fn action_of(r: Rust, mode: Mode, installed: Date) -> Action {
    let passed = r.rejected@.len() as int;
    if examined(r) && qualifies(r.toolchain, r.manifest) && within(
        mode,
        installed@,
        r.date@,
        passed,
    ) {
        Action::Found
    } else if within(mode, installed@, r.today@ - (r.offset + 1), passed) {
        Action::Fetch(date_on(r.today@ - (r.offset + 1)))
    } else {
        Action::Exhausted
    }
}

/// Whether `rejected` records that the day `date` was passed over for what
/// `fetched` gave.
pub open spec fn records(rejected: Rejected, date: Date, t: Toolchain, fetched: Fetched) -> bool {
    &&& rejected.date == date
    &&& match fetched {
        Fetched::NotFound => rejected.reason is NotPublished,
        Fetched::TransportError(why) => rejected.reason == Reason::Transport(why),
        Fetched::Descriptor(m) => rejected.reason matches Reason::Missing(names) && texts(names@)
            == missing_of(t, Some(m)),
    }
}

/// Where a search ends that stands `offset` days before `today`, has passed
/// over `passed` days, and is given `outcomes` for the days it asks for, in
/// turn: the offset it ends on, and whether the day at that offset qualifies.
pub open spec fn scan_end(
    t: Toolchain,
    mode: Mode,
    installed: int,
    today: int,
    offset: int,
    passed: int,
    outcomes: Seq<Fetched>,
) -> (int, bool)
    decreases outcomes.len(),
{
    if outcomes.len() == 0 || !within(mode, installed, today - (offset + 1), passed) {
        (offset, false)
    } else if qualifies(t, descriptor_of(outcomes[0])) {
        (offset + 1, true)
    } else {
        scan_end(t, mode, installed, today, offset + 1, passed + 1, outcomes.drop_first())
    }
}

/// The lines that announce, for a release, each optional component that it
/// brings in a later version than the installed one.
pub open spec fn update_lines(components: Seq<Component>, m: Manifest) -> Seq<Seq<char>>
    decreases components.len(),
{
    if components.len() == 0 {
        Seq::empty()
    } else {
        let earlier = update_lines(components.drop_last(), m);
        let c = components.last();
        match update_of(c.name@, c.version, listed_version(m, c.name@)) {
            Some(line) if !c.required => earlier.push(line),
            _ => earlier,
        }
    }
}

impl Rust {
    /// The cursor of a search that starts today. `manifest` is today's
    /// descriptor, where it is at hand.
    pub fn new(toolchain: Toolchain, today: Date, manifest: Option<Manifest>) -> (r: Rust)
        ensures
            r.today == today,
            r.offset == -1,
            r.date == today,
            r.toolchain == toolchain,
            r.manifest == manifest,
            r.rejected@.len() == 0,
    {
        Rust { today, offset: -1, date: today, toolchain, manifest, rejected: Vec::new() }
    }

    /// The cursor of a search that starts on the day written in `date_str` as
    /// `YYYY-MM-DD`. `manifest` is that day's descriptor, where it is at hand.
    /// There is no cursor where the text is no date.
    pub fn from_date(
        toolchain: Toolchain,
        today: Date,
        date_str: &str,
        manifest: Option<Manifest>,
    ) -> (r: Option<Rust>)
        ensures
            r is Some <==> parsed_day(date_str@) is Some,
            r matches Some(rust) ==> {
                &&& rust.today == today
                &&& parsed_day(date_str@) == Some(rust.date@)
                &&& rust.offset == today@ - rust.date@ - 1
                &&& rust.toolchain == toolchain
                &&& rust.manifest == manifest
                &&& rust.rejected@.len() == 0
            },
    {
        let date = match Date::parse(date_str) {
            Some(date) => date,
            None => {
                return None;
            },
        };
        let offset = today.days_since(&date) - 1;
        Some(Rust { today, offset, date, toolchain, manifest, rejected: Vec::new() })
    }

    /// The installed components that the release under the cursor lacks.
    /// Where the day has no descriptor, these are all of them.
    pub fn missing_components(&self) -> (r: Vec<String>)
        ensures
            texts(r@) == missing_of(self.toolchain, self.manifest),
    {
        match &self.manifest {
            Some(manifest) => self.toolchain.missing_components(manifest),
            None => self.toolchain.component_names(),
        }
    }

    /// Whether the release under the cursor qualifies.
    pub fn qualifies(&self) -> (r: bool)
        ensures
            r == qualifies(self.toolchain, self.manifest),
    {
        if self.manifest.is_none() {
            return false;
        }
        let missing = self.missing_components();
        missing.len() == 0
    }

    /// The version of the package `name` in the release under the cursor.
    pub fn manifest_pkg_version(&self, name: &str) -> (r: Option<Version>)
        ensures
            r == match self.manifest {
                Some(m) => listed_version(m, name@),
                None => None,
            },
    {
        match &self.manifest {
            Some(manifest) => manifest.pkg_version(name),
            None => None,
        }
    }

    /// The day the cursor stands on, written as `YYYY-MM-DD`.
    pub fn date_str(&self) -> (r: String)
        ensures
            r@ == day_text(self.date@),
    {
        self.date.to_text()
    }

    /// Where the release under the cursor qualifies: a line for each optional
    /// component that it brings in a later version than the installed one.
    pub fn update_info(&self) -> (r: Option<Vec<String>>)
        ensures
            r is Some <==> qualifies(self.toolchain, self.manifest),
            r matches Some(lines) ==> texts(lines@) == update_lines(
                self.toolchain.components@,
                self.manifest->0,
            ),
    {
        if !self.qualifies() {
            return None;
        }
        let manifest = match &self.manifest {
            Some(manifest) => manifest,
            None => {
                return None;
            },
        };
        let mut out: Vec<String> = Vec::new();
        let mut i: usize = 0;
        while i < self.toolchain.components.len()
            invariant
                i <= self.toolchain.components.len(),
                self.manifest == Some(*manifest),
                texts(out@) == update_lines(self.toolchain.components@.take(i as int), *manifest),
            decreases self.toolchain.components.len() - i,
        {
            let c = &self.toolchain.components[i];
            assert(self.toolchain.components@.take(i + 1).drop_last()
                =~= self.toolchain.components@.take(i as int));
            if !c.required {
                match c.update_info(manifest.pkg_version(c.name.as_str())) {
                    Some(line) => {
                        out.push(line);
                    },
                    None => {},
                }
            }
            i += 1;
        }
        assert(self.toolchain.components@.take(i as int) =~= self.toolchain.components@);
        Some(out)
    }

    /// What the search asks for next.
    pub fn action(&self, mode: Mode, installed: Date) -> (r: Action)
        ensures
            r == action_of(*self, mode, installed),
    {
        proof {
            use_type_invariant(&self.today);
        }
        let admitted = match mode {
            Mode::NewerOnly => !self.date.before(&installed),
            Mode::Nearest => self.rejected.len() < LOOKBACK_DAYS,
        };
        let stands = match self.today.minus_days(self.offset) {
            Some(day) => day.same_day(&self.date),
            None => false,
        };
        if stands && admitted && self.qualifies() {
            return Action::Found;
        }
        if self.offset == i64::MAX {
            return Action::Exhausted;
        }
        match self.today.minus_days(self.offset + 1) {
            Some(day) => {
                let admitted = match mode {
                    Mode::NewerOnly => !day.before(&installed),
                    Mode::Nearest => self.rejected.len() < LOOKBACK_DAYS,
                };
                if admitted {
                    Action::Fetch(day)
                } else {
                    Action::Exhausted
                }
            },
            None => Action::Exhausted,
        }
    }

    /// Takes what the release source gave for the day that the search asked
    /// for, and moves the cursor onto that day. A day that does not qualify is
    /// added to the days passed over. A search that asks for no day stays as
    /// it is.
    pub fn step(self, mode: Mode, installed: Date, fetched: Fetched) -> (r: Rust)
        ensures
            match action_of(self, mode, installed) {
                Action::Fetch(date) => {
                    &&& r.today == self.today
                    &&& r.offset == self.offset + 1
                    &&& r.date == date
                    &&& r.date@ == self.today@ - r.offset
                    &&& r.toolchain == self.toolchain
                    &&& r.manifest == descriptor_of(fetched)
                    &&& if qualifies(self.toolchain, descriptor_of(fetched)) {
                        r.rejected == self.rejected
                    } else {
                        &&& r.rejected@.len() == self.rejected@.len() + 1
                        &&& r.rejected@.drop_last() == self.rejected@
                        &&& records(r.rejected@.last(), date, self.toolchain, fetched)
                    }
                },
                _ => r == self,
            },
    {
        let date = match self.action(mode, installed) {
            Action::Fetch(date) => date,
            _ => {
                return self;
            },
        };
        proof {
            use_type_invariant(&self.today);
            lemma_date_on(self.today@ - (self.offset + 1));
        }
        let mut next = Rust {
            today: self.today,
            offset: self.offset + 1,
            date,
            toolchain: self.toolchain,
            manifest: None,
            rejected: self.rejected,
        };
        match fetched {
            Fetched::Descriptor(manifest) => {
                next.manifest = Some(manifest);
                let missing = next.missing_components();
                if missing.len() > 0 {
                    next.rejected.push(Rejected { date, reason: Reason::Missing(missing) });
                }
            },
            Fetched::NotFound => {
                next.rejected.push(Rejected { date, reason: Reason::NotPublished });
            },
            Fetched::TransportError(why) => {
                next.rejected.push(Rejected { date, reason: Reason::Transport(why) });
            },
        }
        next
    }

    /// Runs the search over outcomes that were fetched beforehand:
    /// `outcomes[0]` for the day the search asks for first, `outcomes[1]` for
    /// the day before it, and so on. The search stops on the first day that
    /// qualifies, at its bounds, or when the outcomes run out.
    pub fn resolve(self, mode: Mode, installed: Date, outcomes: Vec<Fetched>) -> (r: Rust)
        ensures
            action_of(self, mode, installed) is Found ==> r == self,
            !(action_of(self, mode, installed) is Found) ==> {
                let end = scan_end(
                    self.toolchain,
                    mode,
                    installed@,
                    self.today@,
                    self.offset as int,
                    self.rejected@.len() as int,
                    outcomes@,
                );
                &&& r.today == self.today
                &&& r.toolchain == self.toolchain
                &&& r.offset == end.0
                &&& end.0 > self.offset ==> r.date@ == self.today@ - end.0 && r.manifest
                    == descriptor_of(outcomes@[end.0 - self.offset - 1])
                &&& end.0 == self.offset ==> r == self
                &&& end.1 <==> action_of(r, mode, installed) is Found
                &&& r.rejected@.len() == self.rejected@.len() + (end.0 - self.offset) - if end.1 {
                    1int
                } else {
                    0int
                }
                &&& r.rejected@.take(self.rejected@.len() as int) == self.rejected@
                &&& forall|i: int|
                    0 <= i < r.rejected@.len() - self.rejected@.len() ==> records(
                        #[trigger] r.rejected@[self.rejected@.len() + i],
                        date_on(self.today@ - (self.offset + 1 + i)),
                        self.toolchain,
                        outcomes@[i],
                    )
            },
    {
        let ghost start = self.offset as int;
        let ghost held = self.rejected@.len() as int;
        let ghost toolchain = self.toolchain;
        let ghost today = self.today;
        let ghost first = self;
        let mut state = self;
        let mut rest = outcomes;
        loop
            invariant
                state.today == today,
                state.toolchain == toolchain,
                first.today == today,
                first.toolchain == toolchain,
                first.offset == start,
                start <= state.offset,
                state.offset - start <= outcomes@.len(),
                rest@ == outcomes@.skip(state.offset - start),
                state.offset == start ==> state == first,
                state.offset > start ==> state.date@ == today@ - state.offset && state.manifest
                    == descriptor_of(outcomes@[state.offset - start - 1]) && (action_of(
                    state,
                    mode,
                    installed,
                ) is Found <==> qualifies(toolchain, state.manifest)),
                held == first.rejected@.len(),
                state.rejected@.len() == held + (state.offset - start) - if state.offset > start
                    && qualifies(toolchain, state.manifest) {
                    1int
                } else {
                    0int
                },
                state.rejected@.take(held) == first.rejected@,
                forall|i: int|
                    0 <= i < state.rejected@.len() - held ==> records(
                        #[trigger] state.rejected@[held + i],
                        date_on(today@ - (start + 1 + i)),
                        toolchain,
                        outcomes@[i],
                    ),
                action_of(first, mode, installed) is Found ==> state == first,
                !(action_of(first, mode, installed) is Found) ==> {
                    if action_of(state, mode, installed) is Found {
                        scan_end(toolchain, mode, installed@, today@, start, held, outcomes@) == (
                            state.offset as int,
                            true,
                        )
                    } else {
                        scan_end(toolchain, mode, installed@, today@, start, held, outcomes@)
                            == scan_end(
                            toolchain,
                            mode,
                            installed@,
                            today@,
                            state.offset as int,
                            state.rejected@.len() as int,
                            rest@,
                        )
                    }
                },
            ensures
                action_of(state, mode, installed) is Fetch ==> rest@.len() == 0,
            decreases rest@.len(),
        {
            let action = state.action(mode, installed);
            if rest.len() == 0 {
                break ;
            }
            match action {
                Action::Fetch(_) => {},
                _ => {
                    break ;
                },
            }
            let ghost before = state;
            let fetched = rest.remove(0);
            proof {
                lemma_date_on(today@ - (state.offset + 1));
            }
            state = state.step(mode, installed, fetched);
            proof {
                let grown = state.rejected@;
                assert forall|i: int| 0 <= i < grown.len() - held implies records(
                    #[trigger] grown[held + i],
                    date_on(today@ - (start + 1 + i)),
                    toolchain,
                    outcomes@[i],
                ) by {
                    if held + i < before.rejected@.len() {
                        assert(grown[held + i] == before.rejected@[held + i]);
                    }
                }
            }
        }
        state
    }

    /// What to advise at the cursor: with a release found, to update where
    /// it is newer than the installed one, to stay where it is the installed
    /// one, to pin it where it is older; with none found, that nothing
    /// matches.
    pub fn recommend(&self, mode: Mode, installed: Date) -> (r: Recommendation)
        ensures
            !(action_of(*self, mode, installed) is Found) ==> r is NoMatch,
            action_of(*self, mode, installed) is Found ==> {
                if self.date@ > installed@ {
                    &&& r matches Recommendation::Update { date, components }
                    &&& date == self.date
                    &&& texts(components@) == update_lines(
                        self.toolchain.components@,
                        self.manifest->0,
                    )
                } else if self.date@ == installed@ {
                    r is UpToDate
                } else {
                    &&& r matches Recommendation::Pin { date, components }
                    &&& date == self.date
                    &&& texts(components@) == optional_names(self.toolchain.components@)
                }
            },
    {
        match self.action(mode, installed) {
            Action::Found => {},
            _ => {
                return Recommendation::NoMatch;
            },
        }
        if installed.before(&self.date) {
            match self.update_info() {
                Some(components) => Recommendation::Update { date: self.date, components },
                None => Recommendation::NoMatch,
            }
        } else if self.date.same_day(&installed) {
            Recommendation::UpToDate
        } else {
            Recommendation::Pin { date: self.date, components: self.toolchain.component_list() }
        }
    }
}

/// A search for something newer never stands, found, on a day before the
/// installed release's.
pub proof fn lemma_newer_only_never_older(r: Rust, installed: Date)
    requires
        action_of(r, Mode::NewerOnly, installed) is Found,
    ensures
        installed@ <= r.date@,
{
}

/// A search for something newer never asks for a day before the installed
/// release's.
pub proof fn lemma_newer_only_never_fetches_older(r: Rust, installed: Date)
    requires
        action_of(r, Mode::NewerOnly, installed) is Fetch,
    ensures
        installed@ <= action_of(r, Mode::NewerOnly, installed)->Fetch_0@,
{
    lemma_date_on(r.today@ - (r.offset + 1));
}

/// A search for the nearest release passes over no more than
/// `LOOKBACK_DAYS` days: it asks for a day only while it has passed over
/// fewer.
pub proof fn lemma_nearest_is_bounded(r: Rust, installed: Date)
    requires
        r.rejected@.len() >= LOOKBACK_DAYS,
    ensures
        action_of(r, Mode::Nearest, installed) is Exhausted,
{
}

/// Where a search ends on a day that qualifies, that day lies within the
/// search's bounds, and none of the days examined before it qualifies: the
/// nearest qualifying day wins.
pub proof fn lemma_scan_finds_nearest(
    t: Toolchain,
    mode: Mode,
    installed: int,
    today: int,
    offset: int,
    passed: int,
    outcomes: Seq<Fetched>,
)
    requires
        scan_end(t, mode, installed, today, offset, passed, outcomes).1,
    ensures
        ({
            let taken = scan_end(t, mode, installed, today, offset, passed, outcomes).0 - offset;
            &&& 0 < taken <= outcomes.len()
            &&& within(mode, installed, today - (offset + taken), passed + taken - 1)
            &&& qualifies(t, descriptor_of(outcomes[taken - 1]))
            &&& forall|i: int|
                0 <= i < taken - 1 ==> !qualifies(t, descriptor_of(#[trigger] outcomes[i]))
        }),
    decreases outcomes.len(),
{
    if !qualifies(t, descriptor_of(outcomes[0])) {
        let rest = outcomes.drop_first();
        lemma_scan_finds_nearest(t, mode, installed, today, offset + 1, passed + 1, rest);
        let taken = scan_end(t, mode, installed, today, offset, passed, outcomes).0 - offset;
        assert forall|i: int| 0 <= i < taken - 1 implies !qualifies(
            t,
            descriptor_of(#[trigger] outcomes[i]),
        ) by {
            if i > 0 {
                assert(rest[i - 1] == outcomes[i]);
            }
        }
    }
}

/// Where a search ends without a day that qualifies, none of the days it
/// examined qualifies, and it ended at its bounds or for want of outcomes.
pub proof fn lemma_scan_without_match(
    t: Toolchain,
    mode: Mode,
    installed: int,
    today: int,
    offset: int,
    passed: int,
    outcomes: Seq<Fetched>,
)
    requires
        !scan_end(t, mode, installed, today, offset, passed, outcomes).1,
    ensures
        ({
            let taken = scan_end(t, mode, installed, today, offset, passed, outcomes).0 - offset;
            &&& 0 <= taken <= outcomes.len()
            &&& taken == outcomes.len() || !within(
                mode,
                installed,
                today - (offset + taken + 1),
                passed + taken,
            )
            &&& forall|i: int|
                0 <= i < taken ==> !qualifies(t, descriptor_of(#[trigger] outcomes[i]))
        }),
    decreases outcomes.len(),
{
    if outcomes.len() > 0 && within(mode, installed, today - (offset + 1), passed) {
        let rest = outcomes.drop_first();
        lemma_scan_without_match(t, mode, installed, today, offset + 1, passed + 1, rest);
        let taken = scan_end(t, mode, installed, today, offset, passed, outcomes).0 - offset;
        assert forall|i: int| 0 <= i < taken implies !qualifies(
            t,
            descriptor_of(#[trigger] outcomes[i]),
        ) by {
            if i > 0 {
                assert(rest[i - 1] == outcomes[i]);
            }
        }
    }
}

} // verus!
