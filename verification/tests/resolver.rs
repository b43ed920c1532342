use toolchain_finder::date::Date;
use toolchain_finder::manifest::{Manifest, PackageInfo};
use toolchain_finder::resolver::{
    Action, Fetched, Mode, Reason, Recommendation, Rust, LOOKBACK_DAYS,
};
use toolchain_finder::table::Table;
use toolchain_finder::toolchain::Toolchain;

const TARGET: &str = "x86_64-pc-windows-gnu";

fn day(text: &str) -> Date {
    Date::parse(text).unwrap()
}

fn offers(entries: &[(&str, bool)]) -> Table<PackageInfo> {
    let mut table = Table::new();
    for (target, available) in entries {
        table.insert(target.to_string(), PackageInfo::new(*available));
    }
    table
}

/// A descriptor of the given day whose packages were built the day before,
/// with clippy on offer or not.
fn descriptor(date: &str, clippy: bool) -> Manifest {
    let date = day(date);
    let commit = date.pred().unwrap().to_text();
    let mut m = Manifest::new(2, date);
    for name in ["rust", "rustc", "cargo"] {
        m.add_package(
            name.to_string(),
            &format!("1.33.0-nightly (abcdef012 {})", commit),
            offers(&[(TARGET, true)]),
        )
        .unwrap();
    }
    m.add_package(
        "clippy".to_string(),
        &format!("0.0.212 (abcdef012 {})", commit),
        offers(&[(TARGET, clippy)]),
    )
    .unwrap();
    m
}

/// rustc and cargo, which every toolchain has, and clippy; installed from the
/// descriptor of the given day.
fn toolchain(installed: &str) -> Toolchain {
    let list = "rustc-x86_64-pc-windows-gnu\ncargo-x86_64-pc-windows-gnu\nclippy-x86_64-pc-windows-gnu\n";
    let local = descriptor(installed, true);
    Toolchain::new("nightly-x86_64-pc-windows-gnu", list, local).unwrap()
}

fn names(v: &[String]) -> Vec<&str> {
    v.iter().map(|s| s.as_str()).collect()
}

#[test]
fn yesterday_qualifies_and_is_newer() {
    let t = toolchain("2019-01-10");
    let installed = t.installed_date().unwrap();
    assert_eq!(installed.to_text(), "2019-01-09");
    for mode in [Mode::NewerOnly, Mode::Nearest] {
        let rust = Rust::new(toolchain("2019-01-10"), day("2019-01-20"), None);
        let outcomes = vec![
            Fetched::Descriptor(descriptor("2019-01-20", false)),
            Fetched::Descriptor(descriptor("2019-01-19", true)),
            Fetched::Descriptor(descriptor("2019-01-18", true)),
        ];
        let found = rust.resolve(mode, installed, outcomes);
        assert_eq!(found.action(mode, installed), Action::Found);
        assert_eq!(found.date, day("2019-01-19"));
        assert_eq!(found.date_str(), "2019-01-19");
        assert_eq!(found.offset, 1);
        assert_eq!(found.manifest.as_ref().unwrap().date, day("2019-01-19"));
        assert!(found.missing_components().is_empty());
        assert_eq!(found.rejected.len(), 1);
        assert_eq!(found.rejected[0].date, day("2019-01-20"));
        match &found.rejected[0].reason {
            Reason::Missing(missing) => assert_eq!(names(missing), vec!["clippy"]),
            other => panic!("{:?}", other),
        }
        match found.recommend(mode, installed) {
            Recommendation::Update { date, components } => {
                assert_eq!(date, day("2019-01-19"));
                assert_eq!(
                    components,
                    vec!["clippy - from 0.0.212 (abcdef012 2019-01-09) to 0.0.212 (abcdef012 2019-01-18)"]
                );
            }
            other => panic!("{:?}", other),
        }
    }
}

#[test]
fn nothing_within_the_window_qualifies() {
    let t = toolchain("2019-01-10");
    let installed = t.installed_date().unwrap();
    let today = day("2019-03-01");
    let mut outcomes = Vec::new();
    for back in 0..40 {
        let date = today.minus_days(back).unwrap().to_text();
        outcomes.push(match back % 3 {
            0 => Fetched::Descriptor(descriptor(&date, false)),
            1 => Fetched::NotFound,
            _ => Fetched::TransportError("connection refused".to_string()),
        });
    }
    let end = Rust::new(t, today, None).resolve(Mode::Nearest, installed, outcomes);
    assert_eq!(end.action(Mode::Nearest, installed), Action::Exhausted);
    assert_eq!(end.offset, 30);
    assert_eq!(end.rejected.len(), LOOKBACK_DAYS);
    assert_eq!(end.date, today.minus_days(30).unwrap());
    assert_eq!(end.rejected.len(), 31);
    assert!(matches!(end.rejected[0].reason, Reason::Missing(_)));
    assert!(matches!(end.rejected[1].reason, Reason::NotPublished));
    match &end.rejected[2].reason {
        Reason::Transport(why) => assert_eq!(why, "connection refused"),
        other => panic!("{:?}", other),
    }
    for (back, rejected) in end.rejected.iter().enumerate() {
        assert_eq!(rejected.date, today.minus_days(back as i64).unwrap());
    }
    assert!(matches!(end.recommend(Mode::Nearest, installed), Recommendation::NoMatch));
}

#[test]
fn a_day_beyond_the_window_is_not_looked_at() {
    let t = toolchain("2019-01-10");
    let installed = t.installed_date().unwrap();
    let today = day("2019-03-01");
    let mut outcomes = Vec::new();
    for back in 0..31 {
        let date = today.minus_days(back).unwrap().to_text();
        outcomes.push(Fetched::Descriptor(descriptor(&date, false)));
    }
    outcomes.push(Fetched::Descriptor(descriptor("2019-01-29", true)));
    let end = Rust::new(t, today, None).resolve(Mode::Nearest, installed, outcomes);
    assert_eq!(end.action(Mode::Nearest, installed), Action::Exhausted);
    assert_eq!(end.offset, 30);
}

#[test]
fn the_last_day_of_the_window_is_looked_at() {
    let t = toolchain("2019-01-10");
    let installed = t.installed_date().unwrap();
    let today = day("2019-03-01");
    let mut outcomes = Vec::new();
    for _ in 0..30 {
        outcomes.push(Fetched::NotFound);
    }
    outcomes.push(Fetched::Descriptor(descriptor("2019-01-30", true)));
    let end = Rust::new(t, today, None).resolve(Mode::Nearest, installed, outcomes);
    assert_eq!(end.action(Mode::Nearest, installed), Action::Found);
    assert_eq!(end.offset, 30);
    assert_eq!(end.date_str(), "2019-01-30");
}

#[test]
fn newer_only_stops_at_the_installed_date() {
    let t = toolchain("2019-01-10");
    let installed = t.installed_date().unwrap();
    let today = day("2019-01-12");
    // 01-12, 01-11, 01-10 lack clippy; 01-09 is the installed date; 01-08 would qualify.
    let outcomes = vec![
        Fetched::Descriptor(descriptor("2019-01-12", false)),
        Fetched::NotFound,
        Fetched::Descriptor(descriptor("2019-01-10", false)),
        Fetched::Descriptor(descriptor("2019-01-09", false)),
        Fetched::Descriptor(descriptor("2019-01-08", true)),
    ];
    let end = Rust::new(t, today, None).resolve(Mode::NewerOnly, installed, outcomes);
    assert_eq!(end.action(Mode::NewerOnly, installed), Action::Exhausted);
    assert_eq!(end.date, installed);
    assert_eq!(end.rejected.len(), 4);
    assert!(matches!(end.recommend(Mode::NewerOnly, installed), Recommendation::NoMatch));
}

#[test]
fn the_installed_date_itself_is_up_to_date() {
    let t = toolchain("2019-01-10");
    let installed = t.installed_date().unwrap();
    let today = day("2019-01-10");
    let outcomes = vec![
        Fetched::Descriptor(descriptor("2019-01-10", false)),
        Fetched::Descriptor(descriptor("2019-01-09", true)),
    ];
    let end = Rust::new(t, today, None).resolve(Mode::NewerOnly, installed, outcomes);
    assert_eq!(end.action(Mode::NewerOnly, installed), Action::Found);
    assert_eq!(end.date, installed);
    assert!(matches!(end.recommend(Mode::NewerOnly, installed), Recommendation::UpToDate));
}

#[test]
fn an_older_release_is_pinned() {
    let t = toolchain("2019-01-10");
    let installed = t.installed_date().unwrap();
    let today = day("2019-01-10");
    let outcomes = vec![
        Fetched::Descriptor(descriptor("2019-01-10", false)),
        Fetched::Descriptor(descriptor("2019-01-09", false)),
        Fetched::TransportError("timed out".to_string()),
        Fetched::Descriptor(descriptor("2019-01-07", true)),
    ];
    let end = Rust::new(t, today, None).resolve(Mode::Nearest, installed, outcomes);
    assert_eq!(end.action(Mode::Nearest, installed), Action::Found);
    assert_eq!(end.date_str(), "2019-01-07");
    match end.recommend(Mode::Nearest, installed) {
        Recommendation::Pin { date, components } => {
            assert_eq!(date, day("2019-01-07"));
            assert_eq!(components, vec!["clippy"]);
        }
        other => panic!("{:?}", other),
    }
    // The same cursor is out of bounds for a search that looks for newer only.
    assert_eq!(end.action(Mode::NewerOnly, installed), Action::Exhausted);
    assert!(matches!(end.recommend(Mode::NewerOnly, installed), Recommendation::NoMatch));
}

#[test]
fn the_nearest_day_wins() {
    let t = toolchain("2019-01-01");
    let installed = t.installed_date().unwrap();
    let today = day("2019-01-20");
    let outcomes = vec![
        Fetched::NotFound,
        Fetched::Descriptor(descriptor("2019-01-19", true)),
        Fetched::Descriptor(descriptor("2019-01-18", true)),
        Fetched::Descriptor(descriptor("2019-01-17", true)),
    ];
    let end = Rust::new(t, today, None).resolve(Mode::Nearest, installed, outcomes);
    assert_eq!(end.date_str(), "2019-01-19");
    assert_eq!(end.rejected.len(), 1);
}

#[test]
fn step_by_step() {
    let t = toolchain("2019-01-10");
    let installed = t.installed_date().unwrap();
    let today = day("2019-01-20");
    let mode = Mode::NewerOnly;
    let rust = Rust::new(t, today, Some(descriptor("2019-01-20", true)));
    assert_eq!(rust.offset, -1);
    assert_eq!(rust.date, today);
    // Before the first step nothing has been examined, whatever is at hand.
    assert_eq!(rust.action(mode, installed), Action::Fetch(today));
    let rust = rust.step(mode, installed, Fetched::NotFound);
    assert_eq!(rust.offset, 0);
    assert_eq!(rust.date, today);
    assert!(rust.manifest.is_none());
    assert!(!rust.qualifies());
    assert_eq!(names(&rust.missing_components()), vec!["rustc", "cargo", "clippy"]);
    assert!(rust.update_info().is_none());
    assert!(rust.manifest_pkg_version("rust").is_none());
    assert_eq!(rust.action(mode, installed), Action::Fetch(day("2019-01-19")));
    let rust = rust.step(mode, installed, Fetched::Descriptor(descriptor("2019-01-19", true)));
    assert_eq!(rust.offset, 1);
    assert_eq!(rust.date_str(), "2019-01-19");
    assert!(rust.qualifies());
    assert_eq!(rust.action(mode, installed), Action::Found);
    assert_eq!(
        rust.manifest_pkg_version("rust").unwrap().to_string(),
        "1.33.0 (abcdef012 2019-01-18)"
    );
    assert_eq!(
        rust.update_info().unwrap(),
        vec!["clippy - from 0.0.212 (abcdef012 2019-01-09) to 0.0.212 (abcdef012 2019-01-18)"]
    );
    // A search that has found its release stays where it is.
    let rust = rust.step(mode, installed, Fetched::Descriptor(descriptor("2019-01-18", true)));
    assert_eq!(rust.offset, 1);
    assert_eq!(rust.date_str(), "2019-01-19");
    assert_eq!(rust.rejected.len(), 1);
}

#[test]
fn a_search_may_start_on_a_given_day() {
    let t = toolchain("2019-01-10");
    let installed = t.installed_date().unwrap();
    let today = day("2019-01-20");
    assert!(Rust::from_date(toolchain("2019-01-10"), today, "20-01-2019", None).is_none());
    let rust = Rust::from_date(t, today, "2019-01-15", None).unwrap();
    assert_eq!(rust.offset, 4);
    assert_eq!(rust.date, day("2019-01-15"));
    assert_eq!(rust.today, today);
    assert_eq!(rust.action(Mode::Nearest, installed), Action::Fetch(day("2019-01-15")));
    let rust = rust.step(Mode::Nearest, installed, Fetched::NotFound);
    assert_eq!(rust.offset, 5);
    assert_eq!(rust.date, day("2019-01-15"));
    assert_eq!(rust.action(Mode::Nearest, installed), Action::Fetch(day("2019-01-14")));
    let ahead = Rust::from_date(toolchain("2019-01-10"), today, "2019-01-22", None).unwrap();
    assert_eq!(ahead.offset, -3);
    let ahead = ahead.step(Mode::Nearest, installed, Fetched::NotFound);
    assert_eq!((ahead.offset, ahead.date), (-2, day("2019-01-22")));
    let old = Rust::from_date(toolchain("2019-01-10"), today, "2018-12-01", None).unwrap();
    assert_eq!(old.offset, 49);
    assert_eq!(old.action(Mode::Nearest, installed), Action::Fetch(day("2018-12-01")));
    assert_eq!(old.action(Mode::NewerOnly, installed), Action::Exhausted);
}

#[test]
fn the_window_counts_from_the_day_the_search_starts_on() {
    let t = toolchain("2019-01-10");
    let installed = t.installed_date().unwrap();
    let rust = Rust::from_date(t, day("2019-03-01"), "2019-01-31", None).unwrap();
    let mut outcomes = Vec::new();
    for _ in 0..30 {
        outcomes.push(Fetched::NotFound);
    }
    outcomes.push(Fetched::Descriptor(descriptor("2019-01-01", false)));
    outcomes.push(Fetched::Descriptor(descriptor("2018-12-31", true)));
    let end = rust.resolve(Mode::Nearest, installed, outcomes);
    assert_eq!(end.action(Mode::Nearest, installed), Action::Exhausted);
    assert_eq!(end.date_str(), "2019-01-01");
    assert_eq!(end.offset, 59);
    assert_eq!(end.rejected.len(), 31);
    assert_eq!(end.rejected[0].date, day("2019-01-31"));
    assert_eq!(end.rejected[30].date, day("2019-01-01"));
}

#[test]
fn a_search_ends_with_the_calendar() {
    let t = toolchain("2019-01-10");
    let first = Date::from_days(toolchain_finder::date::MIN_DAY).unwrap();
    let rust = Rust::new(t, first, None);
    assert_eq!(rust.action(Mode::Nearest, first), Action::Fetch(first));
    let rust = rust.step(Mode::Nearest, first, Fetched::NotFound);
    assert_eq!(rust.action(Mode::Nearest, first), Action::Exhausted);
    let mut stuck = rust;
    stuck.offset = i64::MAX;
    assert_eq!(stuck.action(Mode::Nearest, first), Action::Exhausted);
    assert_eq!(stuck.action(Mode::NewerOnly, first), Action::Exhausted);
}

#[test]
fn outcomes_may_run_out() {
    let t = toolchain("2019-01-10");
    let installed = t.installed_date().unwrap();
    let today = day("2019-01-20");
    let rust = Rust::new(t, today, None).resolve(Mode::Nearest, installed, vec![Fetched::NotFound]);
    assert_eq!(rust.action(Mode::Nearest, installed), Action::Fetch(day("2019-01-19")));
    let rust = rust.resolve(Mode::Nearest, installed, Vec::new());
    assert_eq!(rust.offset, 0);
    let rust = rust.resolve(
        Mode::Nearest,
        installed,
        vec![Fetched::NotFound, Fetched::Descriptor(descriptor("2019-01-18", true))],
    );
    assert_eq!(rust.action(Mode::Nearest, installed), Action::Found);
    assert_eq!(rust.date_str(), "2019-01-18");
    assert_eq!(rust.rejected.len(), 2);
}

#[test]
fn a_toolchain_without_components_needs_only_a_descriptor() {
    let local = descriptor("2019-01-10", true);
    let t = Toolchain::new("nightly-x86_64-pc-windows-gnu", "", local).unwrap();
    let installed = t.installed_date().unwrap();
    let end = Rust::new(t, day("2019-01-20"), None).resolve(
        Mode::Nearest,
        installed,
        vec![Fetched::NotFound, Fetched::Descriptor(descriptor("2019-01-19", false))],
    );
    assert_eq!(end.action(Mode::Nearest, installed), Action::Found);
    assert_eq!(end.date_str(), "2019-01-19");
    match end.recommend(Mode::Nearest, installed) {
        Recommendation::Update { components, .. } => assert!(components.is_empty()),
        other => panic!("{:?}", other),
    }
}

#[test]
fn a_renamed_component_is_found_under_its_new_name() {
    let list = "rustc-x86_64-pc-windows-gnu\nrls-x86_64-pc-windows-gnu\n";
    let t = Toolchain::new("nightly-x86_64-pc-windows-gnu", list, descriptor("2019-01-10", true))
        .unwrap();
    let installed = t.installed_date().unwrap();
    let mut renamed = descriptor("2019-01-19", true);
    renamed
        .add_package("rls-preview".to_string(), "1.31.6 (ae0d89a08 2019-01-18)", offers(&[(TARGET, true)]))
        .unwrap();
    renamed.add_rename("rls".to_string(), "rls-preview".to_string());
    let end = Rust::new(t, day("2019-01-20"), None).resolve(
        Mode::NewerOnly,
        installed,
        vec![Fetched::Descriptor(descriptor("2019-01-20", true)), Fetched::Descriptor(renamed)],
    );
    assert_eq!(end.action(Mode::NewerOnly, installed), Action::Found);
    assert_eq!(end.date_str(), "2019-01-19");
    match &end.rejected[0].reason {
        Reason::Missing(missing) => assert_eq!(names(missing), vec!["rls"]),
        other => panic!("{:?}", other),
    }
    assert_eq!(end.update_info().unwrap(), Vec::<String>::new());
}
