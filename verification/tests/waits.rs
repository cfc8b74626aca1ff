use std::cell::Cell;
use waitforit::pace;
use waitforit::Moment;
use waitforit::Observation;
use waitforit::Pace;
use waitforit::Probe;
use waitforit::Span;
use waitforit::Stamp;
use waitforit::Step;
use waitforit::Wait;
use waitforit::Waits;

/// Runs one pass the way a driver does: takes each look that the pass asks
/// for, and hands in all looks taken so far.
fn run_pass<F: Copy>(tree: &mut Waits<F>, look: &dyn Fn(&Probe<F>) -> Observation) -> bool {
    let mut seen = Vec::new();
    loop {
        match tree.condition_met(&seen) {
            Step::Met(met) => return met,
            Step::Needs(probe) => seen.push(look(&probe)),
        }
    }
}

fn pair<F>(left: Waits<F>, right: Waits<F>) -> Box<(Waits<F>, Waits<F>)> {
    Box::new((left, right))
}

fn file(path: &str) -> Wait<u8> {
    Wait::new_file_exists(path)
}

#[test]
fn operators_build_the_tree_left_to_right() {
    let a = || file("a");
    let b = || file("b");
    let c = || file("c");
    let single = |wait: Wait<u8>| Waits::Single(wait);

    assert_eq!(Waits::from(a()), single(a()));
    assert_eq!(a() | b(), Waits::Or(pair(single(a()), single(b()))));
    assert_eq!(a() & b(), Waits::And(pair(single(a()), single(b()))));
    assert_eq!(a() | (b() & c()), Waits::Or(pair(single(a()), b() & c())));
    assert_eq!(a() & (b() | c()), Waits::And(pair(single(a()), b() | c())));
    assert_eq!((a() & b()) | c(), Waits::Or(pair(a() & b(), single(c()))));
    assert_eq!((a() | b()) & c(), Waits::And(pair(a() | b(), single(c()))));
    assert_eq!((a() | b()) | (c() & a()), Waits::Or(pair(a() | b(), c() & a())));
    assert_eq!((a() | b()) & (c() & a()), Waits::And(pair(a() | b(), c() & a())));
    // Turning round is done before joining.
    assert_eq!(
        !a() & b(),
        Waits::And(pair(single(Wait::Exists { not: true, path: "a".to_string() }), single(b())))
    );
}

#[test]
fn a_single_condition_asks_for_its_look() {
    let mut tree = Waits::from(file("a"));
    assert_eq!(tree.condition_met(&[]), Step::Needs(Probe::Exists("a".to_string())));
    assert_eq!(tree.condition_met(&[Observation::Exists(true)]), Step::Met(true));
    assert_eq!(tree.condition_met(&[Observation::Exists(false)]), Step::Met(false));
}

#[test]
fn or_and_and_over_two_conditions() {
    let table = [(false, false), (false, true), (true, false), (true, true)];
    for (left, right) in table {
        let files = |probe: &Probe<u8>| match probe {
            Probe::Exists(path) if path == "a" => Observation::Exists(left),
            Probe::Exists(path) if path == "b" => Observation::Exists(right),
            _ => unreachable!(),
        };
        assert_eq!(run_pass(&mut (file("a") | file("b")), &files), left || right);
        assert_eq!(run_pass(&mut (file("a") & file("b")), &files), left && right);
    }
}

#[test]
fn or_does_not_visit_its_right_side_once_met() {
    // Two checks of the caller's: `0` returns true, `1` counts its calls and returns true.
    let calls = Cell::new(0);
    let run = |probe: &Probe<u8>| match probe {
        Probe::Call(0) => Observation::Call(true),
        Probe::Call(1) => {
            calls.set(calls.get() + 1);
            Observation::Call(true)
        }
        _ => unreachable!(),
    };
    let a = || Wait::new_custom(0u8);
    let b = || Wait::new_custom(1u8);

    assert!(run_pass(&mut (a() | b()), &run));
    assert_eq!(calls.get(), 0);

    assert!(run_pass(&mut (b() | a()), &run));
    assert_eq!(calls.get(), 1);
}

#[test]
fn and_does_not_visit_its_right_side_once_unmet() {
    let calls = Cell::new(0);
    let run = |probe: &Probe<u8>| match probe {
        Probe::Call(0) => Observation::Call(false),
        Probe::Call(1) => {
            calls.set(calls.get() + 1);
            Observation::Call(true)
        }
        _ => unreachable!(),
    };
    let a = || Wait::new_custom(0u8);
    let b = || Wait::new_custom(1u8);

    assert!(!run_pass(&mut (a() & b()), &run));
    assert_eq!(calls.get(), 0);

    assert!(!run_pass(&mut (b() & a()), &run));
    assert_eq!(calls.get(), 1);

    // Where the left side is met, the right side decides.
    assert!(run_pass(&mut (b() & !a()), &run));
    assert_eq!(calls.get(), 2);
}

#[test]
fn looks_are_asked_for_from_left_to_right() {
    let order = Cell::new(Vec::new());
    let note = |probe: &Probe<u8>| {
        let mut so_far = order.take();
        match probe {
            Probe::Exists(path) => so_far.push(path.clone()),
            _ => unreachable!(),
        }
        order.set(so_far);
        Observation::Exists(false)
    };
    // Nothing exists: every "or" goes on to its right side, every "and" stops.
    let mut tree = (file("a") | (file("b") & file("c"))) | (file("d") | file("e"));
    assert!(!run_pass(&mut tree, &note));
    assert_eq!(order.take(), ["a", "b", "d", "e"]);
}

#[test]
fn a_skipped_condition_remembers_nothing_new() {
    let size = |path: &str| -> Wait<u8> { Wait::new_file_size(path) };
    let lengths = |probe: &Probe<u8>| match probe {
        Probe::Exists(_) => Observation::Exists(true),
        Probe::Length(_) => Observation::Length(Some(7)),
        _ => unreachable!(),
    };
    // The left side settles the "or": the right side is not looked at.
    let mut tree = file("a") | size("b");
    assert!(run_pass(&mut tree, &lengths));
    assert_eq!(tree, file("a") | size("b"));

    // With the sides swapped it is, and takes note of the length.
    let mut tree = size("b") | file("a");
    assert!(run_pass(&mut tree, &lengths));
    assert_eq!(
        tree,
        Wait::FileSize { not: false, path: "b".to_string(), size_bytes: Some(7) } | file("a")
    );
}

#[test]
fn the_tree_is_unchanged_while_looks_are_missing() {
    let size = |path: &str| -> Wait<u8> { Wait::new_file_size(path) };
    let mut tree = size("a") & size("b");
    let fresh = || size("a") & size("b");

    assert_eq!(tree.condition_met(&[]), Step::Needs(Probe::Length("a".to_string())));
    assert_eq!(tree, fresh());
    // Unreadable: the left side is met, so the right side is wanted.
    let seen = [Observation::Length(None)];
    assert_eq!(tree.condition_met(&seen), Step::Needs(Probe::Length("b".to_string())));
    assert_eq!(tree, fresh());
    let seen = [Observation::Length(None), Observation::Length(Some(4))];
    assert_eq!(tree.condition_met(&seen), Step::Met(false));
    assert_eq!(
        tree,
        size("a") & Wait::FileSize { not: false, path: "b".to_string(), size_bytes: Some(4) }
    );
}

#[test]
fn looks_beyond_the_pass_are_not_used() {
    let mut tree = file("a") | file("b");
    let seen = [Observation::Exists(true), Observation::Exists(false), Observation::Clock(Moment { nanos: 1 })];
    assert_eq!(tree.condition_met(&seen), Step::Met(true));
    let mut tree = file("a") | file("b");
    let seen = [Observation::Exists(false), Observation::Exists(true), Observation::Length(None)];
    assert_eq!(tree.condition_met(&seen), Step::Met(true));
}

#[test]
fn a_look_of_another_kind_is_asked_for_again() {
    let mut tree = file("a") & Wait::new_file_size("b");
    let seen = [Observation::Length(Some(1))];
    assert_eq!(tree.condition_met(&seen), Step::Needs(Probe::Exists("a".to_string())));
    let seen = [Observation::Exists(true), Observation::Exists(true)];
    assert_eq!(tree.condition_met(&seen), Step::Needs(Probe::Length("b".to_string())));
    assert_eq!(tree, file("a") & Wait::new_file_size("b"));
}

#[test]
fn swapping_the_sides_changes_which_memory_moves() {
    let size = |path: &str| -> Wait<u8> { !Wait::new_file_size(path) };
    let grown = |length: u64| Wait::<u8>::FileSize { not: true, path: "f".to_string(), size_bytes: Some(length) };
    let steady = |length: u64| Wait::<u8>::FileSize { not: true, path: "g".to_string(), size_bytes: Some(length) };
    let lengths = |f: u64, g: u64| {
        move |probe: &Probe<u8>| match probe {
            Probe::Length(path) if path == "f" => Observation::Length(Some(f)),
            Probe::Length(path) if path == "g" => Observation::Length(Some(g)),
            _ => unreachable!(),
        }
    };

    let mut tree = size("f") | size("g");
    assert!(!run_pass(&mut tree, &lengths(1, 1)));
    assert_eq!(tree, grown(1) | steady(1));
    // `f` has stopped growing: the "or" is met and `g` is not looked at.
    assert!(run_pass(&mut tree, &lengths(1, 2)));
    assert_eq!(tree, grown(1) | steady(1));

    let mut tree = size("g") | size("f");
    assert!(!run_pass(&mut tree, &lengths(1, 1)));
    // Now `g` is looked at first, and takes note that it has grown.
    assert!(run_pass(&mut tree, &lengths(1, 2)));
    assert_eq!(tree, steady(2) | grown(1));
}

#[test]
fn waits_for_a_file_to_be_left_alone() {
    // The file `f` appears 3 s after the start and is written for the last
    // time at 5 s. The wait is for `f` to exist and to have been left alone
    // for 10 s; a pass starts every second.
    let secs = |n: i128| Stamp { nanos: n * 1_000_000_000 };
    let created: i128 = 3;
    let last_write: i128 = 5;
    let interval = Span::from_secs(1);
    let mut tree: Waits<u8> =
        Wait::new_file_exists("f") & !Wait::new_file_update_since("f", Span::from_secs(10));

    let mut now: i128 = 0;
    let mut passes = 0;
    loop {
        let world = |probe: &Probe<u8>| match probe {
            Probe::Exists(path) if path == "f" => Observation::Exists(now >= created),
            Probe::ModifiedAndNow(path) if path == "f" => Observation::ModifiedAndNow {
                modified: Some(secs(if now >= last_write { last_write } else { created })),
                now: secs(now),
            },
            _ => unreachable!(),
        };
        let met = run_pass(&mut tree, &world);
        passes += 1;
        match pace(met, interval, Span { nanos: 0 }) {
            Pace::Done => break,
            Pace::Sleep(rest) => {
                assert_eq!(rest, interval);
                now += 1;
            }
            Pace::Again => unreachable!(),
        }
        assert!(passes < 100);
    }
    // Met at the first pass that finds 10 s gone since the last write, and at none before.
    assert_eq!(now, last_write + 10);
    assert_eq!(passes, 16);
}

#[test]
fn a_wait_with_a_time_limit_ends_at_the_limit() {
    let mut tree: Waits<u8> =
        Wait::new_file_exists("never") | Wait::new_elapsed_from_duration(Span::from_secs(30), Moment { nanos: 0 });
    let mut now: u128 = 0;
    loop {
        let world = |probe: &Probe<u8>| match probe {
            Probe::Exists(_) => Observation::Exists(false),
            Probe::Clock => Observation::Clock(Moment { nanos: now }),
            _ => unreachable!(),
        };
        if run_pass(&mut tree, &world) {
            break;
        }
        now += 1_000_000_000;
        assert!(now < 100_000_000_000);
    }
    assert_eq!(now, 31_000_000_000);
}
