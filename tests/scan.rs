use file_scan::age::{accepts_age, age_in_years, DRAW_RANGE, SECONDS_PER_YEAR};
use file_scan::pattern::NameMatcher;
use file_scan::scan::{
    compile_pattern, matches_filter, scan_listing, select_files, select_with_draws, FileCandidate,
    ScanError,
};

fn file(name: &str, path: &str, depth: usize) -> FileCandidate {
    FileCandidate {
        name: Some(name.to_string()),
        path: Some(path.to_string()),
        is_file: true,
        depth,
        modified_secs: None,
    }
}

fn dir(name: &str, path: &str, depth: usize) -> FileCandidate {
    FileCandidate { is_file: false, ..file(name, path, depth) }
}

fn aged(name: &str, path: &str, modified: u64) -> FileCandidate {
    FileCandidate { modified_secs: Some(modified), ..file(name, path, 1) }
}

fn txt() -> NameMatcher {
    match compile_pattern(r"\.txt$") {
        Ok(m) => m,
        Err(_) => panic!("pattern should compile"),
    }
}

const NOW: u64 = 1_700_000_000;

#[test]
fn flat_scan_keeps_txt_files_of_any_case() {
    let cands = vec![
        file("a.txt", "/root/a.txt", 1),
        file("b.TXT", "/root/b.TXT", 1),
        file("note.md", "/root/note.md", 1),
    ];
    let r = select_files(&txt(), &cands, false, false, Some(NOW));
    assert_eq!(r, vec!["/root/a.txt".to_string(), "/root/b.TXT".to_string()]);
}

#[test]
fn subdirectory_file_only_in_recursive_scan() {
    let cands = vec![
        dir("sub", "/root/sub", 1),
        file("c.txt", "/root/sub/c.txt", 2),
    ];
    let flat = select_files(&txt(), &cands, false, false, Some(NOW));
    assert!(flat.is_empty());
    let deep = select_files(&txt(), &cands, true, false, Some(NOW));
    assert_eq!(deep, vec!["/root/sub/c.txt".to_string()]);
}

#[test]
fn directories_are_never_selected() {
    let cands = vec![dir("x.txt", "/root/x.txt", 1), dir("y.txt", "/root/d/y.txt", 2)];
    assert!(select_files(&txt(), &cands, true, false, None).is_empty());
    assert!(select_files(&txt(), &cands, false, false, None).is_empty());
}

#[test]
fn invalid_pattern_is_an_error() {
    match compile_pattern("[") {
        Err(ScanError::InvalidPattern(d)) => {
            assert!(!d.is_empty());
            let e = ScanError::InvalidPattern(d.clone());
            assert_eq!(e.message(), format!("Invalid regex pattern: {}", d));
        }
        _ => panic!("an unterminated class must not compile"),
    }
    assert!(NameMatcher::new("(").is_err());
}

#[test]
fn empty_directory_gives_empty_result() {
    let r = scan_listing(&txt(), "/root", Ok(vec![]), false, false, Some(NOW));
    match r {
        Ok(v) => assert!(v.is_empty()),
        Err(_) => panic!("an empty directory is no error"),
    }
    let r = scan_listing(&txt(), "/root", Ok(vec![]), true, true, Some(NOW));
    assert!(matches!(r, Ok(v) if v.is_empty()));
}

#[test]
fn unreadable_root_fails_only_flat_scan() {
    let r = scan_listing(&txt(), "/nope", Err("denied".to_string()), false, false, None);
    match r {
        Err(e) => {
            assert!(matches!(&e, ScanError::DirectoryUnreadable { root, reason }
                if root == "/nope" && reason == "denied"));
            assert_eq!(e.message(), "Error reading directory /nope: denied");
        }
        Ok(_) => panic!("a flat scan reports an unreadable root"),
    }
    let r = scan_listing(&txt(), "/nope", Err("denied".to_string()), true, false, None);
    assert!(matches!(r, Ok(v) if v.is_empty()));
}

#[test]
fn scan_listing_selects_from_entries() {
    let cands = vec![file("a.txt", "/r/a.txt", 1), file("b.rs", "/r/b.rs", 1)];
    let r = scan_listing(&txt(), "/r", Ok(cands), false, false, None);
    assert!(matches!(r, Ok(v) if v == vec!["/r/a.txt".to_string()]));
}

#[test]
fn matcher_is_case_insensitive_and_searches() {
    let m = txt();
    assert!(m.is_match("A.TXT"));
    assert!(m.is_match("notes.txt"));
    assert!(!m.is_match("a.txt.bak"));
    assert_eq!(m.pattern(), r"\.txt$");
    let m = NameMatcher::new("report").ok().unwrap();
    assert!(m.is_match("Q3-REPORT-final.pdf"));
    assert!(!m.is_match("summary.pdf"));
}

#[test]
fn missing_name_or_path_is_dropped() {
    let no_name = FileCandidate { name: None, ..file("a.txt", "/r/a.txt", 1) };
    let no_path = FileCandidate { path: None, ..file("a.txt", "/r/a.txt", 1) };
    let m = txt();
    assert_eq!(matches_filter(&no_name, &m, false, None, 0), None);
    assert_eq!(matches_filter(&no_path, &m, false, None, 0), None);
    assert_eq!(
        matches_filter(&file("a.txt", "/r/a.txt", 1), &m, false, None, 0),
        Some("/r/a.txt".to_string())
    );
}

#[test]
fn age_in_whole_julian_years() {
    assert_eq!(age_in_years(3 * SECONDS_PER_YEAR, SECONDS_PER_YEAR - 1), 3);
    assert_eq!(age_in_years(NOW, NOW), 0);
    assert_eq!(age_in_years(SECONDS_PER_YEAR - 1, 0), 0);
    assert_eq!(age_in_years(0, 2 * SECONDS_PER_YEAR), -2);
    assert_eq!(age_in_years(u64::MAX, 0), (u64::MAX / 31_557_600) as i64);
}

#[test]
fn acceptance_bounds_by_age() {
    // age zero or less: every draw
    assert!(accepts_age(0, DRAW_RANGE - 1));
    assert!(accepts_age(-5, u64::MAX));
    // age one: half the range, the bound included
    assert!(accepts_age(1, DRAW_RANGE / 2));
    assert!(!accepts_age(1, DRAW_RANGE / 2 + 1));
    // age six: 1/64
    assert!(accepts_age(6, DRAW_RANGE / 64));
    assert!(!accepts_age(6, DRAW_RANGE / 64 + 1));
    // age seven and beyond: the 1% floor
    assert!(accepts_age(7, 90_071_992_547_409));
    assert!(!accepts_age(7, 90_071_992_547_410));
    assert!(accepts_age(1000, DRAW_RANGE / 100));
    assert!(!accepts_age(i64::MAX, DRAW_RANGE / 100 + 1));
}

#[test]
fn acceptance_matches_float_rule() {
    // the draw k stands for k / 2^53; keep when it does not exceed max(0.01, 0.5^d)
    let unit = DRAW_RANGE as f64;
    for d in 0..12i64 {
        let r = f64::max(0.01, 0.5f64.powi(d as i32));
        for k in [0u64, 1, 90_071_992_547_409, 90_071_992_547_410, DRAW_RANGE / 8, DRAW_RANGE / 2 + 1, DRAW_RANGE - 1] {
            let u = k as f64 / unit;
            assert_eq!(accepts_age(d, k), !(r < u), "age {} draw {}", d, k);
        }
    }
}

#[test]
fn age_bias_with_given_draws() {
    let year = SECONDS_PER_YEAR;
    let now = 50 * year;
    let cands = vec![
        aged("new.txt", "/r/new.txt", now),
        aged("old.txt", "/r/old.txt", now - year),
        aged("older.txt", "/r/older.txt", now - 10 * year),
        file("undated.txt", "/r/undated.txt", 1),
    ];
    let m = txt();
    let high = vec![DRAW_RANGE - 1; 4];
    let r = select_with_draws(&m, &cands, false, true, Some(now), &high);
    assert_eq!(r, vec!["/r/new.txt".to_string(), "/r/undated.txt".to_string()]);
    let low = vec![0u64; 4];
    let r = select_with_draws(&m, &cands, false, true, Some(now), &low);
    assert_eq!(r.len(), 4);
    let mid = vec![DRAW_RANGE / 2, DRAW_RANGE / 2, DRAW_RANGE / 100, DRAW_RANGE - 1];
    let r = select_with_draws(&m, &cands, false, true, Some(now), &mid);
    assert_eq!(r.len(), 4);
    let past = vec![DRAW_RANGE / 2 + 1, DRAW_RANGE / 2 + 1, DRAW_RANGE / 100 + 1, DRAW_RANGE - 1];
    let r = select_with_draws(&m, &cands, false, true, Some(now), &past);
    assert_eq!(r, vec!["/r/new.txt".to_string(), "/r/undated.txt".to_string()]);
}

#[test]
fn no_clock_drops_dated_files_under_age_bias() {
    let cands = vec![aged("a.txt", "/r/a.txt", 5), file("b.txt", "/r/b.txt", 1)];
    let r = select_with_draws(&txt(), &cands, false, true, None, &vec![0, 0]);
    assert_eq!(r, vec!["/r/b.txt".to_string()]);
    let r = select_with_draws(&txt(), &cands, false, false, None, &vec![0, 0]);
    assert_eq!(r.len(), 2);
}

#[test]
fn without_age_bias_draws_do_not_matter() {
    let cands = vec![
        aged("a.txt", "/r/a.txt", 0),
        aged("b.txt", "/r/b.txt", 0),
        file("c.md", "/r/c.md", 1),
    ];
    let m = txt();
    let a = select_with_draws(&m, &cands, false, false, Some(NOW), &vec![0, 0, 0]);
    let b = select_with_draws(&m, &cands, false, false, None, &vec![u64::MAX; 3]);
    let c = select_files(&m, &cands, false, false, Some(NOW));
    assert_eq!(a, b);
    assert_eq!(a, c);
    assert_eq!(a, vec!["/r/a.txt".to_string(), "/r/b.txt".to_string()]);
}

#[test]
fn fresh_files_always_pass_random_age_bias() {
    let cands = vec![aged("a.txt", "/r/a.txt", NOW), aged("z.txt", "/r/z.txt", NOW + 100)];
    for _ in 0..200 {
        let r = select_files(&txt(), &cands, true, true, Some(NOW));
        assert_eq!(r.len(), 2);
    }
}

#[test]
fn very_old_files_mostly_filtered_by_random_age_bias() {
    let cands: Vec<FileCandidate> = (0..2000).map(|i| aged("a.txt", &format!("/r/{}.txt", i), 0)).collect();
    let r = select_files(&txt(), &cands, false, true, Some(NOW));
    // about 1% of 2000 expected; far below half
    assert!(r.len() < 200, "kept {}", r.len());
}
