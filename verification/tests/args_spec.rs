//! The command line.

use asset_shelf::args::{
    normalize_library_root_value, parse_bench_args, parse_library_root, BenchArgs, BenchCommand,
    BENCH_DEFAULT_HOLD_MS,
};

fn args(values: &[&str]) -> Vec<String> {
    values.iter().map(|value| value.to_string()).collect()
}

#[test]
fn separated_value_with_spaces_stays_intact() {
    assert_eq!(
        parse_library_root(&args(&[
            "--library-root",
            "C:/Users/Administrator/Documents/Default Project/library",
        ]))
        .as_deref(),
        Some("C:/Users/Administrator/Documents/Default Project/library"),
    );
}

#[test]
fn space_split_argv_is_rejoined_until_next_flag() {
    assert_eq!(
        parse_library_root(&args(&[
            "--library-root",
            "C:/Users/Administrator/Documents/Default",
            "Project/library",
        ]))
        .as_deref(),
        Some("C:/Users/Administrator/Documents/Default Project/library"),
    );
}

#[test]
fn equals_form_is_taken_verbatim() {
    assert_eq!(
        parse_library_root(&args(&["--library-root=D:/lib With Space"])).as_deref(),
        Some("D:/lib With Space"),
    );
}

#[test]
fn stray_manual_quotes_are_trimmed() {
    assert_eq!(
        parse_library_root(&args(&["--library-root", "\"E:/my lib\""])).as_deref(),
        Some("E:/my lib"),
    );
}

#[test]
fn missing_or_valueless_flags_fall_back_to_none() {
    assert_eq!(parse_library_root(&args(&[])), None);
    assert_eq!(parse_library_root(&args(&["--library-root"])), None);
    assert_eq!(parse_library_root(&args(&["--other", "x"])), None);
}

#[test]
fn first_library_counts_and_flags_end_it() {
    assert_eq!(
        parse_library_root(&args(&["x", "--library-root", "a", "b", "--c", "d"])).as_deref(),
        Some("a b"),
    );
    assert_eq!(
        parse_library_root(&args(&["--library-root", "--library-root=b"])).as_deref(),
        None,
    );
    assert_eq!(
        parse_library_root(&args(&["--library-root=a", "--library-root=b"])).as_deref(),
        Some("a"),
    );
    assert_eq!(parse_library_root(&args(&["--library-root= \"\" "])), None);
    assert_eq!(normalize_library_root_value(" \" x \" ").as_deref(), Some("x"));
    assert_eq!(normalize_library_root_value("  "), None);
}

#[test]
fn benchmark_needs_a_library() {
    assert_eq!(parse_bench_args(&args(&["--x"])), BenchCommand::NotAsked);
    assert_eq!(parse_bench_args(&args(&["--bench"])), BenchCommand::RootMissing);
    assert_eq!(parse_bench_args(&args(&["--bench", ""])), BenchCommand::RootMissing);
    assert_eq!(parse_bench_args(&args(&["--bench", "--x"])), BenchCommand::RootMissing);
    let run = |root: &str, hold_ms: u64| BenchCommand::Run {
        bench: BenchArgs { root: root.to_string(), hold_ms },
    };
    assert_eq!(parse_bench_args(&args(&["--bench", "lib"])), run("lib", BENCH_DEFAULT_HOLD_MS));
    assert_eq!(
        parse_bench_args(&args(&["--bench-hold-ms", "250", "--bench", "lib"])),
        run("lib", 250)
    );
    assert_eq!(
        parse_bench_args(&args(&["--bench", "lib", "--bench-hold-ms", "soon"])),
        run("lib", BENCH_DEFAULT_HOLD_MS)
    );
    assert_eq!(
        parse_bench_args(&args(&["--bench", "lib", "--bench-hold-ms"])),
        run("lib", BENCH_DEFAULT_HOLD_MS)
    );
}
