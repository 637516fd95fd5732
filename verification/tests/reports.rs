use bun_filter::bun_build::{
    build_tee_request, filter_bun_build, read_build, BuildKind, BuildMatches,
};
use bun_filter::bun_install::{
    filter_bun_install, install_tee_request, read_install, InstallKind, InstallMatches,
};
use bun_filter::bun_run::{filter_bun_run, find_banners, keep_script_lines};
use bun_filter::bun_test::{
    collect_test_report, filter_bun_test, is_coverage_row, is_fail_marker, is_pass_marker,
    is_summary_line, is_test_file_header, line_kind, note_test_lines, read_test_report, LineKind,
    TestMatches,
};
use bun_filter::command::{
    build_invocation, install_invocation, run_args, run_invocation, test_invocation,
};
use bun_filter::limits::{CAP_ERRORS, CAP_LIST, MAX_BUN_FAILURES};

fn strings(v: &[&str]) -> Vec<String> {
    v.iter().map(|s| s.to_string()).collect()
}

fn env(v: &[(&str, &str)]) -> Vec<(String, String)> {
    v.iter().map(|(a, b)| (a.to_string(), b.to_string())).collect()
}

const NO_MATCH: TestMatches = TestMatches {
    failed_list: false,
    fail_marker: false,
    pass_marker: false,
    banner: false,
    count: false,
    expect: false,
    snapshot: false,
};

#[test]
fn fail_markers() {
    for line in [
        "✗ fails [1ms]",
        "✘ fails [0.08ms]",
        "(fail) a > b [2s]",
        "(fail)[12.5s]  ",
        "(fail) [x] [3ms]",
    ] {
        assert!(is_fail_marker(line), "{}", line);
        assert!(!is_pass_marker(line), "{}", line);
    }
    for line in [
        "FAILED to connect",
        "(fail) no time",
        "✗ [1ms] goes on",
        "(fail) [ms]",
        "x (fail) [1ms]",
        "(fail) [1.ms]",
        "",
    ] {
        assert!(!is_fail_marker(line), "{}", line);
    }
}

#[test]
fn pass_markers() {
    for line in ["✓ passes [1ms]", "✔ passes [0.08ms]", "(pass) a > b [2s]"] {
        assert!(is_pass_marker(line), "{}", line);
        assert!(!is_fail_marker(line), "{}", line);
    }
    for line in ["✓ cache refreshed after retry", "(pass)", "pass [1ms]"] {
        assert!(!is_pass_marker(line), "{}", line);
    }
}

#[test]
fn test_file_headers() {
    assert!(is_test_file_header("math.test.ts:"));
    assert!(is_test_file_header("src/db.spec.js:"));
    assert!(!is_test_file_header("math.test.ts"));
    assert!(!is_test_file_header("math.ts:"));
}

#[test]
fn summary_line_shapes() {
    for line in [
        "5 pass",
        " 0 fail ",
        "1 skip",
        "12 todo",
        "3 expect() calls",
        "1 snapshots, 4 expect() calls",
        "1 snapshot, 4 expect() calls",
        "snapshots: +1 added",
        "Ran 5 tests across 1 file. [11.00ms]",
        "Bailed out after 1 failure",
    ] {
        assert!(is_summary_line(line), "{}", line);
    }
    for line in [
        "5 passengers boarded",
        "5 pass away",
        "pass",
        "a 5 pass",
        "snapshots:",
        "expect() calls",
        "Random",
        "Bailed out",
    ] {
        assert!(!is_summary_line(line), "{}", line);
    }
}

#[test]
fn coverage_rows_have_three_separators() {
    assert!(is_coverage_row("All files |   75.00 |   80.00 |"));
    assert!(is_coverage_row("----|----|----|----"));
    assert!(!is_coverage_row("1 | 2 | 3"));
    assert!(!is_coverage_row(""));
}

#[test]
fn line_kinds_in_their_order() {
    let all = TestMatches {
        failed_list: true,
        fail_marker: true,
        pass_marker: true,
        banner: true,
        count: true,
        expect: true,
        snapshot: true,
    };
    assert_eq!(line_kind(" \t", all), LineKind::Blank);
    assert_eq!(line_kind("a|b|c|d", all), LineKind::FailedList);
    let m = TestMatches { failed_list: false, ..all };
    assert_eq!(line_kind("a|b|c|d", m), LineKind::Coverage { marker: true });
    assert_eq!(line_kind("a|b|c|d", NO_MATCH), LineKind::Coverage { marker: false });
    assert_eq!(line_kind("x", m), LineKind::Failure);
    let m = TestMatches { fail_marker: false, ..m };
    assert_eq!(line_kind("x", m), LineKind::Discarded);
    assert_eq!(line_kind("a.test.ts:", NO_MATCH), LineKind::Discarded);
    let m = TestMatches { pass_marker: false, banner: false, ..m };
    assert_eq!(line_kind("x", m), LineKind::Summary);
    assert_eq!(line_kind("  Ran 1 test", NO_MATCH), LineKind::Summary);
    assert_eq!(line_kind("  x", NO_MATCH), LineKind::Context);
}

#[test]
fn patterns_of_a_test_run() {
    let noted = note_test_lines(
        "bun test v1.3.14 (0d9b296a)\n2 tests failed:\n1 test failed:\nbun test vx\n\u{1b}[31m✗ a [1ms]\u{1b}[0m\n",
    );
    assert_eq!(noted[0].1, TestMatches { banner: true, ..NO_MATCH });
    assert_eq!(noted[1].1, TestMatches { failed_list: true, ..NO_MATCH });
    assert_eq!(noted[2].1, TestMatches { failed_list: true, ..NO_MATCH });
    assert_eq!(noted[3].1, NO_MATCH);
    assert_eq!(noted[4], ("✗ a [1ms]".to_string(), TestMatches { fail_marker: true, ..NO_MATCH }));
}

#[test]
fn report_is_exact() {
    let input = "bun test v1.3.14 (0d9b296a)\r\n\na.test.ts:\n  stale\n(pass) one [1ms]\n  why\n\n  | caret ^\n(fail) two [2ms]\n  then\nFile | a | b | c\n(fail) three [1ms]\n1 tests failed:\n\n(fail) two [2ms]\n(fail) three [1ms]\n  1 pass  \n 2 fail\n";
    assert_eq!(
        filter_bun_test(input, 1, None),
        "FAILURES:\n  why\n  | caret ^\n(fail) two [2ms]\n(fail) three [1ms]\n\nFile | a | b | c\n1 pass\n2 fail"
    );
}

#[test]
fn failures_without_summary_end_without_an_empty_line() {
    assert_eq!(filter_bun_test("x\n(fail) a [1ms]\n", 1, None), "FAILURES:\nx\n(fail) a [1ms]");
}

#[test]
fn a_failure_behind_the_list_counts_again() {
    let input = "2 tests failed:\n(fail) a [1ms]\nnext\n(fail) b [1ms]\n";
    assert_eq!(filter_bun_test(input, 1, None), "FAILURES:\nnext\n(fail) b [1ms]");
}

#[test]
fn a_row_that_reads_as_a_failure() {
    let row = "(fail) a|b|c|d [1ms]";
    let report = read_test_report(&format!("{}\n1 test failed:\n{}\n", row, row));
    assert_eq!(report.coverage, strings(&[row]));
    assert!(report.failures.is_empty());
}

#[test]
fn parts_of_noted_lines() {
    let fail = TestMatches { fail_marker: true, ..NO_MATCH };
    let report = collect_test_report(&vec![
        ("  a".to_string(), NO_MATCH),
        ("".to_string(), NO_MATCH),
        ("b".to_string(), fail),
        ("c ".to_string(), NO_MATCH),
    ]);
    assert_eq!(report.failures, vec![strings(&["  a", "b"])]);
    assert_eq!(report.context, strings(&["c "]));
    assert!(report.summary.is_empty() && report.coverage.is_empty());
}

#[test]
fn hidden_failures_are_counted_and_filed() {
    let mut input = String::new();
    let mut blocks: Vec<String> = Vec::new();
    for i in 0..MAX_BUN_FAILURES + 2 {
        let block = format!("why {}\n(fail) t{} [1ms]", i, i);
        input.push_str(&block);
        input.push('\n');
        blocks.push(block);
    }
    let report = read_test_report(&input);
    let request = report.tee_request().expect("failures are left out");
    assert_eq!(request.full, blocks.join("\n\n"));
    assert_eq!(request.slug, "bun-test-failures");
    let shown = blocks[..MAX_BUN_FAILURES].join("\n");
    assert_eq!(
        report.render(1, Some("[full]")),
        format!("FAILURES:\n{}\n… +2 more failures\n[full]", shown)
    );
    assert_eq!(
        filter_bun_test(&input, 1, None),
        format!("FAILURES:\n{}\n… +2 more failures", shown)
    );
}

#[test]
fn an_aborted_run_is_cut_and_filed() {
    let lines: Vec<String> = (0..CAP_ERRORS + 1).map(|i| format!("  line {}", i)).collect();
    let report = read_test_report(&lines.join("\n"));
    let request = report.tee_request().expect("lines are left out");
    assert_eq!(request.full, lines.join("\n"));
    assert_eq!(request.slug, "bun-test");
    assert_eq!(
        report.render(1, Some("[full]")),
        format!("{}\n… +1 more lines\n[full]", lines[..CAP_ERRORS].join("\n"))
    );
    let short = read_test_report(&lines[..CAP_ERRORS].join("\n"));
    assert!(short.tee_request().is_none());
    assert_eq!(short.render(1, Some("[full]")), lines[..CAP_ERRORS].join("\n"));
}

#[test]
fn a_crashed_test_run() {
    assert_eq!(
        filter_bun_test("bun test v1.3.14 (0d9b296a)\n\n", 137, None),
        "bun test exited with code 137"
    );
    assert_eq!(filter_bun_test("", 0, None), "ok");
}

#[test]
fn install_lists_packages_first() {
    let input = "bun add v1.3.14 (0d9b296a)\nwarn: slow\n\n  + zod@4.4.3\n- left-pad@1.0.0\ninstalled chalk@6.0.0 with binaries:\nResolving x\nDownloading y\nExtracting z\n[⸨ 1\n2 ⸩]\n+ noversion\n3 packages installed\n";
    assert_eq!(
        filter_bun_install(input, 0, None),
        "+ zod@4.4.3\n- left-pad@1.0.0\ninstalled chalk@6.0.0 with binaries:\nwarn: slow\n+ noversion\n3 packages installed"
    );
}

#[test]
fn install_line_kinds() {
    let kind = bun_filter::bun_install::line_kind;
    let none = InstallMatches { banner: false, package: false };
    let package = InstallMatches { banner: false, package: true };
    assert_eq!(kind("", package), InstallKind::Dropped);
    assert_eq!(kind("Resolving + a@1", package), InstallKind::Dropped);
    assert_eq!(kind("x", InstallMatches { banner: true, package: true }), InstallKind::Dropped);
    assert_eq!(kind("+ a@1", package), InstallKind::Package);
    assert_eq!(kind("x", none), InstallKind::Message);
}

#[test]
fn hidden_packages_are_counted_and_filed() {
    let packages: Vec<String> = (0..CAP_LIST + 5).map(|i| format!("+ p{}@1.0.0", i)).collect();
    let input = format!("{}\ndone\n", packages.join("\n"));
    let listing = read_install(&input);
    let request = install_tee_request(&listing).expect("packages are left out");
    assert_eq!(request.full, packages.join("\n"));
    assert_eq!(request.slug, "bun-install");
    assert_eq!(
        filter_bun_install(&input, 0, Some("[full]")),
        format!("{}\n… +5 more packages\n[full]\ndone", packages[..CAP_LIST].join("\n"))
    );
    let few = read_install(&packages[..CAP_LIST].join("\n"));
    assert!(install_tee_request(&few).is_none());
}

#[test]
fn install_reports_a_crash() {
    assert_eq!(
        filter_bun_install("bun install v1.3.14 (0d9b296a)\n", 1, None),
        "bun install exited with code 1"
    );
}

#[test]
fn build_keeps_what_matters() {
    let input = "bun build v1.3.14\n  index.js  72 bytes  (entry point)\napp.js  45.2KB\nchatter\nerror: boom 5 bytes\nwarning: old\nTypeError\nWarn me\nBundled 1 module in 6ms\nnot built yet\nthe Bundle\nDone\nUndone\nx.js 3 bytesize\n";
    assert_eq!(
        filter_bun_build(input, 0, None),
        "index.js  72 bytes  (entry point)\napp.js  45.2KB\nerror: boom 5 bytes\nwarning: old\nTypeError\nWarn me\nBundled 1 module in 6ms\nnot built yet\nthe Bundle\nDone"
    );
}

#[test]
fn build_line_kinds() {
    let kind = bun_filter::bun_build::line_kind;
    let artifact = BuildMatches { banner: false, artifact: true };
    let none = BuildMatches { banner: false, artifact: false };
    assert_eq!(kind("", artifact), BuildKind::Dropped);
    assert_eq!(kind("error", BuildMatches { banner: true, artifact: true }), BuildKind::Dropped);
    assert_eq!(kind("an error", artifact), BuildKind::Message);
    assert_eq!(kind("Bundled", artifact), BuildKind::Artifact);
    assert_eq!(kind("Bundled", none), BuildKind::Message);
    assert_eq!(kind("x", none), BuildKind::Dropped);
}

#[test]
fn hidden_artifacts_are_counted_and_filed() {
    let entries: Vec<String> = (0..CAP_LIST + 1).map(|i| format!("a{}.js  1.0KB", i)).collect();
    let listing = read_build(&entries.join("\n"));
    let request = build_tee_request(&listing).expect("artifacts are left out");
    assert_eq!(request.full, entries.join("\n"));
    assert_eq!(request.slug, "bun-build");
    assert_eq!(
        filter_bun_build(&entries.join("\n"), 0, None),
        format!("{}\n… +1 more artifacts", entries[..CAP_LIST].join("\n"))
    );
}

#[test]
fn build_reports_a_crash() {
    assert_eq!(filter_bun_build("chatter\n", 2, None), "bun build exited with code 2");
}

#[test]
fn run_keeps_indentation() {
    assert_eq!(filter_bun_run("  $ a\n\n\tb  \n", 0), "  $ a\n\tb  ");
}

#[test]
fn run_drops_blank_lines_and_the_banner() {
    assert_eq!(
        filter_bun_run("bun run v1.3.14 (0d9b296a)\n \n\u{1b}[32mbun bakes\u{1b}[0m\n", 1),
        "bun bakes"
    );
    assert_eq!(filter_bun_run("bun run v1.3.14 (0d9b296a)\n", 3), "bun run exited with code 3");
}

#[test]
fn run_lines_are_read_back() {
    let output = filter_bun_run("  a\r\n\nbun test v2\n$ b\n c ", 0);
    let lines: Vec<&str> = output.lines().collect();
    assert_eq!(lines, vec!["  a", "$ b", " c "]);
}

#[test]
fn banners_of_lines() {
    let lines = strings(&["  bun install v1", "bun add vX", "say bun run v1", "bun remove v0.1"]);
    let banner = find_banners(&lines);
    assert_eq!(banner, vec![true, false, false, true]);
    assert_eq!(
        keep_script_lines(&lines, &banner),
        strings(&["bun add vX", "say bun run v1"])
    );
    assert_eq!(keep_script_lines(&strings(&["", "x"]), &vec![false, true]), Vec::<String>::new());
}

#[test]
fn invocation_of_test() {
    let i = test_invocation(&strings(&["--bail", "a b"]), 0);
    assert_eq!(i.program, "bun");
    assert_eq!(i.args, strings(&["test", "--bail", "a b"]));
    assert_eq!(i.env, env(&[("LC_ALL", "C")]));
    assert_eq!(i.announcement, None);
    assert_eq!(i.label, "test --bail a b");
    assert_eq!(i.tee, "bun-test");
    assert_eq!(test_invocation(&[], 1).announcement, Some("Running: bun test ".to_string()));
}

#[test]
fn invocation_of_install() {
    let i = install_invocation(&strings(&["zod"]), 2, true);
    assert_eq!(i.args, strings(&["install", "zod"]));
    assert_eq!(i.env, env(&[("LC_ALL", "C"), ("SKIP_ENV_VALIDATION", "1")]));
    assert_eq!(i.announcement, Some("Running: bun install zod".to_string()));
    assert_eq!(i.label, "install zod");
    assert_eq!(i.tee, "bun-install");
    assert_eq!(install_invocation(&[], 0, false).env, env(&[("LC_ALL", "C")]));
}

#[test]
fn invocation_of_build() {
    let i = build_invocation(&strings(&["./index.ts", "--minify"]), 1);
    assert_eq!(i.args, strings(&["build", "./index.ts", "--minify"]));
    assert_eq!(i.env, env(&[("LC_ALL", "C")]));
    assert_eq!(i.announcement, Some("Running: bun build ./index.ts --minify".to_string()));
    assert_eq!(i.label, "build ./index.ts --minify");
    assert_eq!(i.tee, "bun-build");
}

#[test]
fn invocation_of_run_keeps_the_locale() {
    let i = run_invocation("dev", &strings(&["--watch", "x"]), 1, false);
    assert_eq!(i.program, "bun");
    assert_eq!(i.args, strings(&["run", "--silent", "dev", "--watch", "x"]));
    assert_eq!(i.env, env(&[]));
    assert_eq!(i.announcement, Some("Running: bun run dev --watch x".to_string()));
    assert_eq!(i.label, "run dev --watch x");
    assert_eq!(i.tee, "bun-run");
    assert_eq!(run_invocation("dev", &[], 0, true).env, env(&[("SKIP_ENV_VALIDATION", "1")]));
    assert_eq!(run_args("dev", &[]), strings(&["run", "--silent", "dev"]));
}
