use bun_filter::bun_build::filter_bun_build;
use bun_filter::bun_install::filter_bun_install;
use bun_filter::bun_run::filter_bun_run;
use bun_filter::bun_test::filter_bun_test;
use bun_filter::command::run_args;
use bun_filter::limits::MAX_BUN_FAILURES;

const BUN_TEST_PASS: &str = "bun test v1.3.14 (0d9b296a)

 5 pass
 0 fail
 7 expect() calls
Ran 5 tests across 1 file. [11.00ms]
";

const BUN_TEST_FAIL: &str = "bun test v1.3.14 (0d9b296a)

math.test.ts:
(pass) math > adds [0.08ms]
1 | import { expect, test } from \"bun:test\";
2 | import { subtract } from \"./math\";
3 |
4 | test(\"subtracts\", () => {
5 |   expect(subtract(5, 2)).toBe(4);
                             ^
error: expect(received).toBe(expected)

Expected: 4
Received: 3

      at <anonymous> (/tmp/app/math.test.ts:5:26)
(fail) math > subtracts [0.41ms]

1 tests failed:
(fail) math > subtracts [0.41ms]

 1 pass
 1 fail
 2 expect() calls
Ran 2 tests across 1 file. [14.00ms]
";

const BUN_TEST_MIXED: &str = "bun test v1.3.14 (0d9b296a)

shop.test.ts:
(pass) shop > lists [0.12ms]
(pass) shop > counts [0.05ms]
(skip) shop > exports
(todo) shop > imports
 9 |   expect(order(1)).toEqual({ id: 1, name: \"gadget\" });
                       ^
error: expect(received).toEqual(expected)

  {
    \"id\": 1,
-   \"name\": \"gadget\",
+   \"name\": \"widget\",
  }

- Expected  - 1
+ Received  + 1

      at <anonymous> (/tmp/app/shop.test.ts:9:20)
(fail) shop > orders [1.03ms]
14 |   expect(total()).toBe(10);
                      ^
error: expect(received).toBe(expected)

Expected: 10
Received: 12

      at <anonymous> (/tmp/app/shop.test.ts:14:19)
(fail) shop > totals [0.22ms]

snapshots: +1 added
2 tests failed:
(fail) shop > orders [1.03ms]
(fail) shop > totals [0.22ms]

 2 pass
 1 skip
 1 todo
 2 fail
 1 snapshots, 5 expect() calls
Ran 6 tests across 1 file. [31.00ms]
";

const BUN_TEST_BAIL: &str = "bun test v1.3.14 (0d9b296a)

bail.test.ts:
error: expect(received).toBe(expected)

Expected: 1
Received: 2

(fail) first [0.30ms]
Bailed out after 1 failure
Ran 1 test across 1 file. [9.00ms]
";

const BUN_TEST_COVERAGE: &str = "bun test v1.3.14 (0d9b296a)

math.test.ts:
error: expect(received).toBe(expected)

Expected: 4
Received: 3

(fail) math > subtracts [0.41ms]
----------|---------|---------|-------------------
File      | % Funcs | % Lines | Uncovered Line #s
----------|---------|---------|-------------------
All files |   75.00 |   80.00 |
 math.ts  |   75.00 |   80.00 | 7-9
----------|---------|---------|-------------------

 3 pass
 1 fail
 1 snapshots, 4 expect() calls
Ran 4 tests across 1 file. [22.00ms]
";

const BUN_TEST_CRASH: &str = "bun test v1.3.14 (0d9b296a)\n\n";

const BUN_INSTALL: &str = "bun install v1.3.14 (0d9b296a)
Resolving dependencies
Resolved, downloaded and extracted [4]
Downloading zod@4.4.3
Extracting chalk@6.0.0
[####⸩ ⠋ 2/4
Saved lockfile

+ chalk@6.0.0
+ zod@4.4.3

2 packages installed [312.00ms]
";

const BUN_BUILD: &str = "Bundled 1 module in 6ms

  index.js  72 bytes  (entry point)

";

const BUN_RUN_SCRIPT: &str = "hello from script\n";

fn bun_test_many() -> String {
    let mut s = String::from("bun test v1.3.14 (0d9b296a)\n\nmany.test.ts:\n");
    let mut list = String::from("\n40 tests failed:\n");
    for i in 0..40 {
        s.push_str(&format!(
            "error: expect(received).toBe(expected)\n\nExpected: {}\nReceived: {}\n\n      at <anonymous> (/tmp/app/many.test.ts:{}:12)\n(fail) many > case {} [0.1{}ms]\n",
            i,
            i + 1,
            i + 4,
            i,
            i % 10
        ));
        list.push_str(&format!("(fail) many > case {} [0.1{}ms]\n", i, i % 10));
    }
    s.push_str(&list);
    s.push_str("\n 0 pass\n 40 fail\n 40 expect() calls\nRan 40 tests across 1 file. [58.00ms]\n");
    s
}

fn bun_test_real() -> String {
    let mut s = String::from("bun test v1.3.14 (0d9b296a)\n\nsrc/api.test.ts:\n");
    for i in 0..60 {
        s.push_str(&format!("(pass) api > answers request number {} [0.{}ms]\n", i, i + 10));
    }
    s.push_str("31 |   expect(res.status).toBe(200);\n                              ^\nerror: expect(received).toBe(expected)\n\nExpected: 200\nReceived: 404\n\n      at <anonymous> (/tmp/app/src/api.test.ts:31:27)\n(fail) api > finds a user [2.10ms]\n\nsrc/db.spec.ts:\n");
    for i in 0..19 {
        s.push_str(&format!("(pass) db > keeps the row {} after a restart [1.{}ms]\n", i, i + 10));
    }
    s.push_str("12 |   expect(rows.length).toBe(3);\n                             ^\nerror: expect(received).toBe(expected)\n\nExpected: 3\nReceived: 2\n\n      at <anonymous> (/tmp/app/src/db.spec.ts:12:26)\n(fail) db > counts rows [0.90ms]\n\n2 tests failed:\n(fail) api > finds a user [2.10ms]\n(fail) db > counts rows [0.90ms]\n\n 79 pass\n 2 fail\n 163 expect() calls\nRan 81 tests across 2 files. [402.00ms]\n");
    s
}

fn count_tokens(text: &str) -> usize {
    text.split_whitespace().count()
}

#[test]
fn test_filter_bun_test_all_pass() {
    let input = BUN_TEST_PASS;
    let output = filter_bun_test(input, 0, None);

    // Should NOT contain individual test lines
    assert!(
        !output.contains("(pass)"),
        "Filtered output still contains passing tests"
    );
    // Should contain summary
    assert!(output.contains("pass"));
    // Should NOT contain failure header
    assert!(!output.contains("FAILURES:"));

    // Bun 1.3.14 already prints just the summary when nothing fails, so
    // there is nothing to compress here; savings are asserted on the
    // failure-heavy fixtures, where the volume actually is.
    assert!(
        output.contains("5 pass") && output.contains("Ran 5 tests"),
        "summary lost:\n{}",
        output
    );
}

#[test]
fn test_filter_bun_test_with_failures() {
    let input = BUN_TEST_FAIL;
    let output = filter_bun_test(input, 1, None);

    // Should contain failure header and error details
    assert!(
        output.contains("FAILURES:"),
        "Missing FAILURES header:\n{}",
        output
    );
    assert!(
        output.contains("(fail)") || output.contains("fail"),
        "Missing failure markers:\n{}",
        output
    );
    // Should contain error context (captured from lines before the marker)
    assert!(
        output.contains("Expected:") && output.contains("Received:"),
        "Missing error details:\n{}",
        output
    );
    // Should NOT contain passing tests
    assert!(
        !output.contains("(pass)"),
        "Contains passing tests:\n{}",
        output
    );
}

#[test]
fn test_filter_bun_test_keeps_caret_column() {
    // The caret under an `expect(...)` call points at a column. Trimming the
    // context lines would move it, so the alignment must survive verbatim.
    let input = BUN_TEST_FAIL;
    let output = filter_bun_test(input, 1, None);

    let caret = output
        .lines()
        .find(|l| l.trim() == "^")
        .expect("caret line must be kept");
    let indent = caret.len() - caret.trim_start().len();
    assert!(
        indent > 10,
        "caret lost its column (indent {}):\n{}",
        indent,
        output
    );
    assert_eq!(caret, "                             ^");
}

#[test]
fn test_filter_bun_test_keeps_diff_indentation() {
    // A `toEqual` diff is indentation-sensitive: the -/+ lines and their
    // nesting are what make the diff readable.
    let input = BUN_TEST_MIXED;
    let output = filter_bun_test(input, 1, None);

    assert!(
        output.contains("-   \"name\": \"gadget\",")
            && output.contains("+   \"name\": \"widget\","),
        "toEqual diff lost its indentation:\n{}",
        output
    );
}

#[test]
fn test_filter_bun_test_keeps_todo_and_snapshot_counts() {
    let input = BUN_TEST_MIXED;
    let output = filter_bun_test(input, 1, None);

    for expected in ["2 pass", "1 skip", "1 todo", "2 fail", "snapshots: +1 added"] {
        assert!(
            output.contains(expected),
            "summary line {:?} was dropped:\n{}",
            expected,
            output
        );
    }
}

#[test]
fn test_filter_bun_test_keeps_bailed_out() {
    let input = BUN_TEST_BAIL;
    let output = filter_bun_test(input, 1, None);

    assert!(
        output.contains("Bailed out after 1 failure"),
        "--bail notice was dropped:\n{}",
        output
    );
}

#[test]
fn test_filter_bun_test_keeps_coverage_table() {
    let input = BUN_TEST_COVERAGE;
    let output = filter_bun_test(input, 1, None);

    assert!(
        output.contains("% Funcs") && output.contains("All files"),
        "--coverage table was dropped:\n{}",
        output
    );
    // The snapshot variant of the expect() line must survive too
    assert!(
        output.contains("1 snapshots, 4 expect() calls"),
        "snapshot expect() summary was dropped:\n{}",
        output
    );
}

#[test]
fn test_filter_bun_test_caps_failures_with_hint() {
    let input = bun_test_many();
    let output = filter_bun_test(&input, 1, None);

    let kept = output.lines().filter(|l| l.contains("(fail)")).count();
    assert_eq!(
        kept, MAX_BUN_FAILURES,
        "failure blocks were not capped:\n{}",
        output
    );
    assert!(
        output.contains("more failures"),
        "capped output must say what was hidden:\n{}",
        output
    );
    // Summary still survives the cap
    assert!(
        output.contains("40 fail"),
        "summary lost after capping:\n{}",
        output
    );

    let savings = 100.0 - (count_tokens(&output) as f64 / count_tokens(&input) as f64 * 100.0);
    assert!(
        savings >= 60.0,
        "bun test (40 failures): expected >=60% savings, got {:.1}%",
        savings
    );
}

#[test]
fn test_filter_bun_test_crash_reports_exit_code() {
    // A SIGKILLed run prints the banner and nothing else. Exit 137 must not
    // be reported as "ok".
    let input = BUN_TEST_CRASH;
    let output = filter_bun_test(input, 137, None);

    assert_ne!(output, "ok", "crash reported as success");
    assert!(
        output.contains("137"),
        "exit code must be surfaced:\n{}",
        output
    );
}

#[test]
fn test_filter_bun_test_empty() {
    let output = filter_bun_test("", 0, None);
    assert!(output.is_empty() || output == "ok");
}

#[test]
fn test_filter_bun_install() {
    let input = BUN_INSTALL;
    let output = filter_bun_install(input, 0, None);

    // Should not contain progress noise
    assert!(!output.contains("Resolving"));
    assert!(!output.contains("Downloading"));
    // Should keep the installed packages and the count
    assert!(
        output.contains("+ zod@4.4.3") && output.contains("2 packages installed"),
        "install summary lost:\n{}",
        output
    );
}

#[test]
fn test_filter_bun_build() {
    let input = BUN_BUILD;
    let output = filter_bun_build(input, 0, None);

    // The artifact line is the point of `bun build`; it must survive
    assert!(
        output.contains("index.js") && output.contains("72 bytes"),
        "build artifact was dropped:\n{}",
        output
    );
    assert!(
        output.contains("Bundled 1 module"),
        "build summary was dropped:\n{}",
        output
    );
}

#[test]
fn test_filter_bun_run_keeps_script_output() {
    let input = BUN_RUN_SCRIPT;
    let output = filter_bun_run(input, 0);

    assert_eq!(output, "hello from script");
}

#[test]
fn test_filter_bun_run_keeps_every_dollar_line() {
    // With `--silent` there is no echo to strip, so every `$` line is the
    // script's. Dropping one used to eat real output: bun writes the echo
    // to stderr and the script to stdout, and stdout lands first.
    let input = "$HOME is not set\n$ docker build .\ndone\n";
    let output = filter_bun_run(input, 0);

    assert_eq!(output, "$HOME is not set\n$ docker build .\ndone");
}

#[test]
fn test_bun_run_passes_silent_before_script() {
    // `--silent` is a `bun run` flag: after the script name it would be
    // forwarded to the script instead.
    let argv = run_args("dev", &["--watch".to_string()]);
    assert_eq!(argv, vec!["run", "--silent", "dev", "--watch"]);
}

#[test]
fn test_filter_bun_run_empty() {
    let output = filter_bun_run("\n\n\n", 0);
    assert_eq!(output, "ok");
}

#[test]
fn test_filter_bun_run_empty_after_crash() {
    let output = filter_bun_run("\n\n\n", 1);
    assert_eq!(output, "bun run exited with code 1");
}

#[test]
fn test_filter_bun_install_empty() {
    let output = filter_bun_install("\n\n", 0, None);
    assert_eq!(output, "ok");
}

#[test]
fn test_filter_bun_build_empty() {
    let output = filter_bun_build("", 0, None);
    assert_eq!(output, "ok");
}

#[test]
fn test_filter_bun_test_real_output() {
    let input = bun_test_real();
    let output = filter_bun_test(&input, 1, None);

    // Must NOT contain passing test lines
    assert!(
        !output.contains("(pass)"),
        "Filtered output still contains passing tests:\n{}",
        output
    );
    // Must contain failure details with error context
    assert!(
        output.contains("FAILURES:"),
        "Filtered output missing FAILURES header:\n{}",
        output
    );
    assert!(
        output.contains("Expected:") && output.contains("Received:"),
        "Filtered output missing error details:\n{}",
        output
    );
    // Must contain summary
    assert!(
        output.contains("79 pass"),
        "Filtered output missing summary:\n{}",
        output
    );
    assert!(
        output.contains("Ran 81 tests"),
        "Filtered output missing run count:\n{}",
        output
    );

    // Token savings must be >= 60%
    let input_tokens = count_tokens(&input);
    let output_tokens = count_tokens(&output);
    let savings = 100.0 - (output_tokens as f64 / input_tokens as f64 * 100.0);
    assert!(
        savings >= 60.0,
        "bun test (real): expected >=60% savings, got {:.1}% ({} -> {} tokens)\nOutput:\n{}",
        savings,
        input_tokens,
        output_tokens,
        output
    );
}

#[test]
fn test_filter_bun_test_tty_format() {
    // TTY format uses ✓/✗ instead of (pass)/(fail)
    let input = "bun test v1.1.0 (abc)\n\ntest.ts:\n✓ passes [1ms]\n  Expected: 1\n  Received: 2\n✗ fails [1ms]\n\n 1 pass\n 1 fail\n 2 expect() calls\nRan 2 tests across 1 files. [10.00ms]\n";
    let output = filter_bun_test(input, 1, None);

    assert!(
        output.contains("FAILURES:"),
        "Missing FAILURES for TTY format:\n{}",
        output
    );
    assert!(
        output.contains("Expected:"),
        "Missing error context for TTY format:\n{}",
        output
    );
    assert!(
        output.contains("1 pass"),
        "Missing summary for TTY format:\n{}",
        output
    );
}

#[test]
fn test_filter_bun_test_load_failure_not_ok() {
    // A module/syntax error aborts before any test runs — no markers, no
    // summary. Must NOT collapse to a misleading "ok"; the error must survive.
    let input = "bun test v1.1.38 (abc)\n\nerror: Cannot find module 'foo' from 'test.ts'\n      at resolve (bun:internal)\n";
    let output = filter_bun_test(input, 1, None);
    assert_ne!(
        output, "ok",
        "load failure must not be reported as ok:\n{}",
        output
    );
    assert!(
        output.contains("Cannot find module"),
        "error text must survive:\n{}",
        output
    );
}

#[test]
fn test_filter_bun_test_app_log_fail_prefix_no_false_failure() {
    // An app logging a line starting with "FAIL..." during a passing test
    // must not fabricate a failure — "FAIL" is not a bun marker.
    let input = "bun test v1.1.38 (abc)\n\napp.test.ts:\nFAILED to connect to db, retrying...\n(pass) connects after retry [1.00ms]\n\n 1 pass\n 0 fail\n 1 expect() calls\nRan 1 tests across 1 files. [5.00ms]\n";
    let output = filter_bun_test(input, 0, None);
    assert!(
        !output.contains("FAILURES:"),
        "must not fabricate failures from app logs:\n{}",
        output
    );
    assert!(output.contains("1 pass"), "summary must survive:\n{}", output);
}

#[test]
fn test_filter_bun_test_app_log_checkmark_preserves_context() {
    // An app log starting with ✓ (no timing suffix) must not be mistaken for
    // a pass marker and clear the buffered error context of a real failure.
    let input = "bun test v1.1.38 (abc)\n\napp.test.ts:\n  Expected: 1\n  Received: 2\n✓ cache refreshed after retry\n(fail) computes value [1.00ms]\n\n 0 pass\n 1 fail\n 1 expect() calls\nRan 1 tests across 1 files. [3.00ms]\n";
    let output = filter_bun_test(input, 1, None);
    assert!(
        output.contains("FAILURES:"),
        "real failure must be reported:\n{}",
        output
    );
    assert!(
        output.contains("Expected:") && output.contains("Received:"),
        "error context must be preserved:\n{}",
        output
    );
}

#[test]
fn test_filter_bun_test_app_log_pass_word_not_summary() {
    // A console line like "5 passengers ..." must not be misread as the
    // "N pass" summary line (word-boundary bug).
    let input = "bun test v1.1.38 (abc)\n\napp.test.ts:\n  Expected: 5\n  Received: 3\n5 passengers boarded before the fail\n(fail) boarding count [1.00ms]\n\n 0 pass\n 1 fail\n 1 expect() calls\nRan 1 tests across 1 files. [2.00ms]\n";
    let output = filter_bun_test(input, 1, None);
    assert!(
        output.contains("Expected:") && output.contains("Received:"),
        "context must be preserved, not misfiled as summary:\n{}",
        output
    );
    assert!(
        output.contains("0 pass") && output.contains("1 fail"),
        "real summary must survive:\n{}",
        output
    );
}
