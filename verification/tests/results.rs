use sequent_gateway::validate::results::Results;

#[test]
fn record_returns_live_line() {
    let mut r = Results::new();
    r.set_scenario("S1");
    r.set_category("Health Endpoint");
    let line = r.record("HH-01", "Health endpoint responds", true, "HTTP 200");
    assert_eq!(line, "  \u{2705} [PASS] HH-01: Health endpoint responds  (HTTP 200)");
    let line = r.record("HH-02", "Response is valid JSON", false, "");
    assert_eq!(line, "  \u{274C} [FAIL] HH-02: Response is valid JSON");
}

#[test]
fn totals_count_passes_and_failures() {
    let mut r = Results::new();
    assert_eq!(r.totals(), (0, 0, 0));
    r.set_scenario("A");
    r.record("X-1", "one", true, "");
    r.record("X-2", "two", false, "");
    r.set_scenario("B");
    r.record("X-3", "three", true, "");
    assert_eq!(r.totals(), (3, 2, 1));
    assert_eq!(r.scenario_totals("A"), (2, 1, 1));
    assert_eq!(r.scenario_totals("B"), (1, 1, 0));
    assert_eq!(r.scenario_totals("C"), (0, 0, 0));
}

#[test]
fn report_layout() {
    let mut r = Results::new();
    r.set_scenario("megaind (multi-slave)");
    r.set_category("Health");
    r.record("HH-01", "responds", true, "HTTP 200");
    r.record("HH-02", "json", false, "");
    r.set_category("Relays");
    r.record("HR-01", "relay 1", true, "");
    let rule = "=".repeat(70);
    let expect = format!(
        "\n{rule}\n  HARDWARE VALIDATION REPORT  (sequent-gateway validate)\n  Result: 2/3 passed, 1 failed\n{rule}\n\n  >> Scenario: megaind (multi-slave)  (2/3, 1 failed)\n    --- Health ---\n    [PASS] HH-01: responds  (HTTP 200)\n    [FAIL] HH-02: json\n    --- Relays ---\n    [PASS] HR-01: relay 1\n\n  TOTAL: 2/3 passed\n  FAILED: HH-02\n{rule}\n"
    );
    assert_eq!(r.report(), expect);
}

#[test]
fn report_without_failures_has_no_failed_line() {
    let mut r = Results::new();
    r.record("A-1", "a", true, "");
    let rep = r.report();
    assert!(rep.contains("  TOTAL: 1/1 passed\n"));
    assert!(!rep.contains("FAILED:"));
    // An empty scenario label opens no scenario section.
    assert!(!rep.contains(">> Scenario"));
}

#[test]
fn category_header_repeats_after_scenario_change() {
    let mut r = Results::new();
    r.set_scenario("S1");
    r.set_category("C");
    r.record("A", "a", true, "");
    r.set_scenario("S2");
    r.record("B", "b", false, "");
    let rep = r.report();
    assert_eq!(rep.matches("    --- C ---\n").count(), 2);
    assert!(rep.contains("  >> Scenario: S2  (0/1, 1 failed)\n"));
    assert!(rep.contains("  FAILED: B\n"));
}

#[test]
fn totals_count_every_record_under_its_scenario() {
    let mut res = Results::new();
    res.record("X-01", "before any scenario", true, "");
    res.set_scenario("A");
    res.set_category("one");
    res.record("A-01", "a", true, "");
    res.record("A-02", "b", false, "oops");
    res.set_scenario("B");
    res.record("B-01", "c", true, "");
    res.set_category("two");
    res.record("B-02", "d", true, "");
    res.set_scenario("A");
    res.record("A-03", "e", false, "");
    assert_eq!(res.totals(), (6, 4, 2));
    assert_eq!(res.scenario_totals("A"), (3, 1, 2));
    assert_eq!(res.scenario_totals("B"), (2, 2, 0));
    assert_eq!(res.scenario_totals(""), (1, 1, 0));
    assert_eq!(res.scenario_totals("C"), (0, 0, 0));
    let parts = [res.scenario_totals("A"), res.scenario_totals("B"), res.scenario_totals("")];
    let summed = parts.iter().fold((0, 0, 0), |acc, p| (acc.0 + p.0, acc.1 + p.1, acc.2 + p.2));
    assert_eq!(summed, res.totals());
}
