//! Test result tracking and report generation.
use vstd::prelude::*;
use vstd::string::StringExecFns;

use crate::text::{join, push_decimal, spec_decimal, spec_join, strings_view};

verus! {

/// Abstract form of one recorded outcome.
pub struct EntryView {
    pub id: Seq<char>,
    pub scenario: Seq<char>,
    pub category: Seq<char>,
    pub desc: Seq<char>,
    pub passed: bool,
    pub detail: Seq<char>,
}

/// Single test outcome.
#[derive(Debug)]
struct Entry {
    id: String,
    scenario: String,
    category: String,
    desc: String,
    passed: bool,
    detail: String,
}

impl View for Entry {
    type V = EntryView;

    closed spec fn view(&self) -> EntryView {
        EntryView {
            id: self.id@,
            scenario: self.scenario@,
            category: self.category@,
            desc: self.desc@,
            passed: self.passed,
            detail: self.detail@,
        }
    }
}

/// Abstract state of [`Results`]: the recorded entries in order and the
/// current scenario and category labels.
pub struct ResultsView {
    pub entries: Seq<EntryView>,
    pub scenario: Seq<char>,
    pub category: Seq<char>,
}

/// Accumulates test results across all scenarios.
#[derive(Debug)]
pub struct Results {
    entries: Vec<Entry>,
    scenario: String,
    category: String,
}

impl View for Results {
    type V = ResultsView;

    closed spec fn view(&self) -> ResultsView {
        ResultsView {
            entries: self.entries@.map_values(|e: Entry| e@),
            scenario: self.scenario@,
            category: self.category@,
        }
    }
}

// ── Counting ─────────────────────────────────────────────────────────

/// Number of passed entries.
pub open spec fn spec_passed(es: Seq<EntryView>) -> nat
    decreases es.len(),
{
    if es.len() == 0 {
        0
    } else {
        spec_passed(es.drop_last()) + if es.last().passed {
            1nat
        } else {
            0nat
        }
    }
}

/// Number of entries recorded under scenario `name`.
pub open spec fn spec_scn_total(es: Seq<EntryView>, name: Seq<char>) -> nat
    decreases es.len(),
{
    if es.len() == 0 {
        0
    } else {
        spec_scn_total(es.drop_last(), name) + if es.last().scenario == name {
            1nat
        } else {
            0nat
        }
    }
}

/// Number of passed entries recorded under scenario `name`.
pub open spec fn spec_scn_passed(es: Seq<EntryView>, name: Seq<char>) -> nat
    decreases es.len(),
{
    if es.len() == 0 {
        0
    } else {
        spec_scn_passed(es.drop_last(), name) + if es.last().scenario == name
            && es.last().passed {
            1nat
        } else {
            0nat
        }
    }
}

/// Ids of the failed entries, in order.
pub open spec fn spec_failed_ids(es: Seq<EntryView>) -> Seq<Seq<char>>
    decreases es.len(),
{
    if es.len() == 0 {
        Seq::empty()
    } else if es.last().passed {
        spec_failed_ids(es.drop_last())
    } else {
        spec_failed_ids(es.drop_last()).push(es.last().id)
    }
}

// ── Text ─────────────────────────────────────────────────────────────

/// A run of 70 `=` characters.
pub open spec fn spec_rule() -> Seq<char> {
    Seq::new(70, |i: int| '=')
}

/// `PASS` or `FAIL`.
pub open spec fn spec_tag(passed: bool) -> Seq<char> {
    if passed {
        "PASS"@
    } else {
        "FAIL"@
    }
}

/// `"  (detail)"` for a non-empty detail, nothing otherwise.
pub open spec fn spec_detail_suffix(detail: Seq<char>) -> Seq<char> {
    if detail.len() == 0 {
        Seq::empty()
    } else {
        "  ("@ + detail + ")"@
    }
}

/// The live status line of one recorded outcome (without line break).
pub open spec fn spec_live_line(
    id: Seq<char>,
    desc: Seq<char>,
    passed: bool,
    detail: Seq<char>,
) -> Seq<char> {
    "  "@ + (if passed {
        "\u{2705}"@
    } else {
        "\u{274C}"@
    }) + " ["@ + spec_tag(passed) + "] "@ + id + ": "@ + desc + spec_detail_suffix(detail)
}

/// The scenario label in force before entry `i` (empty before the first).
pub open spec fn spec_prev_scenario(es: Seq<EntryView>, i: int) -> Seq<char> {
    if i == 0 {
        Seq::empty()
    } else {
        es[i - 1].scenario
    }
}

/// Whether entry `i` opens a new scenario section.
pub open spec fn spec_new_scenario(es: Seq<EntryView>, i: int) -> bool {
    es[i].scenario != spec_prev_scenario(es, i)
}

/// The category label in force before entry `i` (empty at the start of a
/// scenario section).
pub open spec fn spec_prev_category(es: Seq<EntryView>, i: int) -> Seq<char> {
    if i == 0 || spec_new_scenario(es, i) {
        Seq::empty()
    } else {
        es[i - 1].category
    }
}

/// The header that opens the section of scenario `name`, with its counts.
pub open spec fn spec_scenario_header(es: Seq<EntryView>, name: Seq<char>) -> Seq<char> {
    let st = spec_scn_total(es, name);
    let sp = spec_scn_passed(es, name);
    "\n"@ + "  >> Scenario: "@ + name + "  ("@ + spec_decimal(sp) + "/"@ + spec_decimal(st) + ", "@
        + spec_decimal((st - sp) as nat) + " failed)\n"@
}

/// The header that opens a category.
pub open spec fn spec_category_header(category: Seq<char>) -> Seq<char> {
    "    --- "@ + category + " ---\n"@
}

/// The report line of one entry.
pub open spec fn spec_entry_line(e: EntryView) -> Seq<char> {
    "    ["@ + spec_tag(e.passed) + "] "@ + e.id + ": "@ + e.desc + spec_detail_suffix(e.detail)
        + "\n"@
}

/// The report lines of entry `i`: a scenario header when the scenario
/// changes, a category header when the category changes, then the entry.
pub open spec fn spec_entry_block(es: Seq<EntryView>, i: int) -> Seq<char> {
    let e = es[i];
    (if spec_new_scenario(es, i) {
        spec_scenario_header(es, e.scenario)
    } else {
        Seq::empty()
    }) + (if e.category != spec_prev_category(es, i) {
        spec_category_header(e.category)
    } else {
        Seq::empty()
    }) + spec_entry_line(e)
}

/// The blocks of the first `n` entries.
pub open spec fn spec_report_body(es: Seq<EntryView>, n: nat) -> Seq<char>
    decreases n,
{
    if n == 0 {
        Seq::empty()
    } else {
        spec_report_body(es, (n - 1) as nat) + spec_entry_block(es, n - 1)
    }
}

/// The banner at the top of the report.
pub open spec fn spec_report_head(es: Seq<EntryView>) -> Seq<char> {
    let t = es.len();
    let p = spec_passed(es);
    "\n"@ + spec_rule() + "\n"@ + "  HARDWARE VALIDATION REPORT  (sequent-gateway validate)\n"@
        + "  Result: "@ + spec_decimal(p) + "/"@ + spec_decimal(t) + " passed, "@ + spec_decimal(
        (t - p) as nat,
    ) + " failed\n"@ + spec_rule() + "\n"@
}

/// The closing lines of the report.
pub open spec fn spec_report_tail(es: Seq<EntryView>) -> Seq<char> {
    let t = es.len();
    let p = spec_passed(es);
    "\n"@ + "  TOTAL: "@ + spec_decimal(p) + "/"@ + spec_decimal(t) + " passed\n"@ + (if t - p > 0 {
        "  FAILED: "@ + spec_join(spec_failed_ids(es), ", "@) + "\n"@
    } else {
        Seq::empty()
    }) + spec_rule() + "\n"@
}

/// The full paste-friendly report.
pub open spec fn spec_report(es: Seq<EntryView>) -> Seq<char> {
    spec_report_head(es) + spec_report_body(es, es.len()) + spec_report_tail(es)
}

fn push_rule(s: &mut String)
    ensures
        final(s)@ == old(s)@ + spec_rule(),
{
    let ghost start = s@;
    let mut k: usize = 0;
    while k < 70
        invariant
            k <= 70,
            s@ == start + Seq::new(k as nat, |i: int| '='),
        decreases 70 - k,
    {
        proof {
            reveal_strlit("=");
        }
        let ghost prev = s@;
        s.append("=");
        k += 1;
        proof {
            assert(s@ == prev + seq!['=']);
            assert(s@ =~= start + Seq::new(k as nat, |i: int| '='));
        }
    }
    proof {
        assert(Seq::new(70nat, |i: int| '=') =~= spec_rule());
    }
}

fn push_tag(s: &mut String, passed: bool)
    ensures
        final(s)@ == old(s)@ + spec_tag(passed),
{
    if passed {
        s.append("PASS");
    } else {
        s.append("FAIL");
    }
}

fn push_detail(s: &mut String, detail: &str)
    ensures
        final(s)@ == old(s)@ + spec_detail_suffix(detail@),
{
    if !detail.is_empty() {
        s.append("  (");
        s.append(detail);
        s.append(")");
    }
}

fn push_entry_line(out: &mut String, e: &Entry)
    ensures
        final(out)@ == old(out)@ + spec_entry_line(e@),
{
    out.append("    [");
    push_tag(out, e.passed);
    out.append("] ");
    out.append(e.id.as_str());
    out.append(": ");
    out.append(e.desc.as_str());
    push_detail(out, e.detail.as_str());
    out.append("\n");
}

impl Results {
    /// No entries, empty labels.
    pub fn new() -> (r: Self)
        ensures
            r@.entries == Seq::<EntryView>::empty(),
            r@.scenario == Seq::<char>::empty(),
            r@.category == Seq::<char>::empty(),
    {
        Results { entries: Vec::new(), scenario: String::new(), category: String::new() }
    }

    /// Set the current scenario label.
    pub fn set_scenario(&mut self, name: &str)
        ensures
            final(self)@ == (ResultsView { scenario: name@, ..old(self)@ }),
    {
        self.scenario = String::from_str(name);
    }

    /// Set the current test category label.
    pub fn set_category(&mut self, name: &str)
        ensures
            final(self)@ == (ResultsView { category: name@, ..old(self)@ }),
    {
        self.category = String::from_str(name);
    }

    /// Record a test result under the current scenario and category, and
    /// return its live status line.
    pub fn record(&mut self, id: &str, desc: &str, passed: bool, detail: &str) -> (line: String)
        ensures
            final(self)@ == (ResultsView {
                entries: old(self)@.entries.push(
                    EntryView {
                        id: id@,
                        scenario: old(self)@.scenario,
                        category: old(self)@.category,
                        desc: desc@,
                        passed,
                        detail: detail@,
                    },
                ),
                ..old(self)@
            }),
            line@ == spec_live_line(id@, desc@, passed, detail@),
    {
        let mut line = String::from_str("  ");
        if passed {
            line.append("\u{2705}");
        } else {
            line.append("\u{274C}");
        }
        line.append(" [");
        push_tag(&mut line, passed);
        line.append("] ");
        line.append(id);
        line.append(": ");
        line.append(desc);
        push_detail(&mut line, detail);
        let e = Entry {
            id: String::from_str(id),
            scenario: self.scenario.clone(),
            category: self.category.clone(),
            desc: String::from_str(desc),
            passed,
            detail: String::from_str(detail),
        };
        self.entries.push(e);
        proof {
            assert(self@.entries =~= old(self)@.entries.push(e@));
        }
        line
    }

    /// (total, passed, failed) across all scenarios.
    pub fn totals(&self) -> (r: (usize, usize, usize))
        ensures
            r.0 == self@.entries.len(),
            r.1 == spec_passed(self@.entries),
            r.1 <= r.0,
            r.2 == r.0 - r.1,
    {
        let ghost es = self@.entries;
        let mut p: usize = 0;
        let mut i: usize = 0;
        while i < self.entries.len()
            invariant
                es == self@.entries,
                i <= es.len(),
                es.len() == self.entries@.len(),
                p == spec_passed(es.subrange(0, i as int)),
                p <= i,
            decreases es.len() - i,
        {
            proof {
                assert(es.subrange(0, i + 1).drop_last() =~= es.subrange(0, i as int));
            }
            if self.entries[i].passed {
                p += 1;
            }
            i += 1;
        }
        proof {
            assert(es.subrange(0, es.len() as int) =~= es);
        }
        let t = self.entries.len();
        (t, p, t - p)
    }

    /// (total, passed, failed) for one scenario.  Summed over the distinct
    /// scenario labels, these give [`Results::totals`] (see
    /// [`lemma_scenario_totals_sum_to_totals`]).
    pub fn scenario_totals(&self, name: &str) -> (r: (usize, usize, usize))
        ensures
            r.0 == spec_scn_total(self@.entries, name@),
            r.1 == spec_scn_passed(self@.entries, name@),
            r.1 <= r.0,
            r.2 == r.0 - r.1,
    {
        let ghost es = self@.entries;
        let target = String::from_str(name);
        let mut t: usize = 0;
        let mut p: usize = 0;
        let mut i: usize = 0;
        while i < self.entries.len()
            invariant
                es == self@.entries,
                target@ == name@,
                i <= es.len(),
                es.len() == self.entries@.len(),
                t == spec_scn_total(es.subrange(0, i as int), name@),
                p == spec_scn_passed(es.subrange(0, i as int), name@),
                p <= t,
                t <= i,
            decreases es.len() - i,
        {
            proof {
                assert(es.subrange(0, i + 1).drop_last() =~= es.subrange(0, i as int));
            }
            if self.entries[i].scenario == target {
                t += 1;
                if self.entries[i].passed {
                    p += 1;
                }
            }
            i += 1;
        }
        proof {
            assert(es.subrange(0, es.len() as int) =~= es);
        }
        (t, p, t - p)
    }

    fn failed_ids(&self) -> (ids: Vec<String>)
        ensures
            strings_view(ids@) == spec_failed_ids(self@.entries),
    {
        let ghost es = self@.entries;
        let mut ids: Vec<String> = Vec::new();
        let mut i: usize = 0;
        while i < self.entries.len()
            invariant
                es == self@.entries,
                i <= es.len(),
                es.len() == self.entries@.len(),
                strings_view(ids@) == spec_failed_ids(es.subrange(0, i as int)),
            decreases es.len() - i,
        {
            proof {
                assert(es.subrange(0, i + 1).drop_last() =~= es.subrange(0, i as int));
            }
            if !self.entries[i].passed {
                let ghost before = ids@;
                ids.push(self.entries[i].id.clone());
                proof {
                    assert(strings_view(ids@) =~= strings_view(before).push(es[i as int].id));
                }
            }
            i += 1;
        }
        proof {
            assert(es.subrange(0, es.len() as int) =~= es);
        }
        ids
    }

    fn is_new_scenario(&self, i: usize) -> (b: bool)
        requires
            i < self@.entries.len(),
        ensures
            b == spec_new_scenario(self@.entries, i as int),
    {
        let ghost es = self@.entries;
        proof {
            assert(es[i as int] == self.entries@[i as int]@);
            if i > 0 {
                assert(es[i - 1] == self.entries@[i - 1]@);
            }
            if es[i as int].scenario.len() == 0 {
                assert(es[i as int].scenario =~= Seq::<char>::empty());
            }
        }
        if i == 0 {
            !self.entries[i].scenario.as_str().is_empty()
        } else {
            !(self.entries[i].scenario == self.entries[i - 1].scenario)
        }
    }

    fn is_new_category(&self, i: usize, new_scn: bool) -> (b: bool)
        requires
            i < self@.entries.len(),
            new_scn == spec_new_scenario(self@.entries, i as int),
        ensures
            b == (self@.entries[i as int].category != spec_prev_category(self@.entries, i as int)),
    {
        let ghost es = self@.entries;
        proof {
            assert(es[i as int] == self.entries@[i as int]@);
            if i > 0 {
                assert(es[i - 1] == self.entries@[i - 1]@);
            }
            if es[i as int].category.len() == 0 {
                assert(es[i as int].category =~= Seq::<char>::empty());
            }
        }
        if i == 0 || new_scn {
            !self.entries[i].category.as_str().is_empty()
        } else {
            !(self.entries[i].category == self.entries[i - 1].category)
        }
    }

    #[verifier::spinoff_prover]
    #[verifier::rlimit(40)]
    fn push_scenario_header(&self, out: &mut String, name: &str)
        ensures
            final(out)@ == old(out)@ + spec_scenario_header(self@.entries, name@),
    {
        let ghost start = out@;
        let (st, sp, sf) = self.scenario_totals(name);
        let mut h = String::from_str("\n");
        h.append("  >> Scenario: ");
        h.append(name);
        h.append("  (");
        push_decimal(&mut h, sp as u64);
        h.append("/");
        push_decimal(&mut h, st as u64);
        h.append(", ");
        push_decimal(&mut h, sf as u64);
        h.append(" failed)\n");
        assert(h@ =~= spec_scenario_header(self@.entries, name@));
        out.append(h.as_str());
    }

    fn push_entry_block(&self, out: &mut String, i: usize)
        requires
            i < self@.entries.len(),
        ensures
            final(out)@ == old(out)@ + spec_entry_block(self@.entries, i as int),
    {
        let ghost es = self@.entries;
        let ghost start = out@;
        let e = &self.entries[i];
        proof {
            assert(es[i as int] == e@);
        }
        let new_scn = self.is_new_scenario(i);
        if new_scn {
            self.push_scenario_header(out, e.scenario.as_str());
        }
        let ghost after_scn = out@;
        let new_cat = self.is_new_category(i, new_scn);
        if new_cat {
            out.append("    --- ");
            out.append(e.category.as_str());
            out.append(" ---\n");
        }
        let ghost after_cat = out@;
        push_entry_line(out, e);
        proof {
            assert(after_cat == after_scn + (if new_cat {
                spec_category_header(e@.category)
            } else {
                Seq::empty()
            }));
            assert(out@ =~= start + spec_entry_block(es, i as int));
        }
    }

    /// Build the final paste-friendly report.
    pub fn report(&self) -> (out: String)
        ensures
            out@ == spec_report(self@.entries),
    {
        let ghost es = self@.entries;
        let (total, passed, failed) = self.totals();
        let mut out = String::new();
        out.append("\n");
        push_rule(&mut out);
        out.append("\n");
        out.append("  HARDWARE VALIDATION REPORT  (sequent-gateway validate)\n");
        out.append("  Result: ");
        push_decimal(&mut out, passed as u64);
        out.append("/");
        push_decimal(&mut out, total as u64);
        out.append(" passed, ");
        push_decimal(&mut out, failed as u64);
        out.append(" failed\n");
        push_rule(&mut out);
        out.append("\n");
        let ghost head = out@;
        assert(head == spec_report_head(es));
        let mut i: usize = 0;
        while i < self.entries.len()
            invariant
                es == self@.entries,
                es.len() == self.entries@.len(),
                i <= es.len(),
                out@ == head + spec_report_body(es, i as nat),
            decreases es.len() - i,
        {
            self.push_entry_block(&mut out, i);
            i += 1;
        }
        let ghost body_end = out@;
        out.append("\n");
        out.append("  TOTAL: ");
        push_decimal(&mut out, passed as u64);
        out.append("/");
        push_decimal(&mut out, total as u64);
        out.append(" passed\n");
        if failed > 0 {
            let ids = self.failed_ids();
            let joined = join(ids.as_slice(), ", ");
            out.append("  FAILED: ");
            out.append(joined.as_str());
            out.append("\n");
        }
        push_rule(&mut out);
        out.append("\n");
        proof {
            assert(out@ =~= body_end + spec_report_tail(es));
        }
        out
    }
}

// ── Laws ─────────────────────────────────────────────────────────────

/// Recording an outcome adds one to the total, one to the passed count
/// exactly when it passed, and its id to the failed ids exactly when it
/// failed; the counts of every other scenario stay as they were.
pub proof fn lemma_record_updates_counts(es: Seq<EntryView>, e: EntryView, other: Seq<char>)
    requires
        other != e.scenario,
    ensures
        es.push(e).len() == es.len() + 1,
        spec_passed(es.push(e)) == spec_passed(es) + if e.passed {
            1nat
        } else {
            0nat
        },
        spec_failed_ids(es.push(e)) == if e.passed {
            spec_failed_ids(es)
        } else {
            spec_failed_ids(es).push(e.id)
        },
        spec_scn_total(es.push(e), other) == spec_scn_total(es, other),
        spec_scn_passed(es.push(e), other) == spec_scn_passed(es, other),
{
    assert(es.push(e).drop_last() =~= es);
}


/// A call on [`Results`] that changes it.
pub enum ResultsCall {
    /// `set_scenario(name)`.
    SetScenario(Seq<char>),
    /// `set_category(name)`.
    SetCategory(Seq<char>),
    /// `record(id, desc, passed, detail)`.
    Record { id: Seq<char>, desc: Seq<char>, passed: bool, detail: Seq<char> },
}

/// The results after one call, as the call's contract states it.
pub open spec fn spec_after_call(r: ResultsView, c: ResultsCall) -> ResultsView {
    match c {
        ResultsCall::SetScenario(name) => ResultsView { scenario: name, ..r },
        ResultsCall::SetCategory(name) => ResultsView { category: name, ..r },
        ResultsCall::Record { id, desc, passed, detail } => ResultsView {
            entries: r.entries.push(
                EntryView { id, scenario: r.scenario, category: r.category, desc, passed, detail },
            ),
            ..r
        },
    }
}

/// The results after the calls `cs`, in order.
pub open spec fn spec_after_calls(r: ResultsView, cs: Seq<ResultsCall>) -> ResultsView
    decreases cs.len(),
{
    if cs.len() == 0 {
        r
    } else {
        spec_after_calls(spec_after_call(r, cs[0]), cs.drop_first())
    }
}

/// Among the calls `cs`, made with the scenario label `label` in force,
/// the number of records made under the label `name` (all of them when
/// `name` is `None`), and of those the number that passed.
pub open spec fn spec_records(label: Seq<char>, cs: Seq<ResultsCall>, name: Option<Seq<char>>) -> (
    nat,
    nat,
)
    decreases cs.len(),
{
    if cs.len() == 0 {
        (0, 0)
    } else {
        match cs[0] {
            ResultsCall::SetScenario(l) => spec_records(l, cs.drop_first(), name),
            ResultsCall::SetCategory(_) => spec_records(label, cs.drop_first(), name),
            ResultsCall::Record { passed, .. } => {
                let rest = spec_records(label, cs.drop_first(), name);
                let counted = name is None || name == Some(label);
                (
                    rest.0 + if counted {
                        1nat
                    } else {
                        0nat
                    },
                    rest.1 + if counted && passed {
                        1nat
                    } else {
                        0nat
                    },
                )
            },
        }
    }
}

/// Totals over any sequence of calls: starting from `r` (fresh results
/// have no entries and an empty scenario label), the total grows by the
/// number of records made and the passed count by the number of those
/// that passed; the totals of scenario `name` grow by the records made
/// while `name` was the scenario label, and their passed count by those
/// that passed.  (`totals` and `scenario_totals` return these counts, and
/// the failed count as their difference.)
pub proof fn lemma_totals_count_records(r: ResultsView, cs: Seq<ResultsCall>, name: Seq<char>)
    ensures
        spec_after_calls(r, cs).entries.len() == r.entries.len() + spec_records(
            r.scenario,
            cs,
            None,
        ).0,
        spec_passed(spec_after_calls(r, cs).entries) == spec_passed(r.entries) + spec_records(
            r.scenario,
            cs,
            None,
        ).1,
        spec_scn_total(spec_after_calls(r, cs).entries, name) == spec_scn_total(r.entries, name)
            + spec_records(r.scenario, cs, Some(name)).0,
        spec_scn_passed(spec_after_calls(r, cs).entries, name) == spec_scn_passed(r.entries, name)
            + spec_records(r.scenario, cs, Some(name)).1,
    decreases cs.len(),
{
    if cs.len() > 0 {
        let r1 = spec_after_call(r, cs[0]);
        lemma_totals_count_records(r1, cs.drop_first(), name);
        if let ResultsCall::Record { id, desc, passed, detail } = cs[0] {
            let e = EntryView { id, scenario: r.scenario, category: r.category, desc, passed, detail };
            assert(r.entries.push(e).drop_last() =~= r.entries);
        }
    }
}


/// The per-scenario totals of `es` (total and passed) summed over the
/// labels `labels`.
pub open spec fn spec_summed_totals(es: Seq<EntryView>, labels: Seq<Seq<char>>) -> (nat, nat)
    decreases labels.len(),
{
    if labels.len() == 0 {
        (0, 0)
    } else {
        let rest = spec_summed_totals(es, labels.drop_last());
        (
            rest.0 + spec_scn_total(es, labels.last()),
            rest.1 + spec_scn_passed(es, labels.last()),
        )
    }
}

/// How many of `labels` equal `x`.
pub open spec fn spec_label_count(labels: Seq<Seq<char>>, x: Seq<char>) -> nat
    decreases labels.len(),
{
    if labels.len() == 0 {
        0
    } else {
        spec_label_count(labels.drop_last(), x) + if labels.last() == x {
            1nat
        } else {
            0nat
        }
    }
}

proof fn lemma_label_count_one(labels: Seq<Seq<char>>, x: Seq<char>)
    requires
        labels.no_duplicates(),
        labels.contains(x),
    ensures
        spec_label_count(labels, x) == 1,
    decreases labels.len(),
{
    let prev = labels.drop_last();
    if labels.last() == x {
        assert(!prev.contains(x)) by {
            if prev.contains(x) {
                let j = choose|j: int| 0 <= j < prev.len() && prev[j] == x;
                assert(labels[j] == labels[labels.len() - 1]);
            }
        }
        lemma_label_count_zero(prev, x);
    } else {
        let j = choose|j: int| 0 <= j < labels.len() && labels[j] == x;
        assert(prev[j] == x);
        assert(prev.no_duplicates()) by {
            assert forall|a: int, b: int| 0 <= a < prev.len() && 0 <= b < prev.len() && a != b
                implies prev[a] != prev[b] by {
                assert(prev[a] == labels[a] && prev[b] == labels[b]);
            }
        }
        lemma_label_count_one(prev, x);
    }
}

proof fn lemma_label_count_zero(labels: Seq<Seq<char>>, x: Seq<char>)
    requires
        !labels.contains(x),
    ensures
        spec_label_count(labels, x) == 0,
    decreases labels.len(),
{
    if labels.len() > 0 {
        let prev = labels.drop_last();
        assert(!prev.contains(x)) by {
            if prev.contains(x) {
                let j = choose|j: int| 0 <= j < prev.len() && prev[j] == x;
                assert(labels[j] == x);
            }
        }
        assert(labels[labels.len() - 1] == labels.last());
        lemma_label_count_zero(prev, x);
    }
}

proof fn lemma_summed_totals_push(es: Seq<EntryView>, e: EntryView, labels: Seq<Seq<char>>)
    ensures
        spec_summed_totals(es.push(e), labels).0 == spec_summed_totals(es, labels).0
            + spec_label_count(labels, e.scenario),
        spec_summed_totals(es.push(e), labels).1 == spec_summed_totals(es, labels).1 + if e.passed {
            spec_label_count(labels, e.scenario)
        } else {
            0nat
        },
    decreases labels.len(),
{
    assert(es.push(e).drop_last() =~= es);
    if labels.len() > 0 {
        lemma_summed_totals_push(es, e, labels.drop_last());
    }
}

/// The scenario totals sum to the totals: summed over a list of distinct
/// labels that holds every entry's scenario label, the per-scenario
/// totals and passed counts (what `scenario_totals` returns for each
/// label) give the overall total and passed count (what `totals`
/// returns), and so the failed counts sum to the failed total.
pub proof fn lemma_scenario_totals_sum_to_totals(es: Seq<EntryView>, labels: Seq<Seq<char>>)
    requires
        labels.no_duplicates(),
        forall|i: int| 0 <= i < es.len() ==> labels.contains(#[trigger] es[i].scenario),
    ensures
        spec_summed_totals(es, labels).0 == es.len(),
        spec_summed_totals(es, labels).1 == spec_passed(es),
    decreases es.len(),
{
    if es.len() == 0 {
        lemma_summed_totals_empty(labels);
        assert(es =~= Seq::<EntryView>::empty());
    } else {
        let prev = es.drop_last();
        let e = es.last();
        assert forall|i: int| 0 <= i < prev.len() implies labels.contains(
            #[trigger] prev[i].scenario,
        ) by {
            assert(prev[i] == es[i]);
        }
        lemma_scenario_totals_sum_to_totals(prev, labels);
        assert(labels.contains(es[es.len() - 1].scenario));
        lemma_label_count_one(labels, e.scenario);
        assert(prev.push(e) =~= es);
        lemma_summed_totals_push(prev, e, labels);
        assert(spec_summed_totals(es, labels) == spec_summed_totals(prev.push(e), labels));
        assert(spec_passed(es) == spec_passed(prev) + if e.passed {
            1nat
        } else {
            0nat
        });
    }
}

proof fn lemma_summed_totals_empty(labels: Seq<Seq<char>>)
    ensures
        spec_summed_totals(Seq::<EntryView>::empty(), labels) == (0nat, 0nat),
    decreases labels.len(),
{
    if labels.len() > 0 {
        lemma_summed_totals_empty(labels.drop_last());
    }
}

} // verus!
