//! Evaluation reports and the texts the command line prints.

use crate::agent::{AgentDefinition, RunStatus};
use crate::canonical::{is_text_le, text_le, text_le_total, text_le_transitive};
use crate::json::Json;
use crate::model::{ModelInfo, ProviderHealth};
use crate::text::{borrowed_text, decimal, decimal_digits, join2, join3, same_text, texts};
use vstd::prelude::*;

verus! {

/// One assertion that did not hold.
#[derive(Clone, Debug, PartialEq, Eq)]
pub struct AssertionFailure {
    /// The rule that failed.
    pub rule: String,
    /// What was wrong.
    pub message: String,
}

/// What one repetition of a case gave.
#[derive(Clone, Debug, PartialEq, Eq)]
pub struct EvaluationCaseResult {
    /// The suite of the case.
    pub suite_id: String,
    /// The case.
    pub case_id: String,
    /// The model the case ran with.
    pub model: String,
    /// Which repetition this is.
    pub repetition: u32,
    /// Whether every assertion held.
    pub passed: bool,
    /// The assertions that did not hold.
    pub failures: Vec<AssertionFailure>,
    /// The run of the case.
    pub run_id: Option<String>,
    /// The trace of the case.
    pub trace_id: Option<String>,
    /// How the run ended.
    pub status: Option<RunStatus>,
    /// How long the run took.
    pub duration_ms: Option<u64>,
    /// Model calls of the run.
    pub model_calls: Option<u32>,
    /// Tool calls of the run.
    pub tool_calls: Option<u32>,
    /// The version of the agent.
    pub agent_version: Option<String>,
    /// The version of the prompt.
    pub prompt_version: Option<String>,
    /// The state the application ended in.
    pub final_state: Option<Json>,
    /// What the application left open.
    pub unresolved_items: Option<Json>,
}

/// A normalized evaluation report.
#[derive(Clone, Debug, PartialEq, Eq)]
pub struct EvaluationReport {
    /// The format of the report.
    pub format_version: u32,
    /// The report.
    pub id: String,
    /// The suite that was evaluated.
    pub suite_id: String,
    /// The version of the suite.
    pub suite_version: u32,
    /// What the cases gave.
    pub results: Vec<EvaluationCaseResult>,
}

/// Texts with a separator between each two.
pub open spec fn joined_by(values: Seq<Seq<char>>, separator: Seq<char>) -> Seq<char>
    decreases values.len(),
{
    if values.len() == 0 {
        Seq::empty()
    } else if values.len() == 1 {
        values[0]
    } else {
        joined_by(values.drop_last(), separator) + separator + values.last()
    }
}

/// Texts with a separator between each two.
pub fn join_texts(values: &Vec<String>, separator: &str) -> (result: String)
    ensures
        result@ == joined_by(texts(values@), separator@),
{
    let ghost all = texts(values@);
    let mut result = String::new();
    let mut i: usize = 0;
    proof {
        assert(all.take(0) =~= Seq::empty());
    }
    while i < values.len()
        invariant
            i <= values@.len(),
            all == texts(values@),
            result@ == joined_by(all.take(i as int), separator@),
        decreases values@.len() - i,
    {
        proof {
            assert(all.take(i + 1).drop_last() =~= all.take(i as int));
            assert(all.take(i + 1).last() == values@[i as int]@);
            assert(i == 0 ==> all.take(i + 1)[0] == values@[i as int]@);
        }
        if i == 0 {
            result = values[i].clone();
        } else {
            result = join3(result.as_str(), separator, values[i].as_str());
        }
        i += 1;
    }
    assert(all.take(i as int) =~= all);
    result
}

/// Whether a report shows a result: one of a case, where a case is given, and only failures,
/// where only those are wanted.
pub open spec fn shown(
    result: EvaluationCaseResult,
    failed_only: bool,
    case_id: Option<Seq<char>>,
) -> bool {
    (failed_only ==> !result.passed) && (case_id matches Some(case_id) ==> result.case_id@
        == case_id)
}

/// Which results a report shows.
pub open spec fn showing(failed_only: bool, case_id: Option<Seq<char>>) -> spec_fn(
    EvaluationCaseResult,
) -> bool {
    |case: EvaluationCaseResult| shown(case, failed_only, case_id)
}

/// Keeps the results of a report that are wanted, in their order.
pub fn filter_report(report: EvaluationReport, failed_only: bool, case_id: Option<&str>) -> (result:
    EvaluationReport)
    ensures
        result.format_version == report.format_version,
        result.id == report.id,
        result.suite_id == report.suite_id,
        result.suite_version == report.suite_version,
        result.results@ == report.results@.filter(
            showing(failed_only, borrowed_text(case_id)),
        ),
{
    let ghost keep = showing(failed_only, borrowed_text(case_id));
    let ghost all = report.results@;
    let mut results = report.results;
    let mut i: usize = 0;
    let ghost mut seen: int = 0;
    proof {
        assert(all.take(0).filter(keep) =~= Seq::empty()) by {
            reveal(Seq::filter);
        }
        assert(results@ =~= all.take(0).filter(keep) + all.skip(0));
    }
    while i < results.len()
        invariant
            0 <= seen <= all.len(),
            i == all.take(seen).filter(keep).len(),
            results@ == all.take(seen).filter(keep) + all.skip(seen),
            keep == showing(failed_only, borrowed_text(case_id)),
        decreases all.len() - seen,
    {
        let ghost kept = all.take(seen).filter(keep);
        proof {
            assert(results@[i as int] == all.skip(seen)[0]);
            assert(all.take(seen + 1).drop_last() =~= all.take(seen));
            reveal(Seq::filter);
        }
        let other_case = match case_id {
            Some(case_id) => !same_text(results[i].case_id.as_str(), case_id),
            None => false,
        };
        if (failed_only && results[i].passed) || other_case {
            let _ = results.remove(i);
            proof {
                assert(results@ =~= kept + all.skip(seen + 1));
            }
        } else {
            proof {
                assert(results@ =~= kept.push(all[seen]) + all.skip(seen + 1));
            }
            i += 1;
        }
        proof {
            seen = seen + 1;
        }
    }
    proof {
        assert(all.skip(seen).len() == 0);
        assert(all.take(seen) =~= all);
        assert(results@ =~= all.filter(keep));
    }
    EvaluationReport {
        format_version: report.format_version,
        id: report.id,
        suite_id: report.suite_id,
        suite_version: report.suite_version,
        results,
    }
}

/// How many results passed.
pub open spec fn passes(results: Seq<EvaluationCaseResult>) -> nat {
    results.filter(|result: EvaluationCaseResult| result.passed).len()
}

impl EvaluationReport {
    /// How many results passed.
    pub fn passed_count(&self) -> (count: usize)
        ensures
            count == passes(self.results@),
    {
        let ghost keep = |result: EvaluationCaseResult| result.passed;
        let ghost all = self.results@;
        let mut count: usize = 0;
        let mut i: usize = 0;
        proof {
            reveal(Seq::filter);
            assert(all.take(0).filter(keep) =~= Seq::empty());
        }
        while i < self.results.len()
            invariant
                i <= all.len(),
                all == self.results@,
                count == all.take(i as int).filter(keep).len(),
                count <= i,
                keep == (|result: EvaluationCaseResult| result.passed),
            decreases all.len() - i,
        {
            proof {
                reveal(Seq::filter);
                assert(all.take(i + 1).drop_last() =~= all.take(i as int));
            }
            if self.results[i].passed {
                count += 1;
            }
            i += 1;
        }
        assert(all.take(i as int) =~= all);
        count
    }
}

/// The line of a result.
pub open spec fn result_line(result: EvaluationCaseResult) -> Seq<char> {
    (if result.passed {
        "PASS"@
    } else {
        "FAIL"@
    }) + " "@ + result.case_id@ + " ["@ + decimal_digits(result.repetition as nat) + "] model="@
        + result.model@ + " trace="@ + (match result.trace_id {
        Some(trace) => trace@,
        None => "none"@,
    })
}

/// The line of a failed assertion.
pub open spec fn failure_line(failure: AssertionFailure) -> Seq<char> {
    "  "@ + failure.rule@ + ": "@ + failure.message@
}

/// The lines of the first results: each with its failed assertions below.
pub open spec fn result_lines(results: Seq<EvaluationCaseResult>, count: nat) -> Seq<Seq<char>>
    decreases count,
{
    if count == 0 || count > results.len() {
        Seq::empty()
    } else {
        let result = results[count - 1];
        result_lines(results, (count - 1) as nat).push(result_line(result))
            + result.failures@.map_values(|failure: AssertionFailure| failure_line(failure))
    }
}

/// A report in words.
pub open spec fn report_text(report: EvaluationReport) -> Seq<char> {
    let head = "evaluation "@ + report.suite_id@ + ": "@ + decimal_digits(passes(report.results@))
        + "/"@ + decimal_digits(report.results@.len()) + " passed"@;
    joined_by(seq![head] + result_lines(report.results@, report.results@.len()), "\n"@)
}

fn line_of_result(result: &EvaluationCaseResult) -> (line: String)
    ensures
        line@ == result_line(*result),
{
    let outcome = if result.passed {
        "PASS"
    } else {
        "FAIL"
    };
    let repetition = decimal(result.repetition as u64);
    let line = join3(outcome, " ", result.case_id.as_str());
    let line = join3(line.as_str(), " [", repetition.as_str());
    let line = join3(line.as_str(), "] model=", result.model.as_str());
    match &result.trace_id {
        Some(trace) => join3(line.as_str(), " trace=", trace.as_str()),
        None => join3(line.as_str(), " trace=", "none"),
    }
}

/// A report in words: a summary, then a line for each result and each failed assertion.
pub fn format_report(report: &EvaluationReport) -> (result: String)
    ensures
        result@ == report_text(*report),
{
    let passed = decimal(report.passed_count() as u64);
    let total = decimal(report.results.len() as u64);
    let head = join3("evaluation ", report.suite_id.as_str(), ": ");
    let head = join3(head.as_str(), passed.as_str(), "/");
    let head = join3(head.as_str(), total.as_str(), " passed");
    let ghost first = head@;
    let ghost all = report.results@;
    let mut lines: Vec<String> = Vec::new();
    lines.push(head);
    let mut i: usize = 0;
    assert(texts(lines@) =~= seq![first] + result_lines(all, 0));
    while i < report.results.len()
        invariant
            i <= all.len(),
            all == report.results@,
            texts(lines@) == seq![first] + result_lines(all, i as nat),
        decreases all.len() - i,
    {
        let result = &report.results[i];
        let ghost before = texts(lines@);
        lines.push(line_of_result(result));
        let ghost notes = result.failures@.map_values(
            |failure: AssertionFailure| failure_line(failure),
        );
        let ghost upper = result_lines(all, i as nat).push(result_line(*result));
        let mut j: usize = 0;
        assert(texts(lines@) =~= before.push(result_line(*result)));
        assert(texts(lines@) =~= seq![first] + upper + notes.take(0));
        while j < result.failures.len()
            invariant
                j <= result.failures@.len(),
                notes == result.failures@.map_values(
                    |failure: AssertionFailure| failure_line(failure),
                ),
                texts(lines@) == seq![first] + upper + notes.take(j as int),
            decreases result.failures@.len() - j,
        {
            let failure = &result.failures[j];
            let line = join3("  ", failure.rule.as_str(), ": ");
            let line = join2(line.as_str(), failure.message.as_str());
            let ghost shorter = texts(lines@);
            lines.push(line);
            assert(texts(lines@) =~= shorter.push(failure_line(*failure)));
            assert(notes.take(j + 1) =~= notes.take(j as int).push(failure_line(*failure)));
            assert(texts(lines@) =~= seq![first] + upper + notes.take(j + 1));
            j += 1;
        }
        assert(notes.take(j as int) =~= notes);
        assert(texts(lines@) =~= seq![first] + result_lines(all, (i + 1) as nat));
        i += 1;
    }
    join_texts(&lines, "\n")
}

/// A report and the file it was read from.
#[derive(Clone, Debug, PartialEq, Eq)]
pub struct EvaluationArtifact {
    /// The file.
    pub path: String,
    /// The report.
    pub report: EvaluationReport,
}

/// The reports of a directory, and the files that hold none.
#[derive(Clone, Debug, PartialEq, Eq)]
pub struct EvaluationArtifacts {
    /// The reports, by identifier from the last to the first.
    pub reports: Vec<EvaluationArtifact>,
    /// The files that hold no report.
    pub skipped_files: Vec<String>,
}

/// Whether artifacts stand by identifier from the last to the first.
pub open spec fn newest_first(artifacts: Seq<EvaluationArtifact>) -> bool {
    forall|i: int, j: int|
        0 <= i < j < artifacts.len() ==> text_le(
            (#[trigger] artifacts[j]).report.id@,
            (#[trigger] artifacts[i]).report.id@,
        )
}

/// The artifacts of one identifier.
pub open spec fn of_report(artifacts: Seq<EvaluationArtifact>, id: Seq<char>) -> Seq<
    EvaluationArtifact,
> {
    artifacts.filter(|artifact: EvaluationArtifact| artifact.report.id@ == id)
}

proof fn inserted_newest_first(
    sorted: Seq<EvaluationArtifact>,
    position: int,
    artifact: EvaluationArtifact,
)
    requires
        newest_first(sorted),
        0 <= position <= sorted.len(),
        forall|i: int|
            0 <= i < position ==> text_le(artifact.report.id@, (#[trigger] sorted[i]).report.id@),
        forall|i: int|
            position <= i < sorted.len() ==> !text_le(
                artifact.report.id@,
                (#[trigger] sorted[i]).report.id@,
            ),
    ensures
        newest_first(sorted.insert(position, artifact)),
        sorted.insert(position, artifact).to_multiset() == sorted.to_multiset().insert(artifact),
        forall|id: Seq<char>| #[trigger]
            of_report(sorted.insert(position, artifact), id) == if artifact.report.id@ == id {
                of_report(sorted, id).push(artifact)
            } else {
                of_report(sorted, id)
            },
{
    let longer = sorted.insert(position, artifact);
    vstd::seq_lib::to_multiset_insert(sorted, position, artifact);
    assert forall|i: int, j: int| 0 <= i < j < longer.len() implies text_le(
        (#[trigger] longer[j]).report.id@,
        (#[trigger] longer[i]).report.id@,
    ) by {
        let a = if i < position {
            i
        } else {
            i - 1
        };
        let b = if j < position {
            j
        } else {
            j - 1
        };
        if i == position {
            text_le_total(artifact.report.id@, sorted[b].report.id@);
        } else if j == position {
            assert(longer[i] == sorted[a]);
        } else {
            assert(longer[i] == sorted[a] && longer[j] == sorted[b]);
        }
    }
    let front = sorted.take(position);
    let back = sorted.skip(position);
    assert forall|id: Seq<char>| #[trigger] of_report(longer, id) == if artifact.report.id@ == id {
        of_report(sorted, id).push(artifact)
    } else {
        of_report(sorted, id)
    } by {
        let same = |item: EvaluationArtifact| item.report.id@ == id;
        assert(sorted =~= front + back);
        assert(longer =~= front.push(artifact) + back);
        Seq::filter_distributes_over_add(front, back, same);
        Seq::filter_distributes_over_add(front.push(artifact), back, same);
        reveal(Seq::filter);
        assert(front.push(artifact).drop_last() =~= front);
        if artifact.report.id@ == id {
            assert forall|i: int| 0 <= i < back.len() implies !same(#[trigger] back[i]) by {
                text_le_total(id, id);
                assert(back[i] == sorted[position + i]);
            }
            back.lemma_all_neg_filter_empty(same);
        }
    }
}

/// Puts artifacts by the identifier of their report, from the last to the first; artifacts of
/// one identifier keep their order.
pub fn sort_artifacts(artifacts: Vec<EvaluationArtifact>) -> (result: Vec<EvaluationArtifact>)
    ensures
        newest_first(result@),
        result@.to_multiset() == artifacts@.to_multiset(),
        forall|id: Seq<char>| #[trigger] of_report(result@, id) == of_report(artifacts@, id),
{
    let ghost all = artifacts@;
    let mut rest = artifacts;
    let mut sorted: Vec<EvaluationArtifact> = Vec::new();
    let ghost mut seen: int = 0;
    proof {
        assert(all.take(0) =~= sorted@);
        assert(all.skip(0) =~= rest@);
    }
    while rest.len() > 0
        invariant
            0 <= seen <= all.len(),
            rest@ == all.skip(seen),
            newest_first(sorted@),
            sorted@.to_multiset() == all.take(seen).to_multiset(),
            forall|id: Seq<char>| #[trigger]
                of_report(sorted@, id) == of_report(all.take(seen), id),
        decreases rest@.len(),
    {
        let ghost before = rest@;
        let artifact = rest.remove(0);
        let ghost shorter = sorted@;
        let ghost item = artifact;
        let mut position: usize = 0;
        while position < sorted.len() && is_text_le(
            artifact.report.id.as_str(),
            sorted[position].report.id.as_str(),
        )
            invariant
                position <= sorted@.len(),
                forall|i: int|
                    0 <= i < position ==> text_le(
                        artifact.report.id@,
                        (#[trigger] sorted@[i]).report.id@,
                    ),
            decreases sorted@.len() - position,
        {
            position += 1;
        }
        proof {
            assert forall|i: int| position <= i < shorter.len() implies !text_le(
                item.report.id@,
                (#[trigger] shorter[i]).report.id@,
            ) by {
                if text_le(item.report.id@, shorter[i].report.id@) {
                    if i > position {
                        text_le_transitive(
                            item.report.id@,
                            shorter[i].report.id@,
                            shorter[position as int].report.id@,
                        );
                    }
                }
            }
            inserted_newest_first(shorter, position as int, item);
            assert(all[seen] == item);
            assert(all.take(seen + 1) =~= all.take(seen).push(item));
            vstd::seq_lib::to_multiset_build(all.take(seen), item);
            assert forall|id: Seq<char>| #[trigger]
                of_report(all.take(seen + 1), id) == if item.report.id@ == id {
                    of_report(all.take(seen), id).push(item)
                } else {
                    of_report(all.take(seen), id)
                } by {
                reveal(Seq::filter);
                assert(all.take(seen + 1).drop_last() =~= all.take(seen));
            }
            assert(all.skip(seen + 1) =~= rest@);
        }
        sorted.insert(position, artifact);
        proof {
            seen = seen + 1;
        }
    }
    assert(all.take(seen) =~= all);
    sorted
}

/// A recorded event of a run that is looked at.
#[derive(Clone, Debug, PartialEq, Eq)]
pub struct InspectedEvent {
    /// Its place in the run.
    pub sequence: u64,
    /// The event as JSON.
    pub event: String,
}

/// The line of a recorded event.
pub open spec fn event_line(event: InspectedEvent) -> Seq<char> {
    "  #"@ + decimal_digits(event.sequence as nat) + " "@ + event.event@
}

/// A recorded run in words.
pub open spec fn inspected_text(
    run_id: Seq<char>,
    trace_id: Seq<char>,
    events: Seq<InspectedEvent>,
) -> Seq<char> {
    let head = "run "@ + run_id + " trace "@ + trace_id + ": "@ + decimal_digits(events.len())
        + " event(s)"@;
    joined_by(
        seq![head] + events.map_values(|event: InspectedEvent| event_line(event)),
        "\n"@,
    )
}

/// A recorded run in words: a summary, then a line for each event.
pub fn render_inspected_run(run_id: &str, trace_id: &str, events: &Vec<InspectedEvent>) -> (result:
    String)
    ensures
        result@ == inspected_text(run_id@, trace_id@, events@),
{
    let total = decimal(events.len() as u64);
    let head = join3("run ", run_id, " trace ");
    let head = join3(head.as_str(), trace_id, ": ");
    let head = join3(head.as_str(), total.as_str(), " event(s)");
    let ghost first = head@;
    let ghost rest = events@.map_values(|event: InspectedEvent| event_line(event));
    let mut lines: Vec<String> = Vec::new();
    lines.push(head);
    let mut i: usize = 0;
    assert(texts(lines@) =~= seq![first] + rest.take(0));
    while i < events.len()
        invariant
            i <= events@.len(),
            rest == events@.map_values(|event: InspectedEvent| event_line(event)),
            texts(lines@) == seq![first] + rest.take(i as int),
        decreases events@.len() - i,
    {
        let number = decimal(events[i].sequence);
        let line = join3("  #", number.as_str(), " ");
        let line = join2(line.as_str(), events[i].event.as_str());
        let ghost shorter = texts(lines@);
        lines.push(line);
        assert(texts(lines@) =~= shorter.push(rest[i as int]));
        assert(texts(lines@) =~= seq![first] + rest.take(i + 1));
        i += 1;
    }
    assert(rest.take(i as int) =~= rest);
    join_texts(&lines, "\n")
}

/// The summary of a valid manifest.
pub fn manifest_summary(version: u32, agents: usize) -> (result: String)
    ensures
        result@ == "valid agent manifest v"@ + decimal_digits(version as nat) + ": "@
            + decimal_digits(agents as nat) + " agent(s)"@,
{
    let version = decimal(version as u64);
    let agents = decimal(agents as u64);
    let head = join3("valid agent manifest v", version.as_str(), ": ");
    join3(head.as_str(), agents.as_str(), " agent(s)")
}

/// The line of an agent in a list.
pub fn agent_line(agent: &AgentDefinition) -> (result: String)
    ensures
        result@ == agent.id@ + "\t"@ + agent.name@ + "\tv"@ + agent.version@ + "\tmodel="@
            + agent.default_model@ + "\ttools="@ + joined_by(
            texts(agent.tool_allowlist@),
            ","@,
        ),
{
    let tools = join_texts(&agent.tool_allowlist, ",");
    let line = join3(agent.id.as_str(), "\t", agent.name.as_str());
    let line = join3(line.as_str(), "\tv", agent.version.as_str());
    let line = join3(line.as_str(), "\tmodel=", agent.default_model.as_str());
    join3(line.as_str(), "\ttools=", tools.as_str())
}

/// An agent in words.
pub fn agent_text(agent: &AgentDefinition) -> (result: String)
    ensures
        result@ == "agent "@ + agent.id@ + " ("@ + agent.name@ + ")\nversion: "@ + agent.version@
            + "\ndefault model: "@ + agent.default_model@ + "\nallowed tools: "@ + (if
        agent.tool_allowlist@.len() == 0 {
            "none"@
        } else {
            joined_by(texts(agent.tool_allowlist@), ", "@)
        }) + "\nmodel calls: "@ + decimal_digits(agent.limits.max_model_calls as nat)
            + "\ntool calls: "@ + decimal_digits(agent.limits.max_tool_calls as nat),
{
    let tools = if agent.tool_allowlist.len() == 0 {
        "none".to_owned()
    } else {
        join_texts(&agent.tool_allowlist, ", ")
    };
    let model_calls = decimal(agent.limits.max_model_calls as u64);
    let tool_calls = decimal(agent.limits.max_tool_calls as u64);
    let text = join3("agent ", agent.id.as_str(), " (");
    let text = join3(text.as_str(), agent.name.as_str(), ")\nversion: ");
    let text = join3(text.as_str(), agent.version.as_str(), "\ndefault model: ");
    let text = join3(text.as_str(), agent.default_model.as_str(), "\nallowed tools: ");
    let text = join3(text.as_str(), tools.as_str(), "\nmodel calls: ");
    let text = join3(text.as_str(), model_calls.as_str(), "\ntool calls: ");
    join2(text.as_str(), tool_calls.as_str())
}

/// The health of the local provider in words.
pub fn health_text(health: &ProviderHealth) -> (result: String)
    ensures
        result@ == "Ollama "@ + (if health.healthy {
            "healthy"@
        } else {
            "unavailable"@
        }) + (match health.detail {
            Some(detail) => ": "@ + detail@,
            None => Seq::empty(),
        }),
{
    let state = if health.healthy {
        "healthy"
    } else {
        "unavailable"
    };
    let text = join2("Ollama ", state);
    match &health.detail {
        Some(detail) => {
            let detail = join2(": ", detail.as_str());
            join2(text.as_str(), detail.as_str())
        },
        None => {
            assert(text@ =~= "Ollama "@ + state@ + Seq::<char>::empty());
            text
        },
    }
}

/// A truth value in words.
pub open spec fn bool_text(value: bool) -> Seq<char> {
    if value {
        "true"@
    } else {
        "false"@
    }
}

fn text_of_bool(value: bool) -> (result: &'static str)
    ensures
        result@ == bool_text(value),
{
    if value {
        "true"
    } else {
        "false"
    }
}

/// The line of a model in a list.
pub fn model_line(model: &ModelInfo) -> (result: String)
    ensures
        result@ == model.id@ + "\ttools="@ + bool_text(model.capabilities.supports_tools)
            + " streaming="@ + bool_text(model.capabilities.supports_streaming)
            + " structured_output="@ + bool_text(model.capabilities.supports_structured_output),
{
    let line = join3(
        model.id.as_str(),
        "\ttools=",
        text_of_bool(model.capabilities.supports_tools),
    );
    let line = join3(
        line.as_str(),
        " streaming=",
        text_of_bool(model.capabilities.supports_streaming),
    );
    join3(
        line.as_str(),
        " structured_output=",
        text_of_bool(model.capabilities.supports_structured_output),
    )
}

/// The summary of a valid evaluation suite.
pub fn suite_summary(id: &str, version: u32, cases: usize, models: usize) -> (result: String)
    ensures
        result@ == "valid suite "@ + id@ + " (v"@ + decimal_digits(version as nat) + "): "@
            + decimal_digits(cases as nat) + " cases, "@ + decimal_digits(models as nat)
            + " model(s)"@,
{
    let version = decimal(version as u64);
    let cases = decimal(cases as u64);
    let models = decimal(models as u64);
    let text = join3("valid suite ", id, " (v");
    let text = join3(text.as_str(), version.as_str(), "): ");
    let text = join3(text.as_str(), cases.as_str(), " cases, ");
    join3(text.as_str(), models.as_str(), " model(s)")
}

/// Why the command line does not run a suite: the repetitions are none, or only an embedding
/// application can run one.
pub fn executor_required(
    suite: &str,
    suite_models: &Vec<String>,
    models: &Vec<String>,
    repeat: Option<u32>,
) -> (result: String)
    ensures
        result@ == if repeat == Some(0u32) {
            "--repeat must be greater than zero"@
        } else {
            "suite "@ + suite@ + " was valid for model(s) "@ + joined_by(
                if models@.len() == 0 {
                    texts(suite_models@)
                } else {
                    texts(models@)
                },
                ", "@,
            )
                + ", but the standalone CLI cannot construct application-owned tools, fixtures, policies, or approvals. Run llama_harness_evals::evaluate_suite from the embedding application (or the example adapter when available)."@
        },
{
    if let Some(count) = repeat {
        if count == 0 {
            return "--repeat must be greater than zero".to_owned();
        }
    }
    let models = if models.len() == 0 {
        join_texts(suite_models, ", ")
    } else {
        join_texts(models, ", ")
    };
    let text = join3("suite ", suite, " was valid for model(s) ");
    join3(
        text.as_str(),
        models.as_str(),
        ", but the standalone CLI cannot construct application-owned tools, fixtures, policies, or approvals. Run llama_harness_evals::evaluate_suite from the embedding application (or the example adapter when available).",
    )
}

/// Why the command line does not replay a regression case.
pub fn replay_required(case_id: &str, agent_id: &str) -> (result: String)
    ensures
        result@ == "replay case "@ + case_id@ + " is valid input for agent "@ + agent_id@
            + ". The standalone CLI will not infer application tools or fixture loading from a trace. Invoke llama_harness_evals::replay_regression from the embedding application."@,
{
    let text = join3("replay case ", case_id, " is valid input for agent ");
    join3(
        text.as_str(),
        agent_id,
        ". The standalone CLI will not infer application tools or fixture loading from a trace. Invoke llama_harness_evals::replay_regression from the embedding application.",
    )
}

/// A report shows no more results than before, and filtering it again changes nothing.
pub proof fn filtering_twice_changes_nothing(
    results: Seq<EvaluationCaseResult>,
    failed_only: bool,
    case_id: Option<Seq<char>>,
)
    ensures
        ({
            let keep = showing(failed_only, case_id);
            &&& results.filter(keep).len() <= results.len()
            &&& results.filter(keep).filter(keep) == results.filter(keep)
        }),
    decreases results.len(),
{
    let keep = showing(failed_only, case_id);
    reveal(Seq::filter);
    if results.len() > 0 {
        let shorter = results.drop_last();
        filtering_twice_changes_nothing(shorter, failed_only, case_id);
        if keep(results.last()) {
            assert(shorter.filter(keep).push(results.last()).drop_last() =~= shorter.filter(keep));
        }
    }
}

} // verus!
