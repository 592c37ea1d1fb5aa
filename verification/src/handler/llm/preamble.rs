//! The account of earlier stages that a new session starts from.
use crate::context::{run_id, run_id_of, text_or, Context, Values};
use crate::graph::{Graph, GraphView};
use crate::handler::llm::preamble_stage::{
    add_pair, blank, brief_details, compact_details, format_value, high_section, holds_last_lines,
    is_blank_value, lemma_compact_details_show_the_output, lemma_section_shows_the_output,
    recent_line, recent_stage_line, render_brief_stage_details,
    render_compact_stage_details, render_summary_high_stage_section, rendered_keys, shows_output,
    stage_rendered_keys, value_text,
};
use crate::json::{compact, JsonView};
use crate::keys::{
    concat, Fidelity, CURRENT_PREFIX, GRAPH_PREFIX, INTERNAL_PARENT_PREAMBLE, INTERNAL_PREFIX,
    LAST_RESPONSE, LAST_STAGE, OUTCOME, PREFERRED_LABEL, RESPONSE_PREFIX, THREAD_PREFIX,
};
use crate::order::{ascending, lemma_next_joins, lemma_sorted, push_text, sorted, TextSet};
use crate::outcome::{Outcome, OutcomeView};
use crate::table::Table;
use crate::text::{
    decimal, decimal_string, has_prefix, join, joined, lemma_joined_parts_are_within,
    lemma_within_chains, lines, same, trim, within,
};
use vstd::prelude::*;
use vstd::string::*;

verus! {

pub type Outcomes = Map<Seq<char>, OutcomeView>;

/// Whether a stage only starts or ends the run.
pub open spec fn meta(graph: GraphView, id: Seq<char>) -> bool {
    graph.handler_of(id) == Some("start"@) || graph.handler_of(id) == Some("exit"@)
}

pub fn is_meta_handler(graph: &Graph, node_id: &str) -> (r: bool)
    ensures
        r == meta(graph@, node_id@),
{
    match graph.nodes.get(node_id) {
        Some(node) => match node.handler_type() {
            Some(h) => same(h, "start") || same(h, "exit"),
            None => false,
        },
        None => false,
    }
}

/// Whether a context key is the engine's own.
pub open spec fn excluded(key: Seq<char>) -> bool {
    ||| INTERNAL_PREFIX@.is_prefix_of(key)
    ||| CURRENT_PREFIX@.is_prefix_of(key)
    ||| GRAPH_PREFIX@.is_prefix_of(key)
    ||| THREAD_PREFIX@.is_prefix_of(key)
    ||| RESPONSE_PREFIX@.is_prefix_of(key)
    ||| key == OUTCOME@
    ||| key == LAST_STAGE@
    ||| key == LAST_RESPONSE@
    ||| key == PREFERRED_LABEL@
}

pub fn is_context_key_excluded(key: &str) -> (r: bool)
    ensures
        r == excluded(key@),
{
    has_prefix(key, INTERNAL_PREFIX) || has_prefix(key, CURRENT_PREFIX) || has_prefix(
        key,
        GRAPH_PREFIX,
    ) || has_prefix(key, THREAD_PREFIX) || has_prefix(key, RESPONSE_PREFIX) || same(key, OUTCOME)
        || same(key, LAST_STAGE) || same(key, LAST_RESPONSE) || same(key, PREFERRED_LABEL)
}

/// Whether the value of a context key is told.
pub open spec fn told(values: Values, rendered: Set<Seq<char>>, key: Seq<char>) -> bool {
    &&& values.contains_key(key)
    &&& !excluded(key)
    &&& !rendered.contains(key)
    &&& !blank(values[key])
}

/// The context keys to tell, in ascending order.
pub open spec fn told_keys(values: Values, rendered: Set<Seq<char>>) -> Seq<Seq<char>> {
    sorted(Set::new(|key: Seq<char>| told(values, rendered, key)))
}

/// The context keys to tell, in ascending order.
pub fn context_keys(context: &Context, rendered: &TextSet) -> (r: Vec<String>)
    ensures
        r.deep_view() == told_keys(context@, rendered@),
        forall|i: int|
            0 <= i < r@.len() ==> context@.contains_key(#[trigger] r.deep_view()[i]),
{
    let keys = context.keys();
    let ghost all = keys.deep_view();
    let mut kept = TextSet::new();
    let mut i: usize = 0;
    let ghost wanted = Set::new(|key: Seq<char>| told(context@, rendered@, key));
    while i < keys.len()
        invariant
            i <= keys@.len(),
            all == keys.deep_view(),
            all.to_set() == context@.dom(),
            wanted == Set::new(|key: Seq<char>| told(context@, rendered@, key)),
            kept@ == wanted.intersect(all.take(i as int).to_set()),
        decreases keys@.len() - i,
    {
        let ghost key = all[i as int];
        proof {
            lemma_next_joins(all, i as int);
            assert(key == keys@[i as int]@);
        }
        if let Some(value) = context.get(keys[i].as_str()) {
            if !is_context_key_excluded(keys[i].as_str()) && !rendered.contains(keys[i].as_str())
                && !is_blank_value(value) {
                kept.insert(keys[i].clone());
            }
        }
        i += 1;
        assert(kept@ =~= wanted.intersect(all.take(i as int).to_set()));
    }
    proof {
        assert(all.take(i as int) =~= all);
        assert(kept@ =~= wanted);
    }
    let r = kept.to_vec();
    proof {
        let listed = r.deep_view();
        assert forall|k: int| 0 <= k < r@.len() implies context@.contains_key(
            #[trigger] listed[k],
        ) by {
            assert(listed.contains(listed[k]));
            assert(listed.to_set().contains(listed[k]));
        }
    }
    r
}

/// The lines of a context list.
pub open spec fn context_list(values: Values, rendered: Set<Seq<char>>) -> Seq<Seq<char>> {
    let keys = told_keys(values, rendered);
    if keys.len() == 0 {
        Seq::empty()
    } else {
        seq!["\n## Context"@] + keys.map_values(
            |key: Seq<char>| "- "@ + key + ": "@ + value_text(values[key]),
        )
    }
}

/// Adds the context as a bullet list.
pub fn append_filtered_context(parts: &mut Vec<String>, context: &Context, rendered: &TextSet)
    ensures
        final(parts).deep_view() == old(parts).deep_view() + context_list(context@, rendered@),
{
    let ghost start = parts.deep_view();
    let keys = context_keys(context, rendered);
    let ghost all = keys.deep_view();
    if keys.len() > 0 {
        push_text(parts, "\n## Context".to_owned());
        let ghost rows = all.map_values(
            |key: Seq<char>| "- "@ + key + ": "@ + value_text(context@[key]),
        );
        let ghost lead = parts.deep_view();
        assert(lead + rows.take(0) =~= lead);
        let mut i: usize = 0;
        while i < keys.len()
            invariant
                i <= keys@.len(),
                all == keys.deep_view(),
                forall|k: int| 0 <= k < keys@.len() ==> context@.contains_key(#[trigger] all[k]),
                rows == all.map_values(
                    |key: Seq<char>| "- "@ + key + ": "@ + value_text(context@[key]),
                ),
                parts.deep_view() == lead + rows.take(i as int),
            decreases keys@.len() - i,
        {
            assert(all[i as int] == keys@[i as int]@);
            if let Some(value) = context.get(keys[i].as_str()) {
                let mut line = concat("- ", keys[i].as_str());
                line.append(": ");
                line.append(format_value(value).as_str());
                push_text(parts, line);
            }
            i += 1;
            assert(parts.deep_view() =~= lead + rows.take(i as int));
        }
        assert(rows.take(i as int) =~= rows);
    }
    assert(parts.deep_view() =~= start + context_list(context@, rendered@));
}

/// The lines of a context table.
pub open spec fn context_table(values: Values, rendered: Set<Seq<char>>) -> Seq<Seq<char>> {
    let keys = told_keys(values, rendered);
    if keys.len() == 0 {
        Seq::empty()
    } else {
        seq!["\n## Current context"@, "| Key | Value |"@, "|-----|-------|"@] + keys.map_values(
            |key: Seq<char>| "| "@ + key + " | "@ + value_text(values[key]) + " |"@,
        )
    }
}

/// Adds the context as a table.
pub fn append_filtered_context_table(parts: &mut Vec<String>, context: &Context, rendered: &TextSet)
    ensures
        final(parts).deep_view() == old(parts).deep_view() + context_table(context@, rendered@),
{
    let ghost start = parts.deep_view();
    let keys = context_keys(context, rendered);
    let ghost all = keys.deep_view();
    if keys.len() > 0 {
        push_text(parts, "\n## Current context".to_owned());
        push_text(parts, "| Key | Value |".to_owned());
        push_text(parts, "|-----|-------|".to_owned());
        let ghost rows = all.map_values(
            |key: Seq<char>| "| "@ + key + " | "@ + value_text(context@[key]) + " |"@,
        );
        let ghost lead = parts.deep_view();
        assert(lead + rows.take(0) =~= lead);
        let mut i: usize = 0;
        while i < keys.len()
            invariant
                i <= keys@.len(),
                all == keys.deep_view(),
                forall|k: int| 0 <= k < keys@.len() ==> context@.contains_key(#[trigger] all[k]),
                rows == all.map_values(
                    |key: Seq<char>| "| "@ + key + " | "@ + value_text(context@[key]) + " |"@,
                ),
                parts.deep_view() == lead + rows.take(i as int),
            decreases keys@.len() - i,
        {
            assert(all[i as int] == keys@[i as int]@);
            if let Some(value) = context.get(keys[i].as_str()) {
                let mut line = concat("| ", keys[i].as_str());
                line.append(" | ");
                line.append(format_value(value).as_str());
                line.append(" |");
                push_text(parts, line);
            }
            i += 1;
            assert(parts.deep_view() =~= lead + rows.take(i as int));
        }
        assert(rows.take(i as int) =~= rows);
    }
    assert(parts.deep_view() =~= start + context_table(context@, rendered@));
}

/// The stages among `ids` that do work.
pub open spec fn stages(ids: Seq<Seq<char>>, graph: GraphView) -> Seq<Seq<char>> {
    ids.filter(|id: Seq<char>| !meta(graph, id))
}

/// The stages among `ids[from..]` that do work.
fn stages_of(ids: &Vec<String>, from: usize, graph: &Graph) -> (r: Vec<String>)
    requires
        from <= ids@.len(),
    ensures
        r.deep_view() == stages(ids.deep_view().skip(from as int), graph@),
{
    let ghost all = ids.deep_view().skip(from as int);
    let mut r: Vec<String> = Vec::new();
    let mut i: usize = from;
    proof {
        reveal(Seq::filter);
        assert(r.deep_view() =~= stages(all.take(0), graph@));
    }
    while i < ids.len()
        invariant
            from <= i <= ids@.len(),
            all == ids.deep_view().skip(from as int),
            r.deep_view() == stages(all.take(i - from), graph@),
        decreases ids@.len() - i,
    {
        proof {
            reveal(Seq::filter);
            assert(all.take(i - from + 1).drop_last() =~= all.take(i - from));
            assert(all.take(i - from + 1).last() == ids@[i as int]@);
        }
        if !is_meta_handler(graph, ids[i].as_str()) {
            push_text(&mut r, ids[i].clone());
        }
        i += 1;
    }
    assert(all.take(i - from) =~= all);
    r
}

/// How stages are told.
#[derive(Clone, Copy, Debug, PartialEq, Eq, Structural)]
pub enum StageForm {
    Compact,
    Brief,
    Recent,
    Section,
}

/// The lines of one stage.
pub open spec fn stage_entry(
    form: StageForm,
    id: Seq<char>,
    graph: GraphView,
    outcomes: Outcomes,
) -> Seq<Seq<char>> {
    let node = if graph.nodes.contains_key(id) {
        Some(graph.nodes[id])
    } else {
        None
    };
    if outcomes.contains_key(id) {
        let outcome = outcomes[id];
        match form {
            StageForm::Compact => seq!["- **"@ + id + "**: "@ + outcome.status.name()]
                + compact_details(node, outcome),
            StageForm::Recent => seq![recent_line(id, outcome)] + compact_details(node, outcome),
            StageForm::Brief => seq![recent_line(id, outcome)] + brief_details(node, outcome),
            StageForm::Section => high_section(id, node, outcome),
        }
    } else {
        match form {
            StageForm::Compact => seq!["- **"@ + id + "**: completed"@],
            StageForm::Recent | StageForm::Brief => seq!["- "@ + id + ": completed"@],
            StageForm::Section => seq!["\n## Stage: "@ + id, "- Status: completed"@],
        }
    }
}

/// The lines of stages, one stage after the other.
pub open spec fn stage_entries(
    form: StageForm,
    ids: Seq<Seq<char>>,
    graph: GraphView,
    outcomes: Outcomes,
) -> Seq<Seq<char>>
    decreases ids.len(),
{
    if ids.len() == 0 {
        Seq::empty()
    } else {
        stage_entries(form, ids.drop_last(), graph, outcomes) + stage_entry(
            form,
            ids.last(),
            graph,
            outcomes,
        )
    }
}

/// The context keys that the lines of stages show.
pub open spec fn stages_render(ids: Seq<Seq<char>>, outcomes: Outcomes) -> Set<Seq<char>>
    decreases ids.len(),
{
    if ids.len() == 0 {
        Set::empty()
    } else if outcomes.contains_key(ids.last()) {
        stages_render(ids.drop_last(), outcomes).union(
            rendered_keys(ids.last(), outcomes[ids.last()]),
        )
    } else {
        stages_render(ids.drop_last(), outcomes)
    }
}

fn push_stage(
    parts: &mut Vec<String>,
    form: StageForm,
    id: &str,
    graph: &Graph,
    outcomes: &Table<Outcome>,
)
    ensures
        final(parts).deep_view() == old(parts).deep_view() + stage_entry(
            form,
            id@,
            graph@,
            outcomes@,
        ),
{
    let ghost start = parts.deep_view();
    let node = graph.nodes.get(id);
    match outcomes.get(id) {
        Some(outcome) => match form {
            StageForm::Compact => {
                let mut line = concat("- **", id);
                line.append("**: ");
                line.append(outcome.status.as_str());
                push_text(parts, line);
                render_compact_stage_details(parts, node, outcome);
            },
            StageForm::Recent => {
                push_text(parts, recent_stage_line(id, outcome));
                render_compact_stage_details(parts, node, outcome);
            },
            StageForm::Brief => {
                push_text(parts, recent_stage_line(id, outcome));
                render_brief_stage_details(parts, node, outcome);
            },
            StageForm::Section => {
                render_summary_high_stage_section(parts, id, node, outcome);
            },
        },
        None => match form {
            StageForm::Compact => {
                let mut line = concat("- **", id);
                line.append("**: completed");
                push_text(parts, line);
            },
            StageForm::Recent | StageForm::Brief => {
                let mut line = concat("- ", id);
                line.append(": completed");
                push_text(parts, line);
            },
            StageForm::Section => {
                add_pair(parts, "\n## Stage: ", id);
                push_text(parts, "- Status: completed".to_owned());
            },
        },
    }
    assert(parts.deep_view() =~= start + stage_entry(form, id@, graph@, outcomes@));
}

/// Adds the lines of stages, and the context keys that they show.
fn push_stages(
    parts: &mut Vec<String>,
    rendered: &mut TextSet,
    form: StageForm,
    ids: &Vec<String>,
    graph: &Graph,
    outcomes: &Table<Outcome>,
)
    ensures
        final(parts).deep_view() == old(parts).deep_view() + stage_entries(
            form,
            ids.deep_view(),
            graph@,
            outcomes@,
        ),
        final(rendered)@ == old(rendered)@.union(stages_render(ids.deep_view(), outcomes@)),
{
    let ghost start = parts.deep_view();
    let ghost seen = rendered@;
    let ghost all = ids.deep_view();
    let mut i: usize = 0;
    assert(all.take(0) =~= Seq::empty());
    assert(seen.union(stages_render(all.take(0), outcomes@)) =~= seen);
    assert(start + stage_entries(form, all.take(0), graph@, outcomes@) =~= start);
    while i < ids.len()
        invariant
            i <= ids@.len(),
            all == ids.deep_view(),
            parts.deep_view() == start + stage_entries(form, all.take(i as int), graph@, outcomes@),
            rendered@ == seen.union(stages_render(all.take(i as int), outcomes@)),
        decreases ids@.len() - i,
    {
        proof {
            assert(all.take(i + 1).drop_last() =~= all.take(i as int));
            assert(all.take(i + 1).last() == ids@[i as int]@);
        }
        push_stage(parts, form, ids[i].as_str(), graph, outcomes);
        if let Some(outcome) = outcomes.get(ids[i].as_str()) {
            stage_rendered_keys(rendered, ids[i].as_str(), outcome);
        }
        i += 1;
        assert(parts.deep_view() =~= start + stage_entries(
            form,
            all.take(i as int),
            graph@,
            outcomes@,
        ));
        assert(rendered@ =~= seen.union(stages_render(all.take(i as int), outcomes@)));
    }
    assert(all.take(i as int) =~= all);
}

/// The lines of stages under a heading; nothing where there is no stage.
pub open spec fn headed_stages(
    heading: Seq<char>,
    form: StageForm,
    ids: Seq<Seq<char>>,
    graph: GraphView,
    outcomes: Outcomes,
) -> Seq<Seq<char>> {
    let shown = stages(ids, graph);
    if shown.len() == 0 {
        Seq::empty()
    } else {
        seq![heading] + stage_entries(form, shown, graph, outcomes)
    }
}

fn push_headed_stages(
    parts: &mut Vec<String>,
    rendered: &mut TextSet,
    heading: &str,
    form: StageForm,
    ids: &Vec<String>,
    from: usize,
    graph: &Graph,
    outcomes: &Table<Outcome>,
)
    requires
        from <= ids@.len(),
    ensures
        final(parts).deep_view() == old(parts).deep_view() + headed_stages(
            heading@,
            form,
            ids.deep_view().skip(from as int),
            graph@,
            outcomes@,
        ),
        final(rendered)@ == old(rendered)@.union(
            stages_render(stages(ids.deep_view().skip(from as int), graph@), outcomes@),
        ),
{
    let ghost start = parts.deep_view();
    let ghost seen = rendered@;
    let shown = stages_of(ids, from, graph);
    let ghost model = shown.deep_view();
    if shown.len() > 0 {
        push_text(parts, heading.to_owned());
        push_stages(parts, rendered, form, &shown, graph, outcomes);
    } else {
        assert(model =~= Seq::empty());
        assert(seen.union(stages_render(model, outcomes@)) =~= seen);
    }
    assert(parts.deep_view() =~= start + headed_stages(
        heading@,
        form,
        ids.deep_view().skip(from as int),
        graph@,
        outcomes@,
    ));
}

/// The text of an account: its lines, and an empty one to end it.
pub open spec fn account(parts: Seq<Seq<char>>) -> Seq<char> {
    join(parts.push(Seq::empty()), "\n"@)
}

fn account_text(parts: Vec<String>) -> (r: String)
    ensures
        r@ == account(parts.deep_view()),
{
    let mut parts = parts;
    push_text(&mut parts, String::new());
    assert(parts.deep_view().last() =~= Seq::empty());
    joined(&parts, "\n")
}

/// A compact account: the goal, every completed stage, and the context.
pub open spec fn compact_account(
    goal: Seq<char>,
    completed: Seq<Seq<char>>,
    outcomes: Outcomes,
    values: Values,
    graph: GraphView,
) -> Seq<char> {
    account(
        seq!["Goal: "@ + goal] + headed_stages(
            "\n## Completed stages"@,
            StageForm::Compact,
            completed,
            graph,
            outcomes,
        ) + context_list(values, stages_render(stages(completed, graph), outcomes)),
    )
}

pub fn build_compact_preamble(
    goal: &str,
    completed: &Vec<String>,
    outcomes: &Table<Outcome>,
    context: &Context,
    graph: &Graph,
) -> (r: String)
    ensures
        r@ == compact_account(goal@, completed.deep_view(), outcomes@, context@, graph@),
{
    let mut parts: Vec<String> = Vec::new();
    let mut rendered = TextSet::new();
    add_pair(&mut parts, "Goal: ", goal);
    assert(parts.deep_view() =~= seq!["Goal: "@ + goal@]);
    assert(completed.deep_view().skip(0) =~= completed.deep_view());
    push_headed_stages(
        &mut parts,
        &mut rendered,
        "\n## Completed stages",
        StageForm::Compact,
        completed,
        0,
        graph,
        outcomes,
    );
    assert(rendered@ =~= stages_render(stages(completed.deep_view(), graph@), outcomes@));
    append_filtered_context(&mut parts, context, &rendered);
    account_text(parts)
}

/// How much a summary tells.
#[derive(Clone, Copy, Debug, PartialEq, Eq, Structural)]
pub enum SummaryDetail {
    Low,
    Medium,
    High,
}

/// The stages that a summary leaves out: all but the last `recent`.
pub open spec fn skipped(completed: Seq<Seq<char>>, recent: nat) -> nat {
    if completed.len() > recent {
        (completed.len() - recent) as nat
    } else {
        0
    }
}

/// The lines of a summary of the last `recent` stages.
pub open spec fn recent_account(
    completed: Seq<Seq<char>>,
    recent: nat,
    form: StageForm,
    graph: GraphView,
    outcomes: Outcomes,
) -> Seq<Seq<char>> {
    let left_out = skipped(completed, recent);
    seq!["Completed "@ + decimal(completed.len()) + " stage(s) so far."@] + (if left_out > 0 {
        seq!["\n("@ + decimal(left_out) + " earlier stage(s) omitted)"@]
    } else {
        Seq::empty()
    }) + headed_stages(
        "\nRecent stages:"@,
        form,
        completed.skip(left_out as int),
        graph,
        outcomes,
    )
}

/// The lines of a detailed report.
pub open spec fn full_account(
    completed: Seq<Seq<char>>,
    graph: GraphView,
    outcomes: Outcomes,
) -> Seq<Seq<char>> {
    seq![
        "Pipeline progress: "@ + decimal(stages(completed, graph).len()) + " of "@ + decimal(
            stages(sorted(graph.nodes.dom()), graph).len(),
        ) + " stages completed"@,
    ] + stage_entries(StageForm::Section, stages(completed, graph), graph, outcomes)
}

/// A summary: the goal, the run, stages in the chosen detail, and, but for the
/// lowest detail, the context.
pub open spec fn summary_account(
    goal: Seq<char>,
    run: Seq<char>,
    completed: Seq<Seq<char>>,
    outcomes: Outcomes,
    values: Values,
    graph: GraphView,
    detail: SummaryDetail,
) -> Seq<char> {
    account(
        seq!["Goal: "@ + goal, "Run ID: "@ + run] + match detail {
            SummaryDetail::High => full_account(completed, graph, outcomes) + context_table(
                values,
                stages_render(stages(completed, graph), outcomes),
            ),
            SummaryDetail::Medium => recent_account(
                completed,
                5,
                StageForm::Recent,
                graph,
                outcomes,
            ) + context_list(
                values,
                stages_render(
                    stages(completed.skip(skipped(completed, 5) as int), graph),
                    outcomes,
                ),
            ),
            SummaryDetail::Low => recent_account(completed, 2, StageForm::Brief, graph, outcomes),
        },
    )
}

fn push_recent(
    parts: &mut Vec<String>,
    rendered: &mut TextSet,
    completed: &Vec<String>,
    recent: usize,
    form: StageForm,
    graph: &Graph,
    outcomes: &Table<Outcome>,
)
    ensures
        final(parts).deep_view() == old(parts).deep_view() + recent_account(
            completed.deep_view(),
            recent as nat,
            form,
            graph@,
            outcomes@,
        ),
        final(rendered)@ == old(rendered)@.union(
            stages_render(
                stages(
                    completed.deep_view().skip(
                        skipped(completed.deep_view(), recent as nat) as int,
                    ),
                    graph@,
                ),
                outcomes@,
            ),
        ),
{
    let ghost start = parts.deep_view();
    let count: usize = completed.len();
    let mut line = concat("Completed ", decimal_string(count as u64).as_str());
    line.append(" stage(s) so far.");
    push_text(parts, line);
    let left_out: usize = if count > recent {
        count - recent
    } else {
        0
    };
    if left_out > 0 {
        let mut note = concat("\n(", decimal_string(left_out as u64).as_str());
        note.append(" earlier stage(s) omitted)");
        push_text(parts, note);
    }
    push_headed_stages(
        parts,
        rendered,
        "\nRecent stages:",
        form,
        completed,
        left_out,
        graph,
        outcomes,
    );
    assert(parts.deep_view() =~= start + recent_account(
        completed.deep_view(),
        recent as nat,
        form,
        graph@,
        outcomes@,
    ));
}

pub fn build_summary_preamble(
    goal: &str,
    run: &str,
    completed: &Vec<String>,
    outcomes: &Table<Outcome>,
    context: &Context,
    graph: &Graph,
    detail: SummaryDetail,
) -> (r: String)
    ensures
        r@ == summary_account(
            goal@,
            run@,
            completed.deep_view(),
            outcomes@,
            context@,
            graph@,
            detail,
        ),
{
    let mut parts: Vec<String> = Vec::new();
    let mut rendered = TextSet::new();
    add_pair(&mut parts, "Goal: ", goal);
    add_pair(&mut parts, "Run ID: ", run);
    let ghost lead = seq!["Goal: "@ + goal@, "Run ID: "@ + run@];
    let ghost all = completed.deep_view();
    assert(parts.deep_view() =~= lead);
    match detail {
        SummaryDetail::High => {
            let names = graph.nodes.keys();
            assert(names.deep_view().skip(0) =~= names.deep_view());
            let nodes = stages_of(&names, 0, graph);
            assert(all.skip(0) =~= all);
            let shown = stages_of(completed, 0, graph);
            let mut line = concat("Pipeline progress: ", decimal_string(shown.len() as u64).as_str());
            line.append(" of ");
            line.append(decimal_string(nodes.len() as u64).as_str());
            line.append(" stages completed");
            push_text(&mut parts, line);
            push_stages(&mut parts, &mut rendered, StageForm::Section, &shown, graph, outcomes);
            assert(rendered@ =~= stages_render(stages(all, graph@), outcomes@));
            assert(parts.deep_view() =~= lead + full_account(all, graph@, outcomes@));
            append_filtered_context_table(&mut parts, context, &rendered);
            assert(parts.deep_view() =~= lead + (full_account(all, graph@, outcomes@)
                + context_table(context@, rendered@)));
        },
        SummaryDetail::Medium => {
            push_recent(
                &mut parts,
                &mut rendered,
                completed,
                5,
                StageForm::Recent,
                graph,
                outcomes,
            );
            let ghost shown = stages(all.skip(skipped(all, 5) as int), graph@);
            assert(rendered@ =~= stages_render(shown, outcomes@));
            append_filtered_context(&mut parts, context, &rendered);
            assert(parts.deep_view() =~= lead + (recent_account(
                all,
                5,
                StageForm::Recent,
                graph@,
                outcomes@,
            ) + context_list(context@, rendered@)));
        },
        SummaryDetail::Low => {
            push_recent(
                &mut parts,
                &mut rendered,
                completed,
                2,
                StageForm::Brief,
                graph,
                outcomes,
            );
        },
    }
    account_text(parts)
}

/// The account for a fidelity, before that of a parent run.
pub open spec fn own_account(
    fidelity: Fidelity,
    values: Values,
    graph: GraphView,
    completed: Seq<Seq<char>>,
    outcomes: Outcomes,
) -> Seq<char> {
    let goal = graph.goal();
    let run = run_id_of(values);
    match fidelity {
        Fidelity::Full => Seq::empty(),
        Fidelity::Truncate => "Goal: "@ + goal + "\nRun ID: "@ + run + "\n"@,
        Fidelity::Compact => compact_account(goal, completed, outcomes, values, graph),
        Fidelity::SummaryLow => summary_account(
            goal,
            run,
            completed,
            outcomes,
            values,
            graph,
            SummaryDetail::Low,
        ),
        Fidelity::SummaryMedium => summary_account(
            goal,
            run,
            completed,
            outcomes,
            values,
            graph,
            SummaryDetail::Medium,
        ),
        Fidelity::SummaryHigh => summary_account(
            goal,
            run,
            completed,
            outcomes,
            values,
            graph,
            SummaryDetail::High,
        ),
    }
}

/// The account that a session starts from. That of a parent run stands before
/// one that is not empty.
pub open spec fn preamble(
    fidelity: Fidelity,
    values: Values,
    graph: GraphView,
    completed: Seq<Seq<char>>,
    outcomes: Outcomes,
) -> Seq<char> {
    let own = own_account(fidelity, values, graph, completed, outcomes);
    let parent = text_or(values, INTERNAL_PARENT_PREAMBLE@, Seq::empty());
    if parent.len() > 0 && own.len() > 0 {
        "## Parent workflow context\n"@ + parent + "\n\n## Current sub-workflow\n"@ + own
    } else {
        own
    }
}

/// Builds the account that a session starts from.
pub fn build_preamble(
    fidelity: Fidelity,
    context: &Context,
    graph: &Graph,
    completed: &Vec<String>,
    outcomes: &Table<Outcome>,
) -> (r: String)
    ensures
        r@ == preamble(fidelity, context@, graph@, completed.deep_view(), outcomes@),
{
    let goal = graph.goal();
    let run = run_id(context);
    let own = match fidelity {
        Fidelity::Full => {
            let empty = String::new();
            assert(empty@ =~= Seq::<char>::empty());
            empty
        },
        Fidelity::Truncate => {
            let mut s = concat("Goal: ", goal);
            s.append("\nRun ID: ");
            s.append(run);
            s.append("\n");
            s
        },
        Fidelity::Compact => build_compact_preamble(goal, completed, outcomes, context, graph),
        Fidelity::SummaryLow => build_summary_preamble(
            goal,
            run,
            completed,
            outcomes,
            context,
            graph,
            SummaryDetail::Low,
        ),
        Fidelity::SummaryMedium => build_summary_preamble(
            goal,
            run,
            completed,
            outcomes,
            context,
            graph,
            SummaryDetail::Medium,
        ),
        Fidelity::SummaryHigh => build_summary_preamble(
            goal,
            run,
            completed,
            outcomes,
            context,
            graph,
            SummaryDetail::High,
        ),
    };
    let parent = match crate::context::get_text(context, INTERNAL_PARENT_PREAMBLE) {
        Some(s) => s,
        None => {
            return own;
        },
    };
    if !parent.is_empty() && !own.as_str().is_empty() {
        let mut s = concat("## Parent workflow context\n", parent);
        s.append("\n\n## Current sub-workflow\n");
        s.append(own.as_str());
        s
    } else {
        own
    }
}

/// A full-fidelity session starts from no account, whatever came before it.
pub proof fn lemma_full_fidelity_is_silent(
    values: Values,
    graph: GraphView,
    completed: Seq<Seq<char>>,
    outcomes: Outcomes,
)
    ensures
        preamble(Fidelity::Full, values, graph, completed, outcomes) == Seq::<char>::empty(),
{
}

/// No account tells a context key of the engine's own, one that a stage's lines
/// show already, or an empty value; every other key is told, once.
pub proof fn lemma_told_keys(values: Values, rendered: Set<Seq<char>>, key: Seq<char>)
    requires
        values.dom().finite(),
    ensures
        told_keys(values, rendered).contains(key) <==> told(values, rendered, key),
        ascending(told_keys(values, rendered)),
{
    let wanted = Set::new(|key: Seq<char>| told(values, rendered, key));
    vstd::set_lib::lemma_len_subset(wanted, values.dom());
    lemma_sorted(wanted);
    assert(sorted(wanted).to_set().contains(key) == wanted.contains(key));
}

/// A stage that only starts or ends the run is never told.
pub proof fn lemma_meta_stages_are_not_told(ids: Seq<Seq<char>>, graph: GraphView, id: Seq<char>)
    requires
        meta(graph, id),
    ensures
        !stages(ids, graph).contains(id),
    decreases ids.len(),
{
    reveal(Seq::filter);
    if ids.len() > 0 {
        lemma_meta_stages_are_not_told(ids.drop_last(), graph, id);
        let rest = stages(ids.drop_last(), graph);
        if stages(ids, graph).contains(id) {
            let k = choose|k: int| 0 <= k < stages(ids, graph).len() && stages(ids, graph)[k] == id;
            if k < rest.len() {
                assert(rest[k] == id);
            }
        }
    }
}

proof fn lemma_working_stages_are_kept(ids: Seq<Seq<char>>, graph: GraphView, i: int) -> (k: int)
    requires
        0 <= i < ids.len(),
        !meta(graph, ids[i]),
    ensures
        0 <= k < stages(ids, graph).len(),
        stages(ids, graph)[k] == ids[i],
    decreases ids.len(),
{
    reveal(Seq::filter);
    let earlier = ids.drop_last();
    if i == ids.len() - 1 {
        stages(earlier, graph).len() as int
    } else {
        assert(earlier[i] == ids[i]);
        lemma_working_stages_are_kept(earlier, graph, i)
    }
}

proof fn lemma_entry_among(
    form: StageForm,
    ids: Seq<Seq<char>>,
    graph: GraphView,
    outcomes: Outcomes,
    k: int,
) -> (around: (Seq<Seq<char>>, Seq<Seq<char>>))
    requires
        0 <= k < ids.len(),
    ensures
        stage_entries(form, ids, graph, outcomes) == around.0 + stage_entry(
            form,
            ids[k],
            graph,
            outcomes,
        ) + around.1,
    decreases ids.len(),
{
    let earlier = ids.drop_last();
    let entry = stage_entry(form, ids[k], graph, outcomes);
    if k == ids.len() - 1 {
        let a = stage_entries(form, earlier, graph, outcomes);
        assert(a + entry =~= a + entry + Seq::<Seq<char>>::empty());
        (a, Seq::empty())
    } else {
        assert(earlier[k] == ids[k]);
        let (a, b) = lemma_entry_among(form, earlier, graph, outcomes, k);
        let last = stage_entry(form, ids.last(), graph, outcomes);
        assert((a + entry + b) + last =~= a + entry + (b + last));
        (a, b + last)
    }
}

proof fn lemma_headed_entry(
    heading: Seq<char>,
    form: StageForm,
    ids: Seq<Seq<char>>,
    graph: GraphView,
    outcomes: Outcomes,
    i: int,
) -> (around: (Seq<Seq<char>>, Seq<Seq<char>>))
    requires
        0 <= i < ids.len(),
        !meta(graph, ids[i]),
    ensures
        headed_stages(heading, form, ids, graph, outcomes) == around.0 + stage_entry(
            form,
            ids[i],
            graph,
            outcomes,
        ) + around.1,
{
    let k = lemma_working_stages_are_kept(ids, graph, i);
    let (a, b) = lemma_entry_among(form, stages(ids, graph), graph, outcomes, k);
    let entry = stage_entry(form, ids[i], graph, outcomes);
    assert(seq![heading] + (a + entry + b) =~= (seq![heading] + a) + entry + b);
    (seq![heading] + a, b)
}

proof fn lemma_parts_are_told(
    parts: Seq<Seq<char>>,
    a: Seq<Seq<char>>,
    mid: Seq<Seq<char>>,
    b: Seq<Seq<char>>,
)
    requires
        mid.len() > 0,
        parts == a + mid + b,
    ensures
        within(join(mid, "\n"@), account(parts)),
{
    assert(parts.push(Seq::empty()) =~= a + mid + b.push(Seq::empty()));
    lemma_joined_parts_are_within(a, mid, b.push(Seq::empty()), "\n"@);
}

proof fn lemma_own_account_is_told(
    fidelity: Fidelity,
    values: Values,
    graph: GraphView,
    completed: Seq<Seq<char>>,
    outcomes: Outcomes,
    p: Seq<char>,
)
    requires
        within(p, own_account(fidelity, values, graph, completed, outcomes)),
    ensures
        within(p, preamble(fidelity, values, graph, completed, outcomes)),
{
    let own = own_account(fidelity, values, graph, completed, outcomes);
    let parent = text_or(values, INTERNAL_PARENT_PREAMBLE@, Seq::empty());
    let all = preamble(fidelity, values, graph, completed, outcomes);
    if parent.len() > 0 && own.len() > 0 {
        let front = "## Parent workflow context\n"@ + parent + "\n\n## Current sub-workflow\n"@;
        assert(all =~= front + own + Seq::<char>::empty());
        lemma_within_chains(p, own, all);
    }
}

proof fn lemma_compact_stage_is_told(
    goal: Seq<char>,
    values: Values,
    graph: GraphView,
    completed: Seq<Seq<char>>,
    outcomes: Outcomes,
    i: int,
)
    requires
        0 <= i < completed.len(),
        !meta(graph, completed[i]),
    ensures
        within(
            join(stage_entry(StageForm::Compact, completed[i], graph, outcomes), "\n"@),
            compact_account(goal, completed, outcomes, values, graph),
        ),
{
    let form = StageForm::Compact;
    let heading = "\n## Completed stages"@;
    let entry = stage_entry(form, completed[i], graph, outcomes);
    let (a, b) = lemma_headed_entry(heading, form, completed, graph, outcomes, i);
    let list = context_list(values, stages_render(stages(completed, graph), outcomes));
    let lead = seq!["Goal: "@ + goal];
    let parts = lead + headed_stages(heading, form, completed, graph, outcomes) + list;
    assert(parts =~= (lead + a) + entry + (b + list));
    assert(entry.len() > 0);
    lemma_parts_are_told(parts, lead + a, entry, b + list);
}

proof fn lemma_section_is_told(
    goal: Seq<char>,
    run: Seq<char>,
    values: Values,
    graph: GraphView,
    completed: Seq<Seq<char>>,
    outcomes: Outcomes,
    i: int,
)
    requires
        0 <= i < completed.len(),
        !meta(graph, completed[i]),
    ensures
        within(
            join(stage_entry(StageForm::Section, completed[i], graph, outcomes), "\n"@),
            summary_account(goal, run, completed, outcomes, values, graph, SummaryDetail::High),
        ),
{
    let form = StageForm::Section;
    let entry = stage_entry(form, completed[i], graph, outcomes);
    let shown = stages(completed, graph);
    let k = lemma_working_stages_are_kept(completed, graph, i);
    let (a, b) = lemma_entry_among(form, shown, graph, outcomes, k);
    let table = context_table(values, stages_render(shown, outcomes));
    let full = full_account(completed, graph, outcomes);
    let head = full.take(1);
    let lead = seq!["Goal: "@ + goal, "Run ID: "@ + run];
    assert(full =~= head + (a + entry + b));
    let parts = lead + (full + table);
    assert(parts =~= (lead + head + a) + entry + (b + table));
    assert(entry.len() > 0);
    lemma_parts_are_told(parts, lead + head + a, entry, b + table);
}

proof fn lemma_recent_stage_is_told(
    goal: Seq<char>,
    run: Seq<char>,
    values: Values,
    graph: GraphView,
    completed: Seq<Seq<char>>,
    outcomes: Outcomes,
    i: int,
    medium: bool,
)
    requires
        0 <= i < completed.len(),
        !meta(graph, completed[i]),
        completed.len() - i <= if medium {
            5int
        } else {
            2int
        },
    ensures
        medium ==> within(
            join(stage_entry(StageForm::Recent, completed[i], graph, outcomes), "\n"@),
            summary_account(goal, run, completed, outcomes, values, graph, SummaryDetail::Medium),
        ),
        !medium ==> within(
            join(stage_entry(StageForm::Brief, completed[i], graph, outcomes), "\n"@),
            summary_account(goal, run, completed, outcomes, values, graph, SummaryDetail::Low),
        ),
{
    let heading = "\nRecent stages:"@;
    let count: nat = if medium {
        5
    } else {
        2
    };
    let form = if medium {
        StageForm::Recent
    } else {
        StageForm::Brief
    };
    let entry = stage_entry(form, completed[i], graph, outcomes);
    let left_out = skipped(completed, count) as int;
    let recent = completed.skip(left_out);
    assert(recent[i - left_out] == completed[i]);
    let (a, b) = lemma_headed_entry(heading, form, recent, graph, outcomes, i - left_out);
    let told = recent_account(completed, count, form, graph, outcomes);
    let headed = headed_stages(heading, form, recent, graph, outcomes);
    let head = told.take(told.len() - headed.len());
    assert(told =~= head + headed);
    let list = if medium {
        context_list(values, stages_render(stages(recent, graph), outcomes))
    } else {
        Seq::empty()
    };
    let lead = seq!["Goal: "@ + goal, "Run ID: "@ + run];
    let parts = lead + (told + list);
    assert(!medium ==> told + list =~= told);
    assert(parts =~= (lead + head + a) + entry + (b + list));
    assert(entry.len() > 0);
    lemma_parts_are_told(parts, lead + head + a, entry, b + list);
}

/// Every completed stage that does work is told whole, in the form of the
/// fidelity: all of them in a compact account and in a detailed report, the last
/// five in a medium summary and the last two in a short one. The account of a
/// parent run takes nothing away from that.
pub proof fn lemma_completed_stages_are_told(
    fidelity: Fidelity,
    values: Values,
    graph: GraphView,
    completed: Seq<Seq<char>>,
    outcomes: Outcomes,
    i: int,
)
    requires
        0 <= i < completed.len(),
        graph.handler_of(completed[i]) != Some("start"@),
        graph.handler_of(completed[i]) != Some("exit"@),
        fidelity != Fidelity::Full && fidelity != Fidelity::Truncate,
        fidelity == Fidelity::SummaryMedium ==> completed.len() - i <= 5,
        fidelity == Fidelity::SummaryLow ==> completed.len() - i <= 2,
    ensures
        ({
            let form = match fidelity {
                Fidelity::SummaryLow => StageForm::Brief,
                Fidelity::SummaryMedium => StageForm::Recent,
                Fidelity::SummaryHigh => StageForm::Section,
                _ => StageForm::Compact,
            };
            within(
                join(stage_entry(form, completed[i], graph, outcomes), "\n"@),
                preamble(fidelity, values, graph, completed, outcomes),
            )
        }),
{
    let goal = graph.goal();
    let run = run_id_of(values);
    let form = match fidelity {
        Fidelity::SummaryLow => StageForm::Brief,
        Fidelity::SummaryMedium => StageForm::Recent,
        Fidelity::SummaryHigh => StageForm::Section,
        _ => StageForm::Compact,
    };
    match fidelity {
        Fidelity::Compact => {
            lemma_compact_stage_is_told(goal, values, graph, completed, outcomes, i);
        },
        Fidelity::SummaryHigh => {
            lemma_section_is_told(goal, run, values, graph, completed, outcomes, i);
        },
        Fidelity::SummaryMedium => {
            lemma_recent_stage_is_told(goal, run, values, graph, completed, outcomes, i, true);
        },
        _ => {
            lemma_recent_stage_is_told(goal, run, values, graph, completed, outcomes, i, false);
        },
    }
    lemma_own_account_is_told(
        fidelity,
        values,
        graph,
        completed,
        outcomes,
        join(stage_entry(form, completed[i], graph, outcomes), "\n"@),
    );
}

/// The output of every completed command is told, whatever the status of its
/// stage: the compact account and, for one of the last five stages, the medium
/// summary hold every one of its last twenty-five lines between fences.
pub proof fn lemma_command_output_is_told(
    fidelity: Fidelity,
    values: Values,
    graph: GraphView,
    completed: Seq<Seq<char>>,
    outcomes: Outcomes,
    i: int,
    output: Seq<char>,
)
    requires
        0 <= i < completed.len(),
        fidelity == Fidelity::Compact || (fidelity == Fidelity::SummaryMedium && completed.len() - i
            <= 5),
        graph.nodes.contains_key(completed[i]),
        graph.nodes[completed[i]].handler_type() == Some("command"@),
        outcomes.contains_key(completed[i]),
        outcomes[completed[i]].context_updates.contains_key("command.output"@),
        outcomes[completed[i]].context_updates["command.output"@] == JsonView::Str(output),
        trim(output).len() > 0,
    ensures
        exists|block: Seq<char>|
            {
                &&& #[trigger] holds_last_lines(block, lines(trim(output)), 25, "    "@)
                &&& within(
                    join(seq!["  - Output:"@, "    ```"@, block, "    ```"@], "\n"@),
                    preamble(fidelity, values, graph, completed, outcomes),
                )
            },
{
    let node = graph.nodes[completed[i]];
    let outcome = outcomes[completed[i]];
    let form = if fidelity == Fidelity::Compact {
        StageForm::Compact
    } else {
        StageForm::Recent
    };
    let entry = stage_entry(form, completed[i], graph, outcomes);
    reveal_strlit("command");
    reveal_strlit("start");
    reveal_strlit("exit");
    assert("command"@.len() == 7 && "start"@.len() == 5 && "exit"@.len() == 4);
    lemma_completed_stages_are_told(fidelity, values, graph, completed, outcomes, i);
    lemma_compact_details_show_the_output(node, outcome);
    let details = compact_details(Some(node), outcome);
    assert(entry.skip(1) =~= details);
    let at: int = if node.text("script"@) is Some {
        1
    } else {
        0
    };
    assert(shows_output(details, at, "  - "@, "    "@, output, 25));
    lemma_shown_output_is_within(entry, 1 + at, "  - "@, "    "@);
    let block = entry[at + 3];
    lemma_fences();
    lemma_within_chains(
        join(seq!["  - Output:"@, "    ```"@, block, "    ```"@], "\n"@),
        join(entry, "\n"@),
        preamble(fidelity, values, graph, completed, outcomes),
    );
}

/// The output of every completed command is told in a detailed report, whatever
/// the status of its stage: every one of its last fifty lines, between fences.
pub proof fn lemma_reports_tell_command_output(
    values: Values,
    graph: GraphView,
    completed: Seq<Seq<char>>,
    outcomes: Outcomes,
    i: int,
    output: Seq<char>,
)
    requires
        0 <= i < completed.len(),
        graph.nodes.contains_key(completed[i]),
        graph.nodes[completed[i]].handler_type() == Some("command"@),
        outcomes.contains_key(completed[i]),
        outcomes[completed[i]].context_updates.contains_key("command.output"@),
        outcomes[completed[i]].context_updates["command.output"@] == JsonView::Str(output),
        !"file://"@.is_prefix_of(output),
        trim(output).len() > 0,
    ensures
        exists|block: Seq<char>|
            {
                &&& #[trigger] holds_last_lines(block, lines(trim(output)), 50, "  "@)
                &&& within(
                    join(seq!["- Output:"@, "  ```"@, block, "  ```"@], "\n"@),
                    preamble(Fidelity::SummaryHigh, values, graph, completed, outcomes),
                )
            },
{
    let node = graph.nodes[completed[i]];
    let outcome = outcomes[completed[i]];
    let entry = stage_entry(StageForm::Section, completed[i], graph, outcomes);
    reveal_strlit("command");
    reveal_strlit("start");
    reveal_strlit("exit");
    assert("command"@.len() == 7 && "start"@.len() == 5 && "exit"@.len() == 4);
    lemma_completed_stages_are_told(
        Fidelity::SummaryHigh,
        values,
        graph,
        completed,
        outcomes,
        i,
    );
    lemma_section_shows_the_output(completed[i], node, outcome);
    let at: int = if node.text("script"@) is Some {
        4
    } else {
        3
    };
    assert(shows_output(entry, at, "- "@, "  "@, output, 50));
    lemma_shown_output_is_within(entry, at, "- "@, "  "@);
    let block = entry[at + 2];
    lemma_fences();
    lemma_within_chains(
        join(seq!["- Output:"@, "  ```"@, block, "  ```"@], "\n"@),
        join(entry, "\n"@),
        preamble(Fidelity::SummaryHigh, values, graph, completed, outcomes),
    );
}

proof fn lemma_fences()
    ensures
        "  - "@ + "Output:"@ == "  - Output:"@,
        "- "@ + "Output:"@ == "- Output:"@,
        "    "@ + "```"@ == "    ```"@,
        "  "@ + "```"@ == "  ```"@,
{
    reveal_strlit("  - ");
    reveal_strlit("- ");
    reveal_strlit("    ");
    reveal_strlit("  ");
    reveal_strlit("Output:");
    reveal_strlit("  - Output:");
    reveal_strlit("- Output:");
    reveal_strlit("```");
    reveal_strlit("    ```");
    reveal_strlit("  ```");
    assert("  - "@ + "Output:"@ =~= "  - Output:"@);
    assert("- "@ + "Output:"@ =~= "- Output:"@);
    assert("    "@ + "```"@ =~= "    ```"@);
    assert("  "@ + "```"@ =~= "  ```"@);
}

proof fn lemma_shown_output_is_within(
    told: Seq<Seq<char>>,
    at: int,
    lead: Seq<char>,
    indent: Seq<char>,
)
    requires
        0 <= at < told.len() - 3,
        told[at] == lead + "Output:"@,
        told[at + 1] == indent + "```"@,
        told[at + 3] == indent + "```"@,
    ensures
        within(
            join(
                seq![lead + "Output:"@, indent + "```"@, told[at + 2], indent + "```"@],
                "\n"@,
            ),
            join(told, "\n"@),
        ),
{
    let shown = seq![lead + "Output:"@, indent + "```"@, told[at + 2], indent + "```"@];
    assert(told =~= told.take(at) + shown + told.skip(at + 4));
    lemma_joined_parts_are_within(told.take(at), shown, told.skip(at + 4), "\n"@);
}

/// Whether a context key belongs to the engine: no account lists it.
pub open spec fn engine_key(key: Seq<char>) -> bool {
    ||| "internal."@.is_prefix_of(key)
    ||| "current"@.is_prefix_of(key)
    ||| "graph."@.is_prefix_of(key)
    ||| "thread."@.is_prefix_of(key)
    ||| "response."@.is_prefix_of(key)
    ||| key == "outcome"@
    ||| key == "last_stage"@
    ||| key == "last_response"@
    ||| key == "preferred_label"@
}

proof fn lemma_rendered_stage(ids: Seq<Seq<char>>, outcomes: Outcomes, key: Seq<char>)
    requires
        stages_render(ids, outcomes).contains(key),
        !engine_key(key),
    ensures
        key == "command.output"@,
        exists|i: int|
            0 <= i < ids.len() && outcomes.contains_key(#[trigger] ids[i])
                && outcomes[ids[i]].context_updates.contains_key("command.output"@),
    decreases ids.len(),
{
    if ids.len() > 0 {
        let earlier = ids.drop_last();
        assert(ids[ids.len() - 1] == ids.last());
        if stages_render(earlier, outcomes).contains(key) {
            lemma_rendered_stage(earlier, outcomes, key);
            let i = choose|i: int|
                0 <= i < earlier.len() && outcomes.contains_key(#[trigger] earlier[i])
                    && outcomes[earlier[i]].context_updates.contains_key("command.output"@);
            assert(ids[i] == earlier[i]);
        } else {
            assert("response."@.is_prefix_of("response."@ + ids.last()));
        }
    }
}

proof fn lemma_kept_stages_do_work(ids: Seq<Seq<char>>, graph: GraphView, k: int) -> (i: int)
    requires
        0 <= k < stages(ids, graph).len(),
    ensures
        0 <= i < ids.len(),
        ids[i] == stages(ids, graph)[k],
        !meta(graph, ids[i]),
    decreases ids.len(),
{
    reveal(Seq::filter);
    if ids.len() == 0 {
        0
    } else {
        let earlier = ids.drop_last();
        let rest = stages(earlier, graph);
        if k < rest.len() {
            assert(stages(ids, graph)[k] == rest[k]);
            let i = lemma_kept_stages_do_work(earlier, graph, k);
            assert(ids[i] == earlier[i]);
            i
        } else {
            ids.len() - 1
        }
    }
}

/// Every value of the context is told, but for those of the engine's own keys,
/// empty texts, and a command's output where a stage that is told set it. The
/// compact account and the medium summary list it behind its key, the detailed
/// report has a row for it.
pub proof fn lemma_context_values_are_told(
    fidelity: Fidelity,
    values: Values,
    graph: GraphView,
    completed: Seq<Seq<char>>,
    outcomes: Outcomes,
    key: Seq<char>,
)
    requires
        fidelity == Fidelity::Compact || fidelity == Fidelity::SummaryMedium || fidelity
            == Fidelity::SummaryHigh,
        values.dom().finite(),
        values.contains_key(key),
        !engine_key(key),
        values[key] matches JsonView::Str(s) ==> s.len() > 0,
    ensures
        ({
            let value = match values[key] {
                JsonView::Str(s) => s,
                v => compact(v),
            };
            let row = if fidelity == Fidelity::SummaryHigh {
                "| "@ + key + " | "@ + value + " |"@
            } else {
                "- "@ + key + ": "@ + value
            };
            ||| within(row, preamble(fidelity, values, graph, completed, outcomes))
            ||| key == "command.output"@ && exists|i: int|
                {
                    &&& 0 <= i < completed.len()
                    &&& fidelity == Fidelity::SummaryMedium ==> completed.len() - 5 <= i
                    &&& !meta(graph, #[trigger] completed[i])
                    &&& outcomes.contains_key(completed[i])
                    &&& outcomes[completed[i]].context_updates.contains_key("command.output"@)
                }
        }),
{
    let from: int = if fidelity == Fidelity::SummaryMedium {
        skipped(completed, 5) as int
    } else {
        0
    };
    let recent = completed.skip(from);
    assert(completed.skip(0) =~= completed);
    let shown = stages(recent, graph);
    let rendered = stages_render(shown, outcomes);
    assert(engine_key(key) == excluded(key));
    if rendered.contains(key) {
        lemma_rendered_stage(shown, outcomes, key);
        let k = choose|k: int|
            0 <= k < shown.len() && outcomes.contains_key(#[trigger] shown[k])
                && outcomes[shown[k]].context_updates.contains_key("command.output"@);
        let i = lemma_kept_stages_do_work(recent, graph, k);
        assert(completed[from + i] == shown[k]);
    } else {
        lemma_told_keys(values, rendered, key);
        let keys = told_keys(values, rendered);
        let k = choose|k: int| 0 <= k < keys.len() && keys[k] == key;
        let high = fidelity == Fidelity::SummaryHigh;
        let list = if high {
            context_table(values, rendered)
        } else {
            context_list(values, rendered)
        };
        let at: int = if high {
            3 + k
        } else {
            1 + k
        };
        let goal = seq!["Goal: "@ + graph.goal()];
        let lead = seq!["Goal: "@ + graph.goal(), "Run ID: "@ + run_id_of(values)];
        let front = match fidelity {
            Fidelity::Compact => goal + headed_stages(
                "\n## Completed stages"@,
                StageForm::Compact,
                completed,
                graph,
                outcomes,
            ),
            Fidelity::SummaryMedium => lead + recent_account(
                completed,
                5,
                StageForm::Recent,
                graph,
                outcomes,
            ),
            _ => lead + full_account(completed, graph, outcomes),
        };
        let row = list[at];
        let parts = front + list;
        assert(!(fidelity == Fidelity::Compact) ==> parts =~= lead + (front.skip(2) + list));
        assert(!(fidelity == Fidelity::Compact) ==> front.skip(2) =~= match fidelity {
            Fidelity::SummaryMedium => recent_account(
                completed,
                5,
                StageForm::Recent,
                graph,
                outcomes,
            ),
            _ => full_account(completed, graph, outcomes),
        });
        assert(parts =~= (front + list.take(at)) + seq![row] + list.skip(at + 1));
        lemma_parts_are_told(parts, front + list.take(at), seq![row], list.skip(at + 1));
        assert(join(seq![row], "\n"@) == row);
        lemma_own_account_is_told(fidelity, values, graph, completed, outcomes, row);
    }
}

/// Every account but the silent one of full fidelity tells the goal of the run,
/// and every one but that and the compact account tells which run it is.
pub proof fn lemma_goal_and_run_are_told(
    fidelity: Fidelity,
    values: Values,
    graph: GraphView,
    completed: Seq<Seq<char>>,
    outcomes: Outcomes,
)
    requires
        fidelity != Fidelity::Full,
    ensures
        within(
            "Goal: "@ + graph.goal(),
            preamble(fidelity, values, graph, completed, outcomes),
        ),
        fidelity != Fidelity::Compact ==> within(
            "Run ID: "@ + run_id_of(values),
            preamble(fidelity, values, graph, completed, outcomes),
        ),
{
    let goal = "Goal: "@ + graph.goal();
    let run = "Run ID: "@ + run_id_of(values);
    let own = own_account(fidelity, values, graph, completed, outcomes);
    match fidelity {
        Fidelity::Full => {},
        Fidelity::Truncate => {
            reveal_strlit("\nRun ID: ");
            reveal_strlit("Run ID: ");
            reveal_strlit("\n");
            assert("\nRun ID: "@ =~= "\n"@ + "Run ID: "@);
            assert(own =~= Seq::<char>::empty() + goal + ("\n"@ + run + "\n"@));
            assert(own =~= (goal + "\n"@) + run + "\n"@);
        },
        Fidelity::Compact => {
            let parts = seq![goal] + headed_stages(
                "\n## Completed stages"@,
                StageForm::Compact,
                completed,
                graph,
                outcomes,
            ) + context_list(values, stages_render(stages(completed, graph), outcomes));
            assert(parts =~= Seq::<Seq<char>>::empty() + seq![goal] + parts.skip(1));
            lemma_parts_are_told(parts, Seq::empty(), seq![goal], parts.skip(1));
        },
        _ => {
            let detail = match fidelity {
                Fidelity::SummaryLow => SummaryDetail::Low,
                Fidelity::SummaryMedium => SummaryDetail::Medium,
                _ => SummaryDetail::High,
            };
            let rest = match detail {
                SummaryDetail::High => full_account(completed, graph, outcomes) + context_table(
                    values,
                    stages_render(stages(completed, graph), outcomes),
                ),
                SummaryDetail::Medium => recent_account(
                    completed,
                    5,
                    StageForm::Recent,
                    graph,
                    outcomes,
                ) + context_list(
                    values,
                    stages_render(
                        stages(completed.skip(skipped(completed, 5) as int), graph),
                        outcomes,
                    ),
                ),
                SummaryDetail::Low => recent_account(
                    completed,
                    2,
                    StageForm::Brief,
                    graph,
                    outcomes,
                ),
            };
            let parts = seq![goal, run] + rest;
            assert(parts =~= Seq::<Seq<char>>::empty() + seq![goal] + (seq![run] + rest));
            lemma_parts_are_told(parts, Seq::empty(), seq![goal], seq![run] + rest);
            assert(parts =~= seq![goal] + seq![run] + rest);
            lemma_parts_are_told(parts, seq![goal], seq![run], rest);
        },
    }
    lemma_own_account_is_told(fidelity, values, graph, completed, outcomes, goal);
    if fidelity != Fidelity::Compact {
        lemma_own_account_is_told(fidelity, values, graph, completed, outcomes, run);
    }
}

/// The account of a parent run stands before that of a sub-workflow, whole, in
/// every fidelity that gives an account at all.
pub proof fn lemma_parent_account_comes_first(
    fidelity: Fidelity,
    values: Values,
    graph: GraphView,
    completed: Seq<Seq<char>>,
    outcomes: Outcomes,
    parent: Seq<char>,
)
    requires
        fidelity != Fidelity::Full,
        values.contains_key("internal.parent_preamble"@),
        values["internal.parent_preamble"@] == JsonView::Str(parent),
        parent.len() > 0,
    ensures
        ("## Parent workflow context\n"@ + parent).is_prefix_of(
            preamble(fidelity, values, graph, completed, outcomes),
        ),
{
    let own = own_account(fidelity, values, graph, completed, outcomes);
    reveal_strlit("Goal: ");
    let told = "## Parent workflow context\n"@ + parent;
    lemma_goal_and_run_are_told(fidelity, values, graph, completed, outcomes);
    if own.len() > 0 {
        let all = preamble(fidelity, values, graph, completed, outcomes);
        assert(all =~= told + ("\n\n## Current sub-workflow\n"@ + own));
    } else {
        let p = "Goal: "@ + graph.goal();
        let (a, b) = choose|a: Seq<char>, b: Seq<char>| own == #[trigger] (a + p + b);
        assert((a + p + b).len() > 0);
    }
}


} // verus!
