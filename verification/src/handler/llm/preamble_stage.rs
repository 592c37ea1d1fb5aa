//! How a completed stage is told to the next one.
use crate::graph::{is_llm, is_llm_handler_type, Node, NodeView};
use crate::json::{compact, Json, JsonView};
use crate::keys::{
    concat, response_key, COMMAND_OUTPUT, LAST_RESPONSE, LAST_STAGE, RESPONSE_PREFIX,
};
use crate::order::{push_text, TextSet};
use crate::outcome::{Outcome, OutcomeView};
use crate::text::{
    decimal, decimal_string, has_prefix, join, joined, lines, lines_of, same, trim, trimmed, within,
};
use vstd::prelude::*;
use vstd::string::*;

verus! {

/// Lines of command output that a compact preamble keeps.
pub const COMPACT_OUTPUT_MAX_LINES: usize = 25;

/// Lines of command output that a detailed preamble keeps.
pub const SUMMARY_HIGH_OUTPUT_MAX_LINES: usize = 50;

/// A value as text: a string as it is, any other value as JSON.
pub open spec fn value_text(v: JsonView) -> Seq<char> {
    match v {
        JsonView::Str(s) => s,
        _ => compact(v),
    }
}

pub fn format_value(value: &Json) -> (r: String)
    ensures
        r@ == value_text(value@),
{
    match value.as_str() {
        Some(s) => s.to_owned(),
        None => value.render(),
    }
}

/// Whether a value is an empty string.
pub open spec fn blank(v: JsonView) -> bool {
    v matches JsonView::Str(s) && s.len() == 0
}

pub fn is_blank_value(value: &Json) -> (r: bool)
    ensures
        r == blank(value@),
{
    match value.as_str() {
        Some(s) => s.is_empty(),
        None => false,
    }
}

/// The path of a value that points to a stored file.
pub open spec fn file_path(v: JsonView) -> Option<Seq<char>> {
    match v {
        JsonView::Str(s) => if "file://"@.is_prefix_of(s) {
            Some(s.skip("file://"@.len() as int))
        } else {
            None
        },
        _ => None,
    }
}

/// The path of a value that points to a stored file.
pub fn artifact_path(value: &Json) -> (r: Option<String>)
    ensures
        r.deep_view() == file_path(value@),
{
    match value.as_str() {
        Some(s) => if has_prefix(s, "file://") {
            let v = crate::text::chars_of(s);
            proof {
                reveal_strlit("file://");
            }
            let path = crate::text::string_of(&v, 7, v.len());
            assert(path@ =~= s@.skip("file://"@.len() as int));
            Some(path)
        } else {
            None
        },
        None => None,
    }
}

/// How a stored file is referred to.
pub open spec fn file_reference(path: Seq<char>) -> Seq<char> {
    "See: "@ + path
}

/// One more line behind an indent. The first line that leaves a mark starts
/// the text.
pub open spec fn with_line(out: Seq<char>, indent: Seq<char>, line: Seq<char>) -> Seq<char> {
    (if out.len() > 0 {
        out + "\n"@
    } else {
        out
    }) + indent + line
}

/// Lines put behind a text, each behind the indent.
pub open spec fn with_lines(out: Seq<char>, indent: Seq<char>, all: Seq<Seq<char>>) -> Seq<char>
    decreases all.len(),
{
    if all.len() == 0 {
        out
    } else {
        with_line(with_lines(out, indent, all.drop_last()), indent, all.last())
    }
}

/// The last `max_lines` lines of a text, indented, behind a count of those
/// left out.
pub open spec fn tail(text: Seq<char>, max_lines: nat, indent: Seq<char>) -> Seq<char> {
    let all = lines(text);
    if all.len() > max_lines {
        let omitted = (all.len() - max_lines) as nat;
        with_lines(
            indent + "("@ + decimal(omitted) + " lines omitted)"@,
            indent,
            all.skip(omitted as int),
        )
    } else {
        with_lines(Seq::empty(), indent, all)
    }
}

pub fn tail_lines(text: &str, max_lines: usize, indent: &str) -> (out: String)
    ensures
        out@ == tail(text@, max_lines as nat, indent@),
{
    let all = lines_of(text);
    let total: usize = all.len();
    let omitted: usize = if total > max_lines {
        total - max_lines
    } else {
        0
    };
    let mut out = String::new();
    if omitted > 0 {
        out.append(indent);
        out.append("(");
        out.append(decimal_string(omitted as u64).as_str());
        out.append(" lines omitted)");
        assert(out@ =~= indent@ + "("@ + decimal(omitted as nat) + " lines omitted)"@);
    } else {
        assert(out@ =~= Seq::empty());
    }
    let ghost lead = out@;
    let ghost kept = all.deep_view().skip(omitted as int);
    assert(omitted == 0 ==> kept =~= all.deep_view());
    let mut i: usize = omitted;
    assert(kept.take(0) =~= Seq::empty());
    while i < all.len()
        invariant
            omitted <= i <= all@.len(),
            kept == all.deep_view().skip(omitted as int),
            out@ == with_lines(lead, indent@, kept.take(i - omitted)),
        decreases all@.len() - i,
    {
        assert(kept.take(i - omitted + 1).drop_last() =~= kept.take(i - omitted));
        assert(kept[i - omitted] == all@[i as int]@);
        if !out.as_str().is_empty() {
            out.append("\n");
        }
        out.append(indent);
        out.append(all[i].as_str());
        i += 1;
    }
    assert(kept.take(i - omitted) =~= kept);
    out
}

/// The context keys that a stage's own lines show.
pub open spec fn rendered_keys(node_id: Seq<char>, outcome: OutcomeView) -> Set<Seq<char>> {
    Set::new(
        |k: Seq<char>|
            outcome.context_updates.contains_key(k) && (k == COMMAND_OUTPUT@ || k == LAST_STAGE@ || k
                == LAST_RESPONSE@ || k == RESPONSE_PREFIX@ + node_id),
    )
}

fn insert_if_updated(seen: &mut TextSet, key: String, outcome: &Outcome)
    ensures
        final(seen)@ == if outcome@.context_updates.contains_key(key@) {
            old(seen)@.insert(key@)
        } else {
            old(seen)@
        },
{
    if outcome.context_updates.contains_key(key.as_str()) {
        seen.insert(key);
    }
}

/// Adds the context keys that a stage's own lines show.
pub fn stage_rendered_keys(seen: &mut TextSet, node_id: &str, outcome: &Outcome)
    ensures
        final(seen)@ == old(seen)@.union(rendered_keys(node_id@, outcome@)),
{
    let ghost start = seen@;
    insert_if_updated(seen, COMMAND_OUTPUT.to_owned(), outcome);
    insert_if_updated(seen, LAST_STAGE.to_owned(), outcome);
    insert_if_updated(seen, LAST_RESPONSE.to_owned(), outcome);
    insert_if_updated(seen, response_key(node_id), outcome);
    assert(seen@ =~= start.union(rendered_keys(node_id@, outcome@)));
}

/// The handler type of a node that may be missing.
pub open spec fn handler_of(node: Option<NodeView>) -> Option<Seq<char>> {
    match node {
        Some(n) => n.handler_type(),
        None => None,
    }
}

pub fn handler_type_of<'a>(node: Option<&'a Node>) -> (r: Option<&'a str>)
    ensures
        r.deep_view() == handler_of(node.deep_view()),
{
    match node {
        Some(n) => n.handler_type(),
        None => None,
    }
}

fn is_command(handler: Option<&str>) -> (r: bool)
    ensures
        r == (handler.deep_view() == Some("command"@)),
{
    match handler {
        Some(h) => same(h, "command"),
        None => false,
    }
}

/// The line for the script of a node, where it has one.
pub open spec fn script_lines(lead: Seq<char>, node: Option<NodeView>) -> Seq<Seq<char>> {
    match node {
        Some(n) => match n.text("script"@) {
            Some(script) => seq![lead + "Script: `"@ + script + "`"@],
            None => Seq::empty(),
        },
        None => Seq::empty(),
    }
}

/// The lines for the output of a command.
pub open spec fn output_lines(
    lead: Seq<char>,
    output: Seq<char>,
    max_lines: nat,
    indent: Seq<char>,
) -> Seq<Seq<char>> {
    if trim(output).len() == 0 {
        seq![lead + "Output: (empty)"@]
    } else {
        seq![
            lead + "Output:"@,
            indent + "```"@,
            tail(trim(output), max_lines, indent),
            indent + "```"@,
        ]
    }
}

/// The line for the model of a stage, where one was used.
pub open spec fn model_lines(lead: Seq<char>, outcome: OutcomeView) -> Seq<Seq<char>> {
    match outcome.usage {
        Some(usage) => seq![lead + "Model: "@ + usage.model_id],
        None => Seq::empty(),
    }
}

/// The line for the files of a stage, where it touched some.
pub open spec fn file_lines(lead: Seq<char>, outcome: OutcomeView) -> Seq<Seq<char>> {
    if outcome.files_touched.len() > 0 {
        seq![lead + join(outcome.files_touched, ", "@)]
    } else {
        Seq::empty()
    }
}

/// The lines under a stage in a compact list.
pub open spec fn compact_details(node: Option<NodeView>, outcome: OutcomeView) -> Seq<Seq<char>> {
    let handler = handler_of(node);
    if handler == Some("command"@) {
        script_lines("  - "@, node) + if outcome.context_updates.contains_key(COMMAND_OUTPUT@) {
            output_lines(
                "  - "@,
                value_text(outcome.context_updates[COMMAND_OUTPUT@]),
                COMPACT_OUTPUT_MAX_LINES as nat,
                "    "@,
            )
        } else {
            Seq::empty()
        }
    } else if is_llm(handler) {
        model_lines("  - "@, outcome) + file_lines("  - Files: "@, outcome)
    } else {
        Seq::empty()
    }
}

/// `lead` and `text` as one more part.
pub fn add_pair(parts: &mut Vec<String>, lead: &str, text: &str)
    ensures
        final(parts).deep_view() == old(parts).deep_view().push(lead@ + text@),
{
    push_text(parts, concat(lead, text));
}

fn push_script(parts: &mut Vec<String>, lead: &str, node: Option<&Node>)
    ensures
        final(parts).deep_view() == old(parts).deep_view() + script_lines(lead@, node.deep_view()),
{
    let ghost start = parts.deep_view();
    if let Some(n) = node {
        if let Some(script) = n.text("script") {
            let mut s = concat(lead, "Script: `");
            s.append(script);
            s.append("`");
            push_text(parts, s);
        }
    }
    assert(parts.deep_view() =~= start + script_lines(lead@, node.deep_view()));
}

fn push_output(parts: &mut Vec<String>, lead: &str, output: &str, max_lines: usize, indent: &str)
    ensures
        final(parts).deep_view() == old(parts).deep_view() + output_lines(
            lead@,
            output@,
            max_lines as nat,
            indent@,
        ),
{
    let ghost start = parts.deep_view();
    let body = trimmed(output);
    if body.as_str().is_empty() {
        add_pair(parts, lead, "Output: (empty)");
    } else {
        add_pair(parts, lead, "Output:");
        add_pair(parts, indent, "```");
        push_text(parts, tail_lines(body.as_str(), max_lines, indent));
        add_pair(parts, indent, "```");
    }
    assert(parts.deep_view() =~= start + output_lines(lead@, output@, max_lines as nat, indent@));
}

fn push_model(parts: &mut Vec<String>, lead: &str, outcome: &Outcome)
    ensures
        final(parts).deep_view() == old(parts).deep_view() + model_lines(lead@, outcome@),
{
    let ghost start = parts.deep_view();
    if let Some(usage) = &outcome.usage {
        let mut s = concat(lead, "Model: ");
        s.append(usage.model_id.as_str());
        push_text(parts, s);
    }
    assert(parts.deep_view() =~= start + model_lines(lead@, outcome@));
}

fn push_files(parts: &mut Vec<String>, lead: &str, outcome: &Outcome)
    ensures
        final(parts).deep_view() == old(parts).deep_view() + file_lines(lead@, outcome@),
{
    let ghost start = parts.deep_view();
    if outcome.files_touched.len() > 0 {
        add_pair(parts, lead, joined(&outcome.files_touched, ", ").as_str());
    }
    assert(parts.deep_view() =~= start + file_lines(lead@, outcome@));
}

/// Adds the lines under a stage in a compact list.
pub fn render_compact_stage_details(parts: &mut Vec<String>, node: Option<&Node>, outcome: &Outcome)
    ensures
        final(parts).deep_view() == old(parts).deep_view() + compact_details(
            node.deep_view(),
            outcome@,
        ),
{
    let ghost start = parts.deep_view();
    let handler = handler_type_of(node);
    if is_command(handler) {
        push_script(parts, "  - ", node);
        if let Some(value) = outcome.context_updates.get(COMMAND_OUTPUT) {
            push_output(
                parts,
                "  - ",
                format_value(value).as_str(),
                COMPACT_OUTPUT_MAX_LINES,
                "    ",
            );
        }
    } else if is_llm_handler_type(handler) {
        push_model(parts, "  - ", outcome);
        push_files(parts, "  - Files: ", outcome);
    }
    assert(parts.deep_view() =~= start + compact_details(node.deep_view(), outcome@));
}

/// Lines as a block quote.
pub open spec fn quoted(all: Seq<Seq<char>>) -> Seq<Seq<char>> {
    all.map_values(|line: Seq<char>| "  > "@ + line)
}

/// The lines for the output of a command in a detailed section.
pub open spec fn high_output(updates: Map<Seq<char>, JsonView>) -> Seq<Seq<char>> {
    if updates.contains_key(COMMAND_OUTPUT@) {
        let v = updates[COMMAND_OUTPUT@];
        match file_path(v) {
            Some(path) => seq!["- Output: "@ + file_reference(path)],
            None => output_lines("- "@, value_text(v), SUMMARY_HIGH_OUTPUT_MAX_LINES as nat, "  "@),
        }
    } else {
        Seq::empty()
    }
}

/// The lines for the response of a stage in a detailed section.
pub open spec fn high_response(node_id: Seq<char>, updates: Map<Seq<char>, JsonView>) -> Seq<
    Seq<char>,
> {
    if updates.contains_key(RESPONSE_PREFIX@ + node_id) {
        let v = updates[RESPONSE_PREFIX@ + node_id];
        match file_path(v) {
            Some(path) => seq!["- Response: "@ + file_reference(path)],
            None => if value_text(v).len() > 0 {
                seq!["- Response:"@] + quoted(lines(value_text(v)))
            } else {
                Seq::empty()
            },
        }
    } else {
        Seq::empty()
    }
}

/// A line behind a lead, where there is one.
pub open spec fn optional_line(lead: Seq<char>, text: Option<Seq<char>>) -> Seq<Seq<char>> {
    match text {
        Some(t) => seq![lead + t],
        None => Seq::empty(),
    }
}

/// The section of a stage in a detailed report.
pub open spec fn high_section(
    node_id: Seq<char>,
    node: Option<NodeView>,
    outcome: OutcomeView,
) -> Seq<Seq<char>> {
    let handler = handler_of(node);
    seq!["\n## Stage: "@ + node_id, "- Status: "@ + outcome.status.name()] + optional_line(
        "- Handler: "@,
        handler,
    ) + if handler == Some("command"@) {
        script_lines("- "@, node) + high_output(outcome.context_updates)
    } else if is_llm(handler) {
        model_lines("- "@, outcome) + file_lines("- Files touched: "@, outcome) + high_response(
            node_id,
            outcome.context_updates,
        )
    } else {
        optional_line("- Notes: "@, outcome.notes) + optional_line(
            "- Failure reason: "@,
            outcome.failure_reason(),
        )
    }
}

fn push_optional(parts: &mut Vec<String>, lead: &str, text: Option<&str>)
    ensures
        final(parts).deep_view() == old(parts).deep_view() + optional_line(
            lead@,
            text.deep_view(),
        ),
{
    let ghost start = parts.deep_view();
    if let Some(t) = text {
        add_pair(parts, lead, t);
    }
    assert(parts.deep_view() =~= start + optional_line(lead@, text.deep_view()));
}

fn push_high_output(parts: &mut Vec<String>, outcome: &Outcome)
    ensures
        final(parts).deep_view() == old(parts).deep_view() + high_output(outcome@.context_updates),
{
    let ghost start = parts.deep_view();
    if let Some(value) = outcome.context_updates.get(COMMAND_OUTPUT) {
        match artifact_path(value) {
            Some(path) => {
                let mut s = "- Output: ".to_owned();
                s.append(concat("See: ", path.as_str()).as_str());
                push_text(parts, s);
            },
            None => {
                push_output(
                    parts,
                    "- ",
                    format_value(value).as_str(),
                    SUMMARY_HIGH_OUTPUT_MAX_LINES,
                    "  ",
                );
            },
        }
    }
    assert(parts.deep_view() =~= start + high_output(outcome@.context_updates));
}

fn push_high_response(parts: &mut Vec<String>, node_id: &str, outcome: &Outcome)
    ensures
        final(parts).deep_view() == old(parts).deep_view() + high_response(
            node_id@,
            outcome@.context_updates,
        ),
{
    let ghost start = parts.deep_view();
    if let Some(value) = outcome.context_updates.get(response_key(node_id).as_str()) {
        match artifact_path(value) {
            Some(path) => {
                let mut s = "- Response: ".to_owned();
                s.append(concat("See: ", path.as_str()).as_str());
                push_text(parts, s);
            },
            None => {
                let text = format_value(value);
                if !text.as_str().is_empty() {
                    push_text(parts, "- Response:".to_owned());
                    let all = lines_of(text.as_str());
                    let ghost model = quoted(all.deep_view());
                    let ghost lead = parts.deep_view();
                    let mut i: usize = 0;
                    assert(lead + model.take(0) =~= lead);
                    while i < all.len()
                        invariant
                            i <= all@.len(),
                            model == quoted(all.deep_view()),
                            parts.deep_view() == lead + model.take(i as int),
                        decreases all@.len() - i,
                    {
                        assert(all.deep_view()[i as int] == all@[i as int]@);
                        add_pair(parts, "  > ", all[i].as_str());
                        i += 1;
                        assert(parts.deep_view() =~= lead + model.take(i as int));
                    }
                    assert(model.take(i as int) =~= model);
                }
            },
        }
    }
    assert(parts.deep_view() =~= start + high_response(node_id@, outcome@.context_updates));
}

/// Adds the section of a stage in a detailed report.
pub fn render_summary_high_stage_section(
    parts: &mut Vec<String>,
    node_id: &str,
    node: Option<&Node>,
    outcome: &Outcome,
)
    ensures
        final(parts).deep_view() == old(parts).deep_view() + high_section(
            node_id@,
            node.deep_view(),
            outcome@,
        ),
{
    let ghost start = parts.deep_view();
    let handler = handler_type_of(node);
    add_pair(parts, "\n## Stage: ", node_id);
    add_pair(parts, "- Status: ", outcome.status.as_str());
    push_optional(parts, "- Handler: ", handler);
    if is_command(handler) {
        push_script(parts, "- ", node);
        push_high_output(parts, outcome);
    } else if is_llm_handler_type(handler) {
        push_model(parts, "- ", outcome);
        push_files(parts, "- Files touched: ", outcome);
        push_high_response(parts, node_id, outcome);
    } else {
        match &outcome.notes {
            Some(notes) => push_optional(parts, "- Notes: ", Some(notes.as_str())),
            None => push_optional(parts, "- Notes: ", None),
        }
        push_optional(parts, "- Failure reason: ", outcome.failure_reason());
    }
    assert(parts.deep_view() =~= start + high_section(node_id@, node.deep_view(), outcome@));
}

/// The line of a stage in a list of recent ones.
pub open spec fn recent_line(node_id: Seq<char>, outcome: OutcomeView) -> Seq<char> {
    "- "@ + node_id + ": "@ + outcome.status.name() + (match outcome.notes {
        Some(notes) => " ("@ + notes + ")"@,
        None => Seq::empty(),
    }) + match outcome.failure_reason() {
        Some(reason) => " [reason: "@ + reason + "]"@,
        None => Seq::empty(),
    }
}

pub fn recent_stage_line(node_id: &str, outcome: &Outcome) -> (r: String)
    ensures
        r@ == recent_line(node_id@, outcome@),
{
    let mut line = concat("- ", node_id);
    line.append(": ");
    line.append(outcome.status.as_str());
    let ghost base = line@;
    if let Some(notes) = &outcome.notes {
        line.append(" (");
        line.append(notes.as_str());
        line.append(")");
        assert(line@ =~= base + (" ("@ + notes@ + ")"@));
    } else {
        assert(line@ =~= base + Seq::empty());
    }
    let ghost noted = line@;
    if let Some(reason) = outcome.failure_reason() {
        line.append(" [reason: ");
        line.append(reason);
        line.append("]");
        assert(line@ =~= noted + (" [reason: "@ + reason@ + "]"@));
    } else {
        assert(line@ =~= noted + Seq::empty());
    }
    line
}

/// The lines under a stage in a brief list.
pub open spec fn brief_details(node: Option<NodeView>, outcome: OutcomeView) -> Seq<Seq<char>> {
    let handler = handler_of(node);
    optional_line("  - Handler: "@, handler) + if handler == Some("command"@) {
        script_lines("  - "@, node)
    } else if is_llm(handler) {
        model_lines("  - "@, outcome)
    } else {
        Seq::empty()
    }
}

/// Adds the lines under a stage in a brief list.
pub fn render_brief_stage_details(parts: &mut Vec<String>, node: Option<&Node>, outcome: &Outcome)
    ensures
        final(parts).deep_view() == old(parts).deep_view() + brief_details(
            node.deep_view(),
            outcome@,
        ),
{
    let ghost start = parts.deep_view();
    let handler = handler_type_of(node);
    push_optional(parts, "  - Handler: ", handler);
    if is_command(handler) {
        push_script(parts, "  - ", node);
    } else if is_llm_handler_type(handler) {
        push_model(parts, "  - ", outcome);
    }
    assert(parts.deep_view() =~= start + brief_details(node.deep_view(), outcome@));
}

/// Whether a block holds the last `max_lines` of some lines, each behind an
/// indent and in their order, behind a count of those that it leaves out.
pub open spec fn holds_last_lines(
    block: Seq<char>,
    all: Seq<Seq<char>>,
    max_lines: nat,
    indent: Seq<char>,
) -> bool {
    exists|rows: Seq<Seq<char>>| #[trigger]
        join(rows, "\n"@) == block && {
            let left_out = if all.len() > max_lines {
                all.len() - max_lines
            } else {
                0
            };
            let lead: int = if left_out > 0 {
                1
            } else {
                0
            };
            &&& rows.len() == lead + all.len() - left_out
            &&& left_out > 0 ==> rows[0] == indent + "("@ + decimal(left_out as nat)
                + " lines omitted)"@
            &&& forall|i: int|
                left_out <= i < all.len() ==> rows[lead + i - left_out] == indent + #[trigger] all[i]
        }
}

proof fn lemma_with_lines_join(out: Seq<char>, indent: Seq<char>, all: Seq<Seq<char>>)
    requires
        indent.len() > 0,
    ensures
        ({
            let rows = all.map_values(|line: Seq<char>| indent + line);
            with_lines(out, indent, all) == if out.len() > 0 {
                join(seq![out] + rows, "\n"@)
            } else {
                out + join(rows, "\n"@)
            }
        }),
        all.len() > 0 ==> with_lines(out, indent, all).len() > 0,
    decreases all.len(),
{
    let rows = all.map_values(|line: Seq<char>| indent + line);
    let full = seq![out] + rows;
    if all.len() == 0 {
        assert(full =~= seq![out]);
        assert(out + join(rows, "\n"@) =~= out);
    } else {
        let fewer = all.drop_last();
        let before = fewer.map_values(|line: Seq<char>| indent + line);
        lemma_with_lines_join(out, indent, fewer);
        assert(rows.drop_last() =~= before);
        assert(rows.last() == indent + all.last());
        assert(full.drop_last() =~= seq![out] + before);
        let had = with_lines(out, indent, fewer);
        if out.len() > 0 {
            if fewer.len() == 0 {
                assert(had == out);
            }
            assert(had.len() > 0);
            assert(with_lines(out, indent, all) =~= join(full, "\n"@));
        } else if fewer.len() == 0 {
            assert(with_lines(out, indent, all) =~= out + join(rows, "\n"@));
        } else {
            assert(with_lines(out, indent, all) =~= out + join(rows, "\n"@));
        }
    }
}

/// A shortened text holds its last lines, every one of them.
pub proof fn lemma_last_lines_are_kept(text: Seq<char>, max_lines: nat, indent: Seq<char>)
    requires
        indent.len() > 0,
    ensures
        holds_last_lines(tail(text, max_lines, indent), lines(text), max_lines, indent),
{
    let all = lines(text);
    if all.len() > max_lines {
        let omitted = (all.len() - max_lines) as nat;
        let kept = all.skip(omitted as int);
        let note = indent + "("@ + decimal(omitted) + " lines omitted)"@;
        lemma_with_lines_join(note, indent, kept);
        let rows = seq![note] + kept.map_values(|line: Seq<char>| indent + line);
        assert(note.len() > 0);
        assert(join(rows, "\n"@) == tail(text, max_lines, indent));
        assert forall|i: int| omitted <= i < all.len() implies rows[1 + i - omitted] == indent
            + #[trigger] all[i] by {
            assert(kept[i - omitted] == all[i]);
        }
    } else {
        lemma_with_lines_join(Seq::empty(), indent, all);
        let rows = all.map_values(|line: Seq<char>| indent + line);
        assert(Seq::<char>::empty() + join(rows, "\n"@) =~= join(rows, "\n"@));
        assert(join(rows, "\n"@) == tail(text, max_lines, indent));
    }
}

/// Whether lines show the output of a command between fences, at a place among
/// them: the last `max_lines` of it.
pub open spec fn shows_output(
    told: Seq<Seq<char>>,
    at: int,
    lead: Seq<char>,
    indent: Seq<char>,
    output: Seq<char>,
    max_lines: nat,
) -> bool {
    &&& 0 <= at < told.len() - 3
    &&& told[at] == lead + "Output:"@
    &&& told[at + 1] == indent + "```"@
    &&& holds_last_lines(told[at + 2], lines(trim(output)), max_lines, indent)
    &&& told[at + 3] == indent + "```"@
}

/// A compact account of a command stage shows the command's script and the last
/// lines of its output, twenty-five at most, whether or not the command went
/// well. Blank output is said to be empty, and only output that the stage did not
/// set is passed over.
pub proof fn lemma_compact_details_show_the_output(node: NodeView, outcome: OutcomeView)
    requires
        node.handler_type() == Some("command"@),
    ensures
        ({
            let told = compact_details(Some(node), outcome);
            let first: int = if node.text("script"@) is Some {
                1
            } else {
                0
            };
            &&& node.text("script"@) matches Some(script) ==> told.len() > 0 && told[0]
                == "  - Script: `"@ + script + "`"@
            &&& if outcome.context_updates.contains_key("command.output"@) {
                let output = match outcome.context_updates["command.output"@] {
                    JsonView::Str(s) => s,
                    v => compact(v),
                };
                if trim(output).len() > 0 {
                    &&& told.len() == first + 4
                    &&& shows_output(told, first, "  - "@, "    "@, output, 25)
                } else {
                    &&& told.len() == first + 1
                    &&& told[first] == "  - Output: (empty)"@
                }
            } else {
                told.len() == first
            }
        }),
{
    reveal_strlit("  - ");
    reveal_strlit("    ");
    reveal_strlit("Script: `");
    reveal_strlit("  - Script: `");
    reveal_strlit("Output: (empty)");
    reveal_strlit("  - Output: (empty)");
    assert("  - "@ + "Script: `"@ =~= "  - Script: `"@);
    assert("  - "@ + "Output: (empty)"@ =~= "  - Output: (empty)"@);
    if outcome.context_updates.contains_key("command.output"@) {
        let output = value_text(outcome.context_updates["command.output"@]);
        lemma_last_lines_are_kept(trim(output), 25, "    "@);
    }
}

/// A detailed section of a command stage shows the script and the last lines of
/// the output, fifty at most, whether or not the command went well; where the
/// output is stored in a file it says where.
pub proof fn lemma_section_shows_the_output(id: Seq<char>, node: NodeView, outcome: OutcomeView)
    requires
        node.handler_type() == Some("command"@),
        outcome.context_updates.contains_key("command.output"@),
    ensures
        ({
            let told = high_section(id, Some(node), outcome);
            let first: int = if node.text("script"@) is Some {
                4
            } else {
                3
            };
            let v = outcome.context_updates["command.output"@];
            let output = match v {
                JsonView::Str(s) => s,
                _ => compact(v),
            };
            &&& told.len() > 2 && told[0] == "\n## Stage: "@ + id
            &&& told[1] == "- Status: "@ + outcome.status.name()
            &&& told[2] == "- Handler: command"@
            &&& node.text("script"@) matches Some(script) ==> told.len() > 3 && told[3]
                == "- Script: `"@ + script + "`"@
            &&& if v matches JsonView::Str(s) && "file://"@.is_prefix_of(s) {
                &&& told.len() == first + 1
                &&& v matches JsonView::Str(s) && told[first] == "- Output: "@ + ("See: "@
                    + s.skip(7))
            } else if trim(output).len() > 0 {
                &&& told.len() == first + 4
                &&& shows_output(told, first, "- "@, "  "@, output, 50)
            } else {
                &&& told.len() == first + 1
                &&& told[first] == "- Output: (empty)"@
            }
        }),
{
    reveal_strlit("- ");
    reveal_strlit("  ");
    reveal_strlit("file://");
    reveal_strlit("Script: `");
    reveal_strlit("- Script: `");
    reveal_strlit("- Handler: ");
    reveal_strlit("command");
    reveal_strlit("- Handler: command");
    reveal_strlit("Output: (empty)");
    reveal_strlit("- Output: (empty)");
    assert("- "@ + "Script: `"@ =~= "- Script: `"@);
    assert("- "@ + "Output: (empty)"@ =~= "- Output: (empty)"@);
    assert("- Handler: "@ + "command"@ =~= "- Handler: command"@);
    let output = value_text(outcome.context_updates["command.output"@]);
    lemma_last_lines_are_kept(trim(output), 50, "  "@);
}

/// The account of a stage of a model names the model that was used and the files
/// that it touched, in each form, and its detailed section quotes the response
/// line by line.
pub proof fn lemma_model_stages_tell_model_and_files(
    id: Seq<char>,
    node: NodeView,
    outcome: OutcomeView,
)
    requires
        node.handler_type() == Some("agent"@) || node.handler_type() == Some("prompt"@),
    ensures
        outcome.usage matches Some(usage) ==> {
            &&& compact_details(Some(node), outcome).contains("  - Model: "@ + usage.model_id)
            &&& brief_details(Some(node), outcome).contains("  - Model: "@ + usage.model_id)
            &&& high_section(id, Some(node), outcome).contains("- Model: "@ + usage.model_id)
        },
        outcome.files_touched.len() > 0 ==> {
            &&& compact_details(Some(node), outcome).contains(
                "  - Files: "@ + join(outcome.files_touched, ", "@),
            )
            &&& high_section(id, Some(node), outcome).contains(
                "- Files touched: "@ + join(outcome.files_touched, ", "@),
            )
        },
        outcome.context_updates.contains_key("response."@ + id) ==> (
        outcome.context_updates["response."@ + id] matches JsonView::Str(s) ==> {
            &&& "file://"@.is_prefix_of(s) ==> high_section(id, Some(node), outcome).contains(
                "- Response: "@ + ("See: "@ + s.skip(7)),
            )
            &&& !"file://"@.is_prefix_of(s) ==> forall|i: int|
                0 <= i < lines(s).len() ==> high_section(id, Some(node), outcome).contains(
                    "  > "@ + #[trigger] lines(s)[i],
                )
        }),
{
    reveal_strlit("command");
    reveal_strlit("agent");
    reveal_strlit("prompt");
    reveal_strlit("file://");
    reveal_strlit("  - ");
    reveal_strlit("- ");
    reveal_strlit("Model: ");
    reveal_strlit("  - Model: ");
    reveal_strlit("- Model: ");
    assert("command"@.len() == 7);
    assert("agent"@.len() == 5);
    assert("prompt"@.len() == 6);
    let compact_lines = compact_details(Some(node), outcome);
    let brief_lines = brief_details(Some(node), outcome);
    let section = high_section(id, Some(node), outcome);
    if let Some(usage) = outcome.usage {
        assert("  - "@ + "Model: "@ =~= "  - Model: "@);
        assert("- "@ + "Model: "@ =~= "- Model: "@);
        assert(compact_lines[0] == "  - Model: "@ + usage.model_id);
        assert(brief_lines[1] == "  - Model: "@ + usage.model_id);
        assert(section[3] == "- Model: "@ + usage.model_id);
    }
    let models: int = if outcome.usage is Some {
        1
    } else {
        0
    };
    let files: int = if outcome.files_touched.len() > 0 {
        1
    } else {
        0
    };
    if outcome.files_touched.len() > 0 {
        assert(compact_lines[models] == "  - Files: "@ + join(outcome.files_touched, ", "@));
        assert(section[3 + models] == "- Files touched: "@ + join(outcome.files_touched, ", "@));
    }
    if outcome.context_updates.contains_key("response."@ + id) {
        if let JsonView::Str(s) = outcome.context_updates["response."@ + id] {
            if "file://"@.is_prefix_of(s) {
                assert(section[3 + models + files] == "- Response: "@ + ("See: "@ + s.skip(7)));
            } else {
                assert forall|i: int| 0 <= i < lines(s).len() implies section.contains(
                    "  > "@ + #[trigger] lines(s)[i],
                ) by {
                    assert(quoted(lines(s))[i] == "  > "@ + lines(s)[i]);
                    assert(section[3 + models + files + 1 + i] == "  > "@ + lines(s)[i]);
                }
            }
        }
    }
}

/// The line of a stage in a list of recent ones names the stage and its status,
/// its notes where it has some, and the reason where it failed with one.
pub proof fn lemma_recent_lines_tell_how_a_stage_ended(id: Seq<char>, outcome: OutcomeView)
    ensures
        ({
            let line = recent_line(id, outcome);
            let head = "- "@ + id + ": "@ + outcome.status.name();
            &&& head.is_prefix_of(line)
            &&& outcome.notes matches Some(notes) ==> within(" ("@ + notes + ")"@, line)
            &&& outcome.failure matches Some(f) ==> within(" [reason: "@ + f.message + "]"@, line)
            &&& outcome.notes is None && outcome.failure is None ==> line == head
        }),
{
    let line = recent_line(id, outcome);
    let head = "- "@ + id + ": "@ + outcome.status.name();
    let noted = match outcome.notes {
        Some(notes) => " ("@ + notes + ")"@,
        None => Seq::empty(),
    };
    let reasoned = match outcome.failure_reason() {
        Some(reason) => " [reason: "@ + reason + "]"@,
        None => Seq::empty(),
    };
    assert(line =~= head + noted + reasoned);
    assert(line =~= (head + noted) + reasoned + Seq::<char>::empty());
    assert(outcome.notes is None && outcome.failure is None ==> line =~= head);
}

/// A stage that neither ran a command nor called a model has no lines of its own; one
/// that called a model has none of a script or an output.
pub proof fn lemma_other_stages_have_no_details(node: NodeView, outcome: OutcomeView, other: OutcomeView)
    requires
        node.handler_type() != Some("command"@),
    ensures
        !is_llm(node.handler_type()) ==> compact_details(Some(node), outcome).len() == 0,
        outcome.usage == other.usage && outcome.files_touched == other.files_touched
            ==> compact_details(Some(node), outcome) == compact_details(Some(node), other),
        outcome.usage is None && outcome.files_touched.len() == 0 ==> compact_details(
            Some(node),
            outcome,
        ).len() == 0,
{
}

/// A text is shown as it is and any other value as it renders; only an empty text is
/// blank. A file is named by what stands behind its scheme, and by nothing else.
pub proof fn lemma_values_are_shown_as_they_read(s: Seq<char>, v: JsonView)
    ensures
        value_text(JsonView::Str(s)) == s,
        !(v is Str) ==> value_text(v) == compact(v),
        blank(v) <==> v is Str && value_text(v).len() == 0,
        file_path(JsonView::Str("file://"@ + s)) == Some(s),
        file_path(v) matches Some(p) ==> v == JsonView::Str("file://"@ + p),
{
    let named = "file://"@ + s;
    let n = "file://"@.len() as int;
    assert(named.take(n) =~= "file://"@);
    assert(named.skip(n) =~= s);
    assert("file://"@.is_prefix_of(named));
    if let JsonView::Str(t) = v {
        if "file://"@.is_prefix_of(t) {
            assert(t =~= "file://"@ + t.skip(n));
        }
    }
}

} // verus!
