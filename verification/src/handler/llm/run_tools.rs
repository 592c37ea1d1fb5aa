//! The tools with which an agent works on other runs.
use crate::json::{pretty, Json};
use crate::keys::concat;
use crate::order::{push_text, texts_contain};
use crate::text::{same, trim, trimmed};
use vstd::prelude::*;
use vstd::string::*;

verus! {

pub const FABRO_RUN_CREATE_TOOL_NAME: &'static str = "fabro_run_create";

pub const FABRO_RUN_SEARCH_TOOL_NAME: &'static str = "fabro_run_search";

pub const FABRO_RUN_GET_TOOL_NAME: &'static str = "fabro_run_get";

pub const FABRO_RUN_INTERACT_TOOL_NAME: &'static str = "fabro_run_interact";

pub const FABRO_RUN_GATHER_TOOL_NAME: &'static str = "fabro_run_gather";

pub const FABRO_RUN_EVENTS_TOOL_NAME: &'static str = "fabro_run_events";

pub const FABRO_RUN_PAIR_TOOL_NAME: &'static str = "fabro_run_pair";

/// A tool that works on runs.
#[derive(Clone, Copy, Debug, PartialEq, Eq, Structural)]
pub enum RunTool {
    Create,
    Search,
    Get,
    Interact,
    Gather,
    Events,
    Pair,
}

/// The tool of a name.
pub open spec fn tool_named(name: Seq<char>) -> Option<RunTool> {
    if name == FABRO_RUN_CREATE_TOOL_NAME@ {
        Some(RunTool::Create)
    } else if name == FABRO_RUN_SEARCH_TOOL_NAME@ {
        Some(RunTool::Search)
    } else if name == FABRO_RUN_GET_TOOL_NAME@ {
        Some(RunTool::Get)
    } else if name == FABRO_RUN_INTERACT_TOOL_NAME@ {
        Some(RunTool::Interact)
    } else if name == FABRO_RUN_GATHER_TOOL_NAME@ {
        Some(RunTool::Gather)
    } else if name == FABRO_RUN_EVENTS_TOOL_NAME@ {
        Some(RunTool::Events)
    } else if name == FABRO_RUN_PAIR_TOOL_NAME@ {
        Some(RunTool::Pair)
    } else {
        None
    }
}

/// The tool that a call is for.
pub fn execute_fabro_run_tool(name: &str) -> (r: Result<RunTool, String>)
    ensures
        match tool_named(name@) {
            Some(tool) => r == Ok::<RunTool, String>(tool),
            None => r matches Err(m) && m@ == "unknown Fabro run tool `"@ + name@ + "`"@,
        },
{
    if same(name, FABRO_RUN_CREATE_TOOL_NAME) {
        Ok(RunTool::Create)
    } else if same(name, FABRO_RUN_SEARCH_TOOL_NAME) {
        Ok(RunTool::Search)
    } else if same(name, FABRO_RUN_GET_TOOL_NAME) {
        Ok(RunTool::Get)
    } else if same(name, FABRO_RUN_INTERACT_TOOL_NAME) {
        Ok(RunTool::Interact)
    } else if same(name, FABRO_RUN_GATHER_TOOL_NAME) {
        Ok(RunTool::Gather)
    } else if same(name, FABRO_RUN_EVENTS_TOOL_NAME) {
        Ok(RunTool::Events)
    } else if same(name, FABRO_RUN_PAIR_TOOL_NAME) {
        Ok(RunTool::Pair)
    } else {
        let mut s = concat("unknown Fabro run tool `", name);
        s.append("`");
        Err(s)
    }
}

/// The message for arguments that a tool cannot read.
pub fn invalid_arguments(name: &str, problem: &str) -> (r: String)
    ensures
        r@ == "invalid "@ + name@ + " arguments: "@ + problem@,
{
    let mut s = concat("invalid ", name);
    s.append(" arguments: ");
    s.append(problem);
    s
}

/// Why an agent is refused what only a user may do.
pub const USER_ONLY: &'static str = "Run approval must be performed by a user through the API, CLI, web UI, or human MCP server.";

/// Refuses what only a user may do.
pub fn check_interaction(requires_user: bool) -> (r: Result<(), String>)
    ensures
        if requires_user {
            r matches Err(m) && m@ == USER_ONLY@
        } else {
            r == Ok::<(), String>(())
        },
{
    if requires_user {
        Err(USER_ONLY.to_owned())
    } else {
        Ok(())
    }
}

/// Why a parent is refused for a new run, where it is.
pub open spec fn parent_refusal(parent: Option<Seq<char>>, current: Seq<char>) -> Option<Seq<char>> {
    match parent {
        None => None,
        Some(p) => if trim(p).len() == 0 {
            Some(
                "parent_id must be omitted or match the current run; blank parent_id is invalid"@,
            )
        } else if trim(p) == current {
            None
        } else {
            Some(
                "parent_id must be omitted or match the current run "@ + current + "; got "@ + trim(p),
            )
        },
    }
}

/// Why the first refused parent of new runs is refused.
pub open spec fn parents_refusal(parents: Seq<Option<Seq<char>>>, current: Seq<char>) -> Option<
    Seq<char>,
>
    decreases parents.len(),
{
    if parents.len() == 0 {
        None
    } else {
        match parents_refusal(parents.drop_last(), current) {
            Some(m) => Some(m),
            None => parent_refusal(parents.last(), current),
        }
    }
}

/// Whether new runs may be made: their parent is the current run, or is not
/// given.
pub fn ensure_current_run_parent(parents: &Vec<Option<String>>, current_run_id: &str) -> (r: Result<
    (),
    String,
>)
    ensures
        match parents_refusal(parents.deep_view(), current_run_id@) {
            None => r == Ok::<(), String>(()),
            Some(reason) => r matches Err(m) && m@ == reason,
        },
{
    let ghost all = parents.deep_view();
    let mut i: usize = 0;
    assert(all.take(0) =~= Seq::empty());
    while i < parents.len()
        invariant
            i <= parents@.len(),
            all == parents.deep_view(),
            parents_refusal(all.take(i as int), current_run_id@) is None,
        decreases parents@.len() - i,
    {
        assert(all.take(i + 1).drop_last() =~= all.take(i as int));
        assert(all.take(i + 1).last() == parents@[i as int].deep_view());
        if let Some(raw) = &parents[i] {
            let parent = trimmed(raw.as_str());
            if parent.as_str().is_empty() {
                proof {
                    lemma_refusal_stays(all, current_run_id@, i + 1);
                }
                return Err(
                    "parent_id must be omitted or match the current run; blank parent_id is invalid".to_owned(),
                );
            }
            if !same(parent.as_str(), current_run_id) {
                proof {
                    lemma_refusal_stays(all, current_run_id@, i + 1);
                }
                let mut s = concat(
                    "parent_id must be omitted or match the current run ",
                    current_run_id,
                );
                s.append("; got ");
                s.append(parent.as_str());
                return Err(s);
            }
        }
        i += 1;
    }
    assert(all.take(i as int) =~= all);
    Ok(())
}

proof fn lemma_refusal_stays(parents: Seq<Option<Seq<char>>>, current: Seq<char>, n: int)
    requires
        0 <= n <= parents.len(),
        parents_refusal(parents.take(n), current) is Some,
    ensures
        parents_refusal(parents, current) == parents_refusal(parents.take(n), current),
    decreases parents.len() - n,
{
    if n < parents.len() {
        assert(parents.take(n + 1).drop_last() =~= parents.take(n));
        lemma_refusal_stays(parents, current, n + 1);
    } else {
        assert(parents.take(n) =~= parents);
    }
}

/// What the validation of a tool's arguments found.
pub enum Validation {
    /// They are sound. `requires_user` where they ask for what only a user may
    /// do.
    Sound { requires_user: bool },
    /// What is wrong with them.
    Unsound(String),
}

pub enum ValidationView {
    Sound { requires_user: bool },
    Unsound(Seq<char>),
}

impl View for Validation {
    type V = ValidationView;

    open spec fn view(&self) -> ValidationView {
        match self {
            Validation::Sound { requires_user } => ValidationView::Sound {
                requires_user: *requires_user,
            },
            Validation::Unsound(problem) => ValidationView::Unsound(problem@),
        }
    }
}

/// Why a call of a tool is not made, where it is not: its arguments are unsound,
/// it asks for new runs under another run than the current one, or it is an
/// interaction that only a user may have. New runs are held to the current run
/// before their arguments are looked at any further.
pub open spec fn refusal(
    tool: RunTool,
    parents: Seq<Option<Seq<char>>>,
    validation: ValidationView,
    current: Seq<char>,
) -> Option<Seq<char>> {
    match tool {
        RunTool::Create if parents_refusal(parents, current) is Some => parents_refusal(
            parents,
            current,
        ),
        _ => match validation {
            ValidationView::Unsound(problem) => Some(problem),
            ValidationView::Sound { requires_user } => if tool == RunTool::Interact
                && requires_user {
                Some(USER_ONLY@)
            } else {
                None
            },
        },
    }
}

/// Lets a call of a tool pass, or refuses it.
pub fn allow_tool_call(
    tool: RunTool,
    parents: &Vec<Option<String>>,
    validation: Validation,
    current_run_id: &str,
) -> (r: Result<(), String>)
    ensures
        match refusal(tool, parents.deep_view(), validation@, current_run_id@) {
            None => r == Ok::<(), String>(()),
            Some(reason) => r matches Err(m) && m@ == reason,
        },
{
    if tool == RunTool::Create {
        if let Err(reason) = ensure_current_run_parent(parents, current_run_id) {
            return Err(reason);
        }
    }
    match validation {
        Validation::Unsound(problem) => Err(problem),
        Validation::Sound { requires_user } => if tool == RunTool::Interact {
            check_interaction(requires_user)
        } else {
            Ok(())
        },
    }
}

/// An agent approves no run: an interaction passes only where it is not one that
/// only a user may have, whatever else it says.
pub proof fn lemma_agents_do_not_approve(
    parents: Seq<Option<Seq<char>>>,
    validation: ValidationView,
    current: Seq<char>,
)
    ensures
        refusal(RunTool::Interact, parents, validation, current) is None <==> validation
            == (ValidationView::Sound { requires_user: false }),
{
}

/// The result of a tool: its summary, then its JSON form. `result` is the value
/// that the tool gave, or why it has none.
pub fn render_fabro_tool_result(summary: &str, result: &Result<Json, String>) -> (r: Result<
    String,
    String,
>)
    ensures
        match *result {
            Ok(value) => r matches Ok(text) && text@ == summary@ + "\n"@ + pretty(value@),
            Err(problem) => r matches Err(m) && m@ == "failed to serialize tool result: "@
                + problem@,
        },
{
    match result {
        Ok(value) => {
            let mut s = summary.to_owned();
            s.append("\n");
            s.append(value.render_pretty().as_str());
            Ok(s)
        },
        Err(problem) => Err(concat("failed to serialize tool result: ", problem.as_str())),
    }
}

/// The defined tools that are asked for, in the order of their definition.
pub open spec fn asked_for(defined: Seq<Seq<char>>, names: Seq<Seq<char>>) -> Seq<Seq<char>> {
    defined.filter(|name: Seq<char>| names.contains(name))
}

/// The defined tools that are asked for. A name of no tool is passed over.
pub fn named_run_tools(defined: &Vec<String>, names: &Vec<String>) -> (r: Vec<String>)
    ensures
        r.deep_view() == asked_for(defined.deep_view(), names.deep_view()),
{
    let ghost all = defined.deep_view();
    let mut r: Vec<String> = Vec::new();
    let mut i: usize = 0;
    proof {
        reveal(Seq::filter);
        assert(r.deep_view() =~= asked_for(all.take(0), names.deep_view()));
    }
    while i < defined.len()
        invariant
            i <= defined@.len(),
            all == defined.deep_view(),
            r.deep_view() == asked_for(all.take(i as int), names.deep_view()),
        decreases defined@.len() - i,
    {
        proof {
            reveal(Seq::filter);
            assert(all.take(i + 1).drop_last() =~= all.take(i as int));
            assert(all.take(i + 1).last() == defined@[i as int]@);
        }
        if texts_contain(names, defined[i].as_str()) {
            push_text(&mut r, defined[i].clone());
        }
        i += 1;
    }
    assert(all.take(i as int) =~= all);
    r
}

/// An agent makes runs only under its own run: where a call for new runs passes,
/// each of their parents is the current run or none.
pub proof fn lemma_agents_make_runs_under_their_own(
    parents: Seq<Option<Seq<char>>>,
    validation: ValidationView,
    current: Seq<char>,
)
    requires
        refusal(RunTool::Create, parents, validation, current) is None,
    ensures
        forall|i: int|
            0 <= i < parents.len() ==> ((#[trigger] parents[i]) matches Some(p) ==> trim(p)
                == current),
{
    lemma_accepted_parents(parents, current);
}

/// Parents that are all accepted are the current run or none.
pub proof fn lemma_accepted_parents(parents: Seq<Option<Seq<char>>>, current: Seq<char>)
    requires
        parents_refusal(parents, current) is None,
    ensures
        forall|i: int|
            0 <= i < parents.len() ==> ((#[trigger] parents[i]) matches Some(p) ==> trim(p)
                == current),
    decreases parents.len(),
{
    if parents.len() > 0 {
        lemma_accepted_parents(parents.drop_last(), current);
        assert forall|i: int| 0 <= i < parents.len() implies ((#[trigger] parents[i]) matches Some(
            p,
        ) ==> trim(p) == current) by {
            if i < parents.len() - 1 {
                assert(parents.drop_last()[i] == parents[i]);
            }
        }
    }
}

/// A parent is refused exactly where it is given and is not the current run, white
/// space around it aside; a list of them where one is, and for the reason of the
/// first.
pub proof fn lemma_parents_are_refused_unless_current(
    parents: Seq<Option<Seq<char>>>,
    current: Seq<char>,
    i: int,
)
    requires
        0 <= i < parents.len(),
        parents[i] matches Some(p) && (trim(p).len() == 0 || trim(p) != current),
        forall|k: int|
            0 <= k < i ==> ((#[trigger] parents[k]) matches Some(p) ==> trim(p).len() > 0 && trim(p)
                == current),
    ensures
        parents_refusal(parents, current) is Some,
        parents_refusal(parents, current) == parent_refusal(parents[i], current),
{
    lemma_no_refusal(parents.take(i), current);
    assert(parents.take(i + 1).drop_last() =~= parents.take(i));
    assert(parents.take(i + 1).last() == parents[i]);
    lemma_refusal_stays(parents, current, i + 1);
}

proof fn lemma_no_refusal(parents: Seq<Option<Seq<char>>>, current: Seq<char>)
    requires
        forall|k: int|
            0 <= k < parents.len() ==> ((#[trigger] parents[k]) matches Some(p) ==> trim(p).len() > 0
                && trim(p) == current),
    ensures
        parents_refusal(parents, current) is None,
    decreases parents.len(),
{
    if parents.len() > 0 {
        let rest = parents.drop_last();
        assert(parents[parents.len() - 1] == parents.last());
        assert forall|k: int| 0 <= k < rest.len() implies ((#[trigger] rest[k]) matches Some(p)
            ==> trim(p).len() > 0 && trim(p) == current) by {
            assert(rest[k] == parents[k]);
        }
        lemma_no_refusal(rest, current);
    }
}

/// A call of a tool passes exactly where its arguments are sound, new runs stay
/// under the current one, and an interaction is not one for users alone; unsound
/// arguments are reported as they are.
pub proof fn lemma_sound_calls_pass(
    tool: RunTool,
    parents: Seq<Option<Seq<char>>>,
    validation: ValidationView,
    current: Seq<char>,
)
    requires
        forall|k: int|
            0 <= k < parents.len() ==> ((#[trigger] parents[k]) matches Some(p) ==> trim(p).len() > 0
                && trim(p) == current),
    ensures
        match validation {
            ValidationView::Unsound(problem) => refusal(tool, parents, validation, current)
                == Some(problem),
            ValidationView::Sound { requires_user } => refusal(tool, parents, validation, current)
                is Some <==> tool == RunTool::Interact && requires_user,
        },
{
    lemma_no_refusal(parents, current);
}

/// A run gets exactly the defined tools that it asks for.
pub proof fn lemma_asked_for_tools_are_given(
    defined: Seq<Seq<char>>,
    names: Seq<Seq<char>>,
    tool: Seq<char>,
)
    ensures
        asked_for(defined, names).contains(tool) <==> defined.contains(tool) && names.contains(
            tool,
        ),
    decreases defined.len(),
{
    reveal(Seq::filter);
    if defined.len() > 0 {
        let rest = defined.drop_last();
        lemma_asked_for_tools_are_given(rest, names, tool);
        let had = asked_for(rest, names);
        let all = asked_for(defined, names);
        assert(defined[defined.len() - 1] == defined.last());
        if defined.contains(tool) && names.contains(tool) {
            if tool == defined.last() {
                assert(all[all.len() - 1] == tool);
            } else {
                let k = choose|k: int| 0 <= k < defined.len() && defined[k] == tool;
                assert(rest[k] == tool);
                let j = choose|j: int| 0 <= j < had.len() && had[j] == tool;
                assert(all[j] == tool);
            }
        }
        if all.contains(tool) {
            let k = choose|k: int| 0 <= k < all.len() && all[k] == tool;
            if k < had.len() {
                assert(had[k] == tool);
                let j = choose|j: int| 0 <= j < rest.len() && rest[j] == tool;
                assert(defined[j] == tool);
            }
        }
    }
}

/// What a tool does, in the word that its name ends with.
pub open spec fn tool_word(tool: RunTool) -> Seq<char> {
    match tool {
        RunTool::Create => "create"@,
        RunTool::Search => "search"@,
        RunTool::Get => "get"@,
        RunTool::Interact => "interact"@,
        RunTool::Gather => "gather"@,
        RunTool::Events => "events"@,
        RunTool::Pair => "pair"@,
    }
}

proof fn lemma_tool_names()
    ensures
        FABRO_RUN_CREATE_TOOL_NAME@ == "fabro_run_"@ + "create"@,
        FABRO_RUN_SEARCH_TOOL_NAME@ == "fabro_run_"@ + "search"@,
        FABRO_RUN_GET_TOOL_NAME@ == "fabro_run_"@ + "get"@,
        FABRO_RUN_INTERACT_TOOL_NAME@ == "fabro_run_"@ + "interact"@,
        FABRO_RUN_GATHER_TOOL_NAME@ == "fabro_run_"@ + "gather"@,
        FABRO_RUN_EVENTS_TOOL_NAME@ == "fabro_run_"@ + "events"@,
        FABRO_RUN_PAIR_TOOL_NAME@ == "fabro_run_"@ + "pair"@,
{
    reveal_strlit("fabro_run_");
    reveal_strlit("create");
    reveal_strlit("search");
    reveal_strlit("get");
    reveal_strlit("interact");
    reveal_strlit("gather");
    reveal_strlit("events");
    reveal_strlit("pair");
    reveal_strlit("fabro_run_create");
    reveal_strlit("fabro_run_search");
    reveal_strlit("fabro_run_get");
    reveal_strlit("fabro_run_interact");
    reveal_strlit("fabro_run_gather");
    reveal_strlit("fabro_run_events");
    reveal_strlit("fabro_run_pair");
    assert(FABRO_RUN_CREATE_TOOL_NAME@ =~= "fabro_run_"@ + "create"@);
    assert(FABRO_RUN_SEARCH_TOOL_NAME@ =~= "fabro_run_"@ + "search"@);
    assert(FABRO_RUN_GET_TOOL_NAME@ =~= "fabro_run_"@ + "get"@);
    assert(FABRO_RUN_INTERACT_TOOL_NAME@ =~= "fabro_run_"@ + "interact"@);
    assert(FABRO_RUN_GATHER_TOOL_NAME@ =~= "fabro_run_"@ + "gather"@);
    assert(FABRO_RUN_EVENTS_TOOL_NAME@ =~= "fabro_run_"@ + "events"@);
    assert(FABRO_RUN_PAIR_TOOL_NAME@ =~= "fabro_run_"@ + "pair"@);
}

/// A tool is called by the word for what it does, behind the common start of all
/// their names, and by nothing else.
pub proof fn lemma_tools_are_called_by_their_word(tool: RunTool, name: Seq<char>)
    ensures
        tool_named("fabro_run_"@ + tool_word(tool)) == Some(tool),
        tool_named(name) == Some(tool) ==> name == "fabro_run_"@ + tool_word(tool),
{
    lemma_tool_names();
    let full = "fabro_run_"@ + tool_word(tool);
    reveal_strlit("fabro_run_");
    reveal_strlit("create");
    reveal_strlit("search");
    reveal_strlit("get");
    reveal_strlit("interact");
    reveal_strlit("gather");
    reveal_strlit("events");
    reveal_strlit("pair");
    assert("fabro_run_"@.len() == 10);
    assert(full[10] == tool_word(tool)[0] && full[11] == tool_word(tool)[1]);
    assert(FABRO_RUN_CREATE_TOOL_NAME@[10] == 'c');
    assert(FABRO_RUN_SEARCH_TOOL_NAME@[10] == 's');
    assert(FABRO_RUN_GET_TOOL_NAME@[10] == 'g' && FABRO_RUN_GET_TOOL_NAME@[11] == 'e');
    assert(FABRO_RUN_INTERACT_TOOL_NAME@[10] == 'i');
    assert(FABRO_RUN_GATHER_TOOL_NAME@[10] == 'g' && FABRO_RUN_GATHER_TOOL_NAME@[11] == 'a');
    assert(FABRO_RUN_EVENTS_TOOL_NAME@[10] == 'e');
    assert(FABRO_RUN_PAIR_TOOL_NAME@[10] == 'p');
}

} // verus!
