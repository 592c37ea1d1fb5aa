//! Which files of a working tree a stage changed.
use crate::order::{lemma_next_joins, push_text, sorted, texts_contain, TextSet};
use crate::text::{joined, join, lines, lines_of, same, trim, trimmed};
use vstd::prelude::*;
use vstd::string::*;

verus! {

/// Stands before the tracked files that changed.
pub const DIFF_MARKER: &'static str = "__FABRO_CHANGED_FILES_DIFF__";

/// Stands before the untracked files.
pub const UNTRACKED_MARKER: &'static str = "__FABRO_CHANGED_FILES_UNTRACKED__";

/// How long the listing of the changed files may take, in milliseconds.
pub const LISTING_TIMEOUT_MS: u64 = 30_000;

/// How long the search for the file written last may take, in milliseconds.
pub const NEWEST_TIMEOUT_MS: u64 = 5_000;

/// Whether a trimmed line names a file.
pub open spec fn names_file(line: Seq<char>) -> bool {
    line.len() > 0 && line != DIFF_MARKER@ && line != UNTRACKED_MARKER@
}

/// The files that lines name, in order.
pub open spec fn file_names(all: Seq<Seq<char>>) -> Seq<Seq<char>>
    decreases all.len(),
{
    if all.len() == 0 {
        Seq::empty()
    } else {
        let rest = file_names(all.drop_last());
        let line = trim(all.last());
        if names_file(line) {
            rest.push(line)
        } else {
            rest
        }
    }
}

/// The files that the output of a listing names, in order.
pub fn parse_changed_files(stdout: &str) -> (r: Vec<String>)
    ensures
        r.deep_view() == file_names(lines(stdout@)),
{
    let all = lines_of(stdout);
    let ghost model = all.deep_view();
    let mut r: Vec<String> = Vec::new();
    let mut i: usize = 0;
    assert(model.take(0) =~= Seq::empty());
    assert(r.deep_view() =~= Seq::empty());
    while i < all.len()
        invariant
            i <= all@.len(),
            model == all.deep_view(),
            r.deep_view() == file_names(model.take(i as int)),
        decreases all@.len() - i,
    {
        assert(model.take(i + 1).drop_last() =~= model.take(i as int));
        assert(model.take(i + 1).last() == all@[i as int]@);
        let line = trimmed(all[i].as_str());
        let ghost had = r.deep_view();
        let ghost text = line@;
        if !line.as_str().is_empty() && !same(line.as_str(), DIFF_MARKER) && !same(
            line.as_str(),
            UNTRACKED_MARKER,
        ) {
            r.push(line);
            assert(r.deep_view() =~= had.push(text));
        }
        i += 1;
    }
    assert(model.take(i as int) =~= model);
    r
}

/// The files that changed, each once, in ascending order. `stdout` is the output
/// of the listing, where it succeeded.
pub fn changed_files(stdout: Option<&str>) -> (r: Vec<String>)
    ensures
        r.deep_view() == match stdout {
            Some(text) => sorted(file_names(lines(text@)).to_set()),
            None => Seq::<Seq<char>>::empty(),
        },
{
    let names = match stdout {
        Some(text) => parse_changed_files(text),
        None => {
            let none: Vec<String> = Vec::new();
            assert(none.deep_view() =~= Seq::<Seq<char>>::empty());
            return none;
        },
    };
    let ghost all = names.deep_view();
    let mut set = TextSet::new();
    let mut i: usize = 0;
    assert(set@ =~= all.take(0).to_set());
    while i < names.len()
        invariant
            i <= names@.len(),
            all == names.deep_view(),
            set@ == all.take(i as int).to_set(),
        decreases names@.len() - i,
    {
        proof {
            lemma_next_joins(all, i as int);
            assert(all[i as int] == names@[i as int]@);
        }
        set.insert(names[i].clone());
        i += 1;
    }
    assert(all.take(i as int) =~= all);
    set.to_vec()
}

/// The files of `after` that are not in `before`, in order.
pub open spec fn new_files(before: Seq<Seq<char>>, after: Seq<Seq<char>>) -> Seq<Seq<char>> {
    after.filter(|file: Seq<char>| !before.contains(file))
}

/// The files that a stage touched, from those that had changed before and those
/// that have changed after it.
pub fn files_touched_since(before: &Vec<String>, after: &Vec<String>) -> (r: Vec<String>)
    ensures
        r.deep_view() == new_files(before.deep_view(), after.deep_view()),
{
    let ghost all = after.deep_view();
    let mut r: Vec<String> = Vec::new();
    let mut i: usize = 0;
    proof {
        reveal(Seq::filter);
        assert(r.deep_view() =~= new_files(before.deep_view(), all.take(0)));
    }
    while i < after.len()
        invariant
            i <= after@.len(),
            all == after.deep_view(),
            r.deep_view() == new_files(before.deep_view(), all.take(i as int)),
        decreases after@.len() - i,
    {
        proof {
            reveal(Seq::filter);
            assert(all.take(i + 1).drop_last() =~= all.take(i as int));
            assert(all.take(i + 1).last() == after@[i as int]@);
        }
        if !texts_contain(before, after[i].as_str()) {
            push_text(&mut r, after[i].clone());
        }
        i += 1;
    }
    assert(all.take(i as int) =~= all);
    r
}

/// The file that was written last, from the output of a listing by time, where
/// it succeeded.
pub fn last_file_touched(stdout: Option<&str>) -> (r: Option<String>)
    ensures
        r.deep_view() == match stdout {
            Some(text) => if trim(text@).len() > 0 {
                Some(trim(text@))
            } else {
                None
            },
            None => None,
        },
{
    match stdout {
        Some(text) => {
            let name = trimmed(text);
            if name.as_str().is_empty() {
                None
            } else {
                Some(name)
            }
        },
        None => None,
    }
}

/// The command that lists the changed files of a working tree. The markers are
/// given as words of a shell command.
pub fn listing_command(diff_marker: &str, untracked_marker: &str) -> (r: String)
    ensures
        r@ == "printf '%s\\n' "@ + diff_marker@
            + "; git diff --name-only || true; printf '%s\\n' "@ + untracked_marker@
            + "; git ls-files --others --exclude-standard || true"@,
{
    let mut s = "printf '%s\\n' ".to_owned();
    s.append(diff_marker);
    s.append("; git diff --name-only || true; printf '%s\\n' ");
    s.append(untracked_marker);
    s.append("; git ls-files --others --exclude-standard || true");
    s
}

/// The command that names the file written last. The files are given as words
/// of a shell command.
pub fn newest_command(words: &Vec<String>) -> (r: String)
    ensures
        r@ == "ls -t "@ + join(words.deep_view(), " "@) + " | head -1"@,
{
    let mut s = "ls -t ".to_owned();
    s.append(joined(words, " ").as_str());
    s.append(" | head -1");
    s
}

/// No marker of a listing, and no empty line, is taken for a file.
pub proof fn lemma_markers_are_no_files(all: Seq<Seq<char>>)
    ensures
        forall|k: int| 0 <= k < file_names(all).len() ==> names_file(#[trigger] file_names(all)[k]),
    decreases all.len(),
{
    if all.len() > 0 {
        lemma_markers_are_no_files(all.drop_last());
        let rest = file_names(all.drop_last());
        let names = file_names(all);
        assert forall|k: int| 0 <= k < names.len() implies names_file(#[trigger] names[k]) by {
            if k < rest.len() {
                assert(names_file(rest[k]));
                assert(names[k] == rest[k]);
            }
        }
    }
}

/// One more line of a listing adds the file that it names, in its place; a marker
/// or a blank line adds none.
pub proof fn lemma_every_listed_file_is_read(all: Seq<Seq<char>>, line: Seq<char>)
    ensures
        ({
            let names = file_names(all.push(line));
            let name = trim(line);
            if name.len() == 0 || name == DIFF_MARKER@ || name == UNTRACKED_MARKER@ {
                names == file_names(all)
            } else {
                names == file_names(all).push(name)
            }
        }),
        file_names(Seq::empty()).len() == 0,
{
    assert(all.push(line).drop_last() =~= all);
}

/// A stage touched exactly the files that have changed after it and had not
/// changed before.
pub proof fn lemma_touched_files_are_new(
    before: Seq<Seq<char>>,
    after: Seq<Seq<char>>,
    file: Seq<char>,
)
    ensures
        new_files(before, after).contains(file) <==> after.contains(file) && !before.contains(file),
    decreases after.len(),
{
    reveal(Seq::filter);
    if after.len() > 0 {
        let rest = after.drop_last();
        lemma_touched_files_are_new(before, rest, file);
        let had = new_files(before, rest);
        let all = new_files(before, after);
        assert(after[after.len() - 1] == after.last());
        if after.contains(file) && !before.contains(file) {
            if file == after.last() {
                assert(all[all.len() - 1] == file);
            } else {
                let k = choose|k: int| 0 <= k < after.len() && after[k] == file;
                assert(rest[k] == file);
                let j = choose|j: int| 0 <= j < had.len() && had[j] == file;
                assert(all[j] == file);
            }
        }
        if all.contains(file) {
            let k = choose|k: int| 0 <= k < all.len() && all[k] == file;
            if k < had.len() {
                assert(had[k] == file);
                let j = choose|j: int| 0 <= j < rest.len() && rest[j] == file;
                assert(after[j] == file);
            }
        }
    }
}


} // verus!
