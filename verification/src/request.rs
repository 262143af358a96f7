//! Requests: the file in which a whole selection is handed to the helper and the worker.

use crate::action::{action_named, action_word, action_word_reads_back, BridgeAction};
use crate::ini::{
    entry, entry_of, is_line_value, lemma_entry_of, lemma_trimmed_is_line_value, line_of,
    line_reads_back,
};
use crate::text::{
    chars_of, index_of, lemma_index_of, lemma_lines_of_concat, lemma_lines_of_hold_no_line_feed,
    lemma_lines_of_line, lines, lines_of, reads, text_of, trim, trim_of,
};
use vstd::prelude::*;

verus! {

/// An action and the paths it is for.
#[derive(Clone, Debug)]
pub struct HelperRequest {
    pub action: BridgeAction,
    pub paths: Vec<String>,
}

/// What a `HelperRequest` holds.
pub struct Request {
    pub action: BridgeAction,
    pub paths: Seq<Seq<char>>,
}

/// The texts of a row of strings.
pub open spec fn texts_of(strings: Seq<String>) -> Seq<Seq<char>> {
    strings.map_values(|s: String| s@)
}

impl View for HelperRequest {
    type V = Request;

    open spec fn view(&self) -> Request {
        Request { action: self.action, paths: texts_of(self.paths@) }
    }
}

/// What keeps a request file from being one.
#[derive(Clone, Copy, Debug, Eq, PartialEq, Structural)]
pub enum RequestFileError {
    MissingAction,
    NoPaths,
}

/// The lines that name `paths`.
pub open spec fn path_lines_of(paths: Seq<Seq<char>>) -> Seq<char>
    decreases paths.len(),
{
    if paths.len() == 0 {
        seq![]
    } else {
        path_lines_of(paths.drop_last()) + line_of("path"@, paths.last()).push('\n')
    }
}

/// The content of the file that holds `request`: the action's line, then one for each path.
pub open spec fn request_text_of(request: Request) -> Seq<char> {
    line_of("action"@, action_word(request.action)).push('\n') + path_lines_of(request.paths)
}

/// What the lines of a request file have given so far.
pub struct RequestDraft {
    pub action: Option<BridgeAction>,
    pub paths: Seq<Seq<char>>,
}

/// `draft` after `line`. The last action counts, whether it names one or not; each path that is
/// not empty counts.
pub open spec fn draft_after(draft: RequestDraft, line: Seq<char>) -> RequestDraft {
    match entry_of(line) {
        Some((key, value)) => if key == "action"@ {
            RequestDraft { action: action_named(value), ..draft }
        } else if key == "path"@ && trim_of(value).len() > 0 {
            RequestDraft { paths: draft.paths.push(trim_of(value)), ..draft }
        } else {
            draft
        },
        None => draft,
    }
}

/// What the lines of `content` give.
pub open spec fn draft_of(content: Seq<char>) -> RequestDraft {
    lines_of(content).fold_left(
        RequestDraft { action: None, paths: seq![] },
        |draft: RequestDraft, line: Seq<char>| draft_after(draft, line),
    )
}

/// The request that the file `content` holds: an action and at least one path.
pub open spec fn request_of(content: Seq<char>) -> Result<Request, RequestFileError> {
    let draft = draft_of(content);
    match draft.action {
        None => Err(RequestFileError::MissingAction),
        Some(action) => if draft.paths.len() == 0 {
            Err(RequestFileError::NoPaths)
        } else {
            Ok(Request { action, paths: draft.paths })
        },
    }
}

impl RequestFileError {
    /// The error in words.
    pub fn message(self) -> (r: &'static str)
        ensures
            r@ == match self {
                RequestFileError::MissingAction => "request file is missing the action field"@,
                RequestFileError::NoPaths => "request file does not contain any paths"@,
            },
    {
        match self {
            RequestFileError::MissingAction => "request file is missing the action field",
            RequestFileError::NoPaths => "request file does not contain any paths",
        }
    }
}

/// The content of the file that holds `request`.
pub fn request_file_text(request: &HelperRequest) -> (text: String)
    ensures
        text@ == request_text_of(request@),
{
    let mut text = String::new();
    text.append("action=");
    text.append(request.action.as_config_value());
    text.push('\n');
    proof {
        reveal_strlit("action=");
        reveal_strlit("action");
        reveal_strlit("path=");
        reveal_strlit("path");
        assert("action="@ == "action"@.push('='));
        assert("path="@ == "path"@.push('='));
    }
    let ghost head = line_of("action"@, action_word(request.action)).push('\n');
    let ghost paths = request@.paths;
    assert(text@ == head);
    for i in 0..request.paths.len()
        invariant
            paths == texts_of(request.paths@),
            "path="@ == "path"@.push('='),
            text@ == head + path_lines_of(paths.take(i as int)),
    {
        let ghost before = text@;
        text.append("path=");
        text.append(request.paths[i].as_str());
        text.push('\n');
        assert(paths[i as int] == request.paths@[i as int]@);
        assert(text@ == before + line_of("path"@, paths[i as int]).push('\n'));
        assert(paths.take(i + 1).drop_last() == paths.take(i as int));
    }
    assert(paths.take(paths.len() as int) == paths);
    text
}

/// The request that the file `content` holds.
pub fn parse_request(content: &str) -> (r: Result<HelperRequest, RequestFileError>)
    ensures
        match r {
            Ok(request) => request_of(content@) == Ok::<Request, RequestFileError>(request@),
            Err(error) => request_of(content@) == Err::<Request, RequestFileError>(error),
        },
{
    let chars: Vec<char> = chars_of(content);
    let all: Vec<&[char]> = lines(chars.as_slice());
    let mut action: Option<BridgeAction> = None;
    let mut paths: Vec<String> = Vec::new();
    let ghost step = |draft: RequestDraft, line: Seq<char>| draft_after(draft, line);
    let ghost start = RequestDraft { action: None, paths: seq![] };
    let ghost parts = lines_of(content@);
    assert(texts_of(paths@) == Seq::<Seq<char>>::empty());
    for i in 0..all.len()
        invariant
            all@.map_values(|line: &[char]| line@) == parts,
            step == (|draft: RequestDraft, line: Seq<char>| draft_after(draft, line)),
            (RequestDraft { action, paths: texts_of(paths@) }) == parts.take(i as int).fold_left(
                start,
                step,
            ),
    {
        let ghost paths_before = texts_of(paths@);
        if let Some((key, value)) = entry(all[i]) {
            if reads(key, "action") {
                action = BridgeAction::from_config_chars(value);
            } else if reads(key, "path") {
                let path: &[char] = trim(value);
                if path.len() > 0 {
                    paths.push(text_of(path));
                    assert(texts_of(paths@) == paths_before.push(path@));
                }
            }
        }
        assert(parts.take(i + 1).drop_last() == parts.take(i as int));
        assert(parts[i as int] == all@[i as int]@);
    }
    assert(parts.take(parts.len() as int) == parts);
    match action {
        None => Err(RequestFileError::MissingAction),
        Some(action) => {
            if paths.len() == 0 {
                Err(RequestFileError::NoPaths)
            } else {
                Ok(HelperRequest { action, paths })
            }
        },
    }
}

/// A request that its file gives back: at least one path, and each of them a value that a line can
/// hold.
pub open spec fn is_writable_request(request: Request) -> bool {
    &&& request.paths.len() > 0
    &&& forall|i: int| 0 <= i < request.paths.len() ==> is_line_value(#[trigger] request.paths[i])
}

/// The lines of the path part, with the empty one behind the last line feed.
proof fn lemma_lines_of_path_lines(paths: Seq<Seq<char>>)
    requires
        forall|i: int| 0 <= i < paths.len() ==> is_line_value(#[trigger] paths[i]),
    ensures
        path_lines_of(paths).len() > 0 ==> path_lines_of(paths).last() == '\n',
        lines_of(path_lines_of(paths)) == paths.map_values(
            |path: Seq<char>| line_of("path"@, path),
        ).push(seq![]),
    decreases paths.len(),
{
    let line_for = |path: Seq<char>| line_of("path"@, path);
    if paths.len() == 0 {
        assert(paths.map_values(line_for).push(seq![]) == seq![Seq::<char>::empty()]);
    } else {
        let before = paths.drop_last();
        let line = line_of("path"@, paths.last());
        lemma_lines_of_path_lines(before);
        lemma_path_key();
        assert(is_line_value(paths[paths.len() - 1]));
        line_reads_back("path"@, paths.last());
        lemma_lines_of_concat(path_lines_of(before), line.push('\n'));
        assert(line.push('\n') + Seq::<char>::empty() == line.push('\n'));
        lemma_lines_of_line(line, seq![]);
        assert(lines_of(Seq::<char>::empty()) == seq![Seq::<char>::empty()]);
        assert(before.map_values(line_for).push(seq![]).drop_last() == before.map_values(line_for));
        assert(lines_of(path_lines_of(paths)) == before.map_values(line_for) + seq![
            line,
            Seq::<char>::empty(),
        ]);
        assert(paths.map_values(line_for) == before.map_values(line_for).push(line));
    }
}

proof fn lemma_path_key()
    ensures
        crate::ini::is_line_key("path"@),
        crate::ini::is_line_key("action"@),
        "path"@ != "action"@,
{
    reveal_strlit("path");
    reveal_strlit("action");
}

/// Folding the lines of `paths` into a draft appends the paths.
proof fn lemma_fold_path_lines(head: Seq<Seq<char>>, paths: Seq<Seq<char>>)
    requires
        forall|i: int| 0 <= i < paths.len() ==> is_line_value(#[trigger] paths[i]),
    ensures
        ({
            let step = |draft: RequestDraft, line: Seq<char>| draft_after(draft, line);
            let start = RequestDraft { action: None, paths: seq![] };
            let before = head.fold_left(start, step);
            (head + paths.map_values(|path: Seq<char>| line_of("path"@, path))).fold_left(
                start,
                step,
            ) == RequestDraft { action: before.action, paths: before.paths + paths }
        }),
    decreases paths.len(),
{
    let step = |draft: RequestDraft, line: Seq<char>| draft_after(draft, line);
    let start = RequestDraft { action: None, paths: seq![] };
    let line_for = |path: Seq<char>| line_of("path"@, path);
    let before = head.fold_left(start, step);
    let all = head + paths.map_values(line_for);
    if paths.len() == 0 {
        assert(all == head);
        assert(before.paths + paths == before.paths);
    } else {
        let fewer = paths.drop_last();
        lemma_fold_path_lines(head, fewer);
        lemma_path_key();
        assert(is_line_value(paths[paths.len() - 1]));
        line_reads_back("path"@, paths.last());
        assert(all.drop_last() == head + fewer.map_values(line_for));
        assert(all.last() == line_of("path"@, paths.last()));
        assert((before.paths + fewer).push(paths.last()) == before.paths + paths);
    }
}

/// A request is read back from the file it is written to: every path of the selection, in order,
/// whatever spaces, commas or other characters it holds inside.
pub proof fn request_reads_back(request: Request)
    requires
        is_writable_request(request),
    ensures
        request_of(request_text_of(request)) == Ok::<Request, RequestFileError>(request),
{
    let step = |draft: RequestDraft, line: Seq<char>| draft_after(draft, line);
    let start = RequestDraft { action: None, paths: seq![] };
    let line_for = |path: Seq<char>| line_of("path"@, path);
    let text = request_text_of(request);
    let first = line_of("action"@, action_word(request.action));
    lemma_path_key();
    lemma_action_word_is_line_value(request.action);
    line_reads_back("action"@, action_word(request.action));
    action_word_reads_back(request.action);
    lemma_lines_of_path_lines(request.paths);
    lemma_lines_of_line(first, path_lines_of(request.paths));
    let head = seq![first];
    let body = head + request.paths.map_values(line_for);
    assert(lines_of(text) == body.push(seq![]));
    assert(head.drop_last() == Seq::<Seq<char>>::empty());
    assert(head.drop_last().fold_left(start, step) == start);
    assert(head.fold_left(start, step) == RequestDraft {
        action: Some(request.action),
        paths: seq![],
    });
    lemma_fold_path_lines(head, request.paths);
    assert(Seq::<Seq<char>>::empty() + request.paths == request.paths);
    assert(body.push(seq![]).drop_last() == body);
    assert(draft_of(text).paths == request.paths);
}

proof fn lemma_action_word_is_line_value(action: BridgeAction)
    ensures
        is_line_value(action_word(action)),
{
    reveal_strlit("unlock");
    reveal_strlit("delete");
}

/// Whatever the file holds, each path that is read from it is a value that a line can hold.
proof fn lemma_draft_paths(lines: Seq<Seq<char>>)
    requires
        forall|i: int| 0 <= i < lines.len() ==> !(#[trigger] lines[i]).contains('\n'),
    ensures
        ({
            let step = |draft: RequestDraft, line: Seq<char>| draft_after(draft, line);
            let start = RequestDraft { action: None, paths: seq![] };
            let paths = lines.fold_left(start, step).paths;
            forall|i: int| 0 <= i < paths.len() ==> is_line_value(#[trigger] paths[i])
        }),
    decreases lines.len(),
{
    if lines.len() > 0 {
        let last = lines[lines.len() - 1];
        lemma_draft_paths(lines.drop_last());
        lemma_entry_of(last);
        if let Some((key, value)) = entry_of(last) {
            lemma_trimmed_is_line_value(value);
        }
    }
}

/// A request that was read has at least one path, and none that is empty or has white space at its
/// ends.
pub proof fn read_request_is_writable(content: Seq<char>)
    ensures
        request_of(content) matches Ok(request) ==> is_writable_request(request),
{
    lemma_lines_of_hold_no_line_feed(content);
    lemma_draft_paths(lines_of(content));
}

/// A request is read back from its file exactly if it is one that a file can hold.
pub proof fn request_reads_back_iff(request: Request)
    ensures
        request_of(request_text_of(request)) == Ok::<Request, RequestFileError>(request)
            <==> is_writable_request(request),
{
    if is_writable_request(request) {
        request_reads_back(request);
    }
    read_request_is_writable(request_text_of(request));
}

/// The texts of strings are those of each of them.
pub proof fn texts_hold_every_string(strings: Seq<String>)
    ensures
        texts_of(strings).len() == strings.len(),
        forall|i: int| 0 <= i < strings.len() ==> #[trigger] texts_of(strings)[i] == strings[i]@,
{
}

/// A request is written line by line: first that of its action, then one for each path, in order
/// and as the path stands. One path more, at the end, is one line more, at the end.
pub proof fn requests_are_written_line_by_line(
    action: BridgeAction,
    paths: Seq<Seq<char>>,
    path: Seq<char>,
)
    ensures
        request_text_of(Request { action, paths: seq![] }) == "action="@ + (if action
            == BridgeAction::Delete {
            "delete"@
        } else {
            "unlock"@
        }) + "\n"@,
        request_text_of(Request { action, paths: paths.push(path) }) == request_text_of(
            Request { action, paths },
        ) + "path="@ + path + "\n"@,
{
    reveal_strlit("action=");
    reveal_strlit("action");
    reveal_strlit("path=");
    reveal_strlit("path");
    reveal_strlit("\n");
    assert("action="@ == "action"@.push('='));
    assert("path="@ == "path"@.push('='));
    assert("\n"@ == seq!['\n']);
    assert(paths.push(path).drop_last() == paths);
    let line = line_of("path"@, path).push('\n');
    assert(line == "path="@ + path + "\n"@);
    assert(request_text_of(Request { action, paths: paths.push(path) }) == request_text_of(
        Request { action, paths },
    ) + line);
    assert(request_text_of(Request { action, paths: seq![] }) == line_of(
        "action"@,
        action_word(action),
    ).push('\n'));
}

proof fn lemma_draft_of_line(content: Seq<char>, line: Seq<char>)
    requires
        content.len() > 0 ==> content.last() == '\n',
        !line.contains('\n'),
    ensures
        draft_of(content + line) == draft_after(draft_of(content), line),
{
    let step = |draft: RequestDraft, line: Seq<char>| draft_after(draft, line);
    let start = RequestDraft { action: None, paths: seq![] };
    let before = lines_of(content);
    lemma_lines_of_concat(content, line);
    lemma_lines_of_concat(content, seq![]);
    lemma_index_of(line, '\n');
    let at = index_of(line, '\n') as int;
    if at < line.len() {
        assert(line.contains(line[at]));
    }
    assert(lines_of(line) == seq![line]);
    assert(content + Seq::<char>::empty() == content);
    assert(lines_of(Seq::<char>::empty()) == seq![Seq::<char>::empty()]);
    let all = lines_of(content + line);
    assert(all == before.drop_last().push(line));
    assert(all.drop_last() == before.drop_last());
    assert(before.last() == Seq::<char>::empty());
    assert(draft_after(before.drop_last().fold_left(start, step), seq![])
        == before.drop_last().fold_left(start, step));
}

/// A line behind a file gives a path more, at the end, where it is an entry for a path that is not
/// blank, and sets the action where it is an entry for that; any other line changes nothing. This
/// holds behind any file, however many paths it has given.
pub proof fn requests_are_read_line_by_line(content: Seq<char>, line: Seq<char>)
    requires
        content.len() > 0 ==> content.last() == '\n',
        !line.contains('\n'),
    ensures
        ({
            let before = draft_of(content);
            let after = draft_of(content + line);
            let (key, value) = match entry_of(line) {
                Some((key, value)) => (key, value),
                None => (seq![], seq![]),
            };
            &&& after.paths == if key == "path"@ && trim_of(value).len() > 0 {
                before.paths.push(trim_of(value))
            } else {
                before.paths
            }
            &&& after.action == if key == "action"@ {
                action_named(value)
            } else {
                before.action
            }
        }),
{
    lemma_draft_of_line(content, line);
    lemma_path_key();
    reveal_strlit("path");
    reveal_strlit("action");
    assert("path"@.len() == 4);
    assert("action"@.len() == 6);
}

/// A file is a request exactly if its lines give an action and a path; the request is then all that
/// they give. Otherwise the action is missed first.
pub proof fn requests_are_all_that_was_read(content: Seq<char>)
    ensures
        ({
            let read = draft_of(content);
            let r = request_of(content);
            &&& r is Ok <==> read.action is Some && read.paths.len() > 0
            &&& r matches Ok(request) ==> Some(request.action) == read.action && request.paths
                == read.paths
            &&& r == Err::<Request, RequestFileError>(RequestFileError::MissingAction)
                <==> read.action is None
            &&& r == Err::<Request, RequestFileError>(RequestFileError::NoPaths)
                <==> read.action is Some && read.paths.len() == 0
            &&& draft_of(seq![]).paths.len() == 0 && draft_of(seq![]).action is None
        }),
{
    let step = |draft: RequestDraft, line: Seq<char>| draft_after(draft, line);
    let start = RequestDraft { action: None, paths: seq![] };
    let all = lines_of(seq![]);
    assert(all == seq![Seq::<char>::empty()]);
    assert(all.drop_last() == Seq::<Seq<char>>::empty());
    assert(all.drop_last().fold_left(start, step) == start);
}

/// What a request holds is its action and the texts of all its paths.
pub proof fn requests_hold_every_path(request: HelperRequest)
    ensures
        request@.action == request.action,
        request@.paths.len() == request.paths@.len(),
        forall|i: int|
            0 <= i < request.paths@.len() ==> #[trigger] request@.paths[i] == request.paths@[i]@,
{
}

} // verus!
