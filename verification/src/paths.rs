//! Where the files of a deployment stand: all in one directory.
//!
//! A path is text, with the separators and drive letters of Windows.

use crate::text::{
    chars_of, index_of, lemma_index_of, lemma_index_of_is, position, split_once, text_of,
};
use vstd::prelude::*;
use vstd::slice::slice_subrange;

verus! {

pub const CONFIG_FILE_NAME: &'static str = "iobitunlocker_shell_bridge.ini";

pub const HELPER_EXE_NAME: &'static str = "iobitunlocker_shell_bridge_helper.exe";

pub const WORKER_DLL_NAME: &'static str = "iobitunlocker_shell_bridge_worker.dll";

pub const LOG_FILE_NAME: &'static str = "iobitunlocker_shell_bridge.log";

pub const UNLOCKER_EXE_NAME: &'static str = "IObitUnlocker.exe";

pub const UNLOCKER_DLL_NAME: &'static str = "IObitUnlocker.dll";

/// What is put behind the path of a request file for that of its result file.
pub const RESULT_SUFFIX: &'static str = ".result";

/// Whether `dir` is a drive letter and a colon, which name the drive's current directory.
pub open spec fn is_bare_drive(dir: Seq<char>) -> bool {
    dir.len() == 2 && dir[1] == ':' && ('A' <= dir[0] <= 'Z' || 'a' <= dir[0] <= 'z')
}

/// What stands between `dir` and the name of a file in it: a backslash, unless `dir` is empty, ends
/// with a separator or is a bare drive.
pub open spec fn separator_behind(dir: Seq<char>) -> Seq<char> {
    if dir.len() == 0 || dir.last() == '\\' || dir.last() == '/' || is_bare_drive(dir) {
        seq![]
    } else {
        seq!['\\']
    }
}

/// Whether `dir` is verbatim: Windows takes what stands behind `\\?\` as it is, so that a slash in
/// it is no separator.
pub open spec fn is_verbatim(dir: Seq<char>) -> bool {
    dir.len() >= 4 && dir[0] == '\\' && dir[1] == '\\' && dir[2] == '?' && dir[3] == '\\'
}

/// Whether the verbatim path `dir` goes on with `UNC` and a separator, and so names a server.
pub open spec fn names_server(dir: Seq<char>) -> bool {
    dir.len() >= 8 && dir[4] == 'U' && dir[5] == 'N' && dir[6] == 'C' && (dir[7] == '\\' || dir[7]
        == '/')
}

/// Whether the verbatim path `dir` goes on with a drive: a letter and a colon, and behind them
/// nothing or a separator.
pub open spec fn names_drive(dir: Seq<char>) -> bool {
    dir.len() >= 6 && is_bare_drive(dir.subrange(4, 6)) && (dir.len() == 6 || dir[6] == '\\'
        || dir[6] == '/')
}

/// How much of the verbatim path `dir` is its prefix: up to the drive, up to the server and its
/// share, or else up to the next backslash.
pub open spec fn verbatim_prefix_len(dir: Seq<char>) -> nat {
    if names_server(dir) {
        let server = index_of(dir.skip(8), '\\');
        let behind = dir.skip(8 + server as int);
        let share = if behind.len() > 0 {
            index_of(behind.skip(1), '\\')
        } else {
            0
        };
        if share > 0 {
            8 + server + 1 + share
        } else {
            8 + server
        }
    } else if names_drive(dir) {
        6
    } else {
        4 + index_of(dir.skip(4), '\\')
    }
}

/// The parts of `s` between backslashes, each with a backslash before it. Empty parts are left out.
pub open spec fn parts_behind_backslashes(s: Seq<char>) -> Seq<char>
    decreases s.len(),
{
    let at = index_of(s, '\\') as int;
    let part = if at > 0 {
        seq!['\\'] + s.take(at)
    } else {
        seq![]
    };
    if at < s.len() {
        part + parts_behind_backslashes(s.skip(at + 1))
    } else {
        part
    }
}

/// What stands behind the prefix of a verbatim path, without the slash that may part a drive from
/// it.
pub open spec fn verbatim_rest_of(dir: Seq<char>) -> Seq<char> {
    let rest = dir.skip(verbatim_prefix_len(dir) as int);
    if rest.len() > 0 && rest[0] == '/' {
        rest.skip(1)
    } else {
        rest
    }
}

/// What stands before the name of a file in the directory `dir`. A verbatim directory is put
/// together from its prefix and its parts, so that backslashes in a row become one.
pub open spec fn folder_of(dir: Seq<char>) -> Seq<char> {
    if is_verbatim(dir) {
        dir.take(verbatim_prefix_len(dir) as int) + parts_behind_backslashes(verbatim_rest_of(dir))
            + seq!['\\']
    } else {
        dir + separator_behind(dir)
    }
}

/// The path of the file `name` in the directory `dir`.
pub open spec fn join_of(dir: Seq<char>, name: Seq<char>) -> Seq<char> {
    folder_of(dir) + name
}

/// The prefix of a verbatim path is a part of it.
proof fn lemma_verbatim_prefix_len(dir: Seq<char>)
    requires
        is_verbatim(dir),
    ensures
        4 <= verbatim_prefix_len(dir) <= dir.len(),
{
    if names_server(dir) {
        lemma_index_of(dir.skip(8), '\\');
        let behind = dir.skip(8 + index_of(dir.skip(8), '\\') as int);
        if behind.len() > 0 {
            lemma_index_of(behind.skip(1), '\\');
        }
    } else {
        lemma_index_of(dir.skip(4), '\\');
    }
}

fn is_drive_letter(c: char) -> (r: bool)
    ensures
        r == ('A' <= c <= 'Z' || 'a' <= c <= 'z'),
{
    ('A' <= c && c <= 'Z') || ('a' <= c && c <= 'z')
}

/// How much of a verbatim path is its prefix.
fn verbatim_prefix(dir: &[char]) -> (n: usize)
    requires
        is_verbatim(dir@),
    ensures
        n == verbatim_prefix_len(dir@),
        n <= dir.len(),
{
    proof {
        lemma_verbatim_prefix_len(dir@);
    }
    let total: usize = dir.len();
    if total >= 8 && dir[4] == 'U' && dir[5] == 'N' && dir[6] == 'C' && (dir[7] == '\\' || dir[7]
        == '/') {
        let behind_mark: &[char] = slice_subrange(dir, 8, total);
        assert(behind_mark@ == dir@.skip(8));
        proof {
            lemma_index_of(behind_mark@, '\\');
        }
        let server: usize = position(behind_mark, '\\');
        let end: usize = 8 + server;
        if end == total {
            return end;
        }
        let behind_server: &[char] = slice_subrange(dir, end + 1, total);
        assert(behind_server@ == dir@.skip(end as int).skip(1));
        let share: usize = position(behind_server, '\\');
        if share > 0 {
            end + 1 + share
        } else {
            end
        }
    } else if total >= 6 && dir[5] == ':' && is_drive_letter(dir[4]) && (total == 6 || dir[6]
        == '\\' || dir[6] == '/') {
        6
    } else {
        let behind_mark: &[char] = slice_subrange(dir, 4, total);
        assert(behind_mark@ == dir@.skip(4));
        4 + position(behind_mark, '\\')
    }
}

/// Puts `part` behind `path`, with a backslash before it, unless it is empty.
fn push_part(path: &mut String, part: &[char])
    ensures
        final(path)@ == old(path)@ + if part@.len() > 0 {
            seq!['\\'] + part@
        } else {
            seq![]
        },
{
    if part.len() > 0 {
        path.push('\\');
        let text: String = text_of(part);
        path.append(text.as_str());
    }
}

/// The path of the file `name` in the verbatim directory `dir`.
fn join_verbatim(dir: &[char], name: &str) -> (path: String)
    requires
        is_verbatim(dir@),
    ensures
        path@ == join_of(dir@, name@),
{
    let n: usize = verbatim_prefix(dir);
    let total: usize = dir.len();
    let prefix: &[char] = slice_subrange(dir, 0, n);
    let mut path: String = text_of(prefix);
    assert(path@ == dir@.take(n as int));
    let start: usize = if n < total && dir[n] == '/' {
        n + 1
    } else {
        n
    };
    let mut rest: &[char] = slice_subrange(dir, start, total);
    assert(rest@ == verbatim_rest_of(dir@));
    let ghost whole = path@ + parts_behind_backslashes(rest@);
    loop
        invariant_except_break
            path@ + parts_behind_backslashes(rest@) == whole,
        ensures
            path@ == whole,
        decreases rest@.len(),
    {
        match split_once(rest, '\\') {
            Some((part, after)) => {
                push_part(&mut path, part);
                rest = after;
            },
            None => {
                push_part(&mut path, rest);
                proof {
                    lemma_index_of(rest@, '\\');
                }
                assert(rest@.take(rest@.len() as int) == rest@);
                break;
            },
        }
    }
    path.push('\\');
    path.append(name);
    path
}

/// The path of the file `name` in the directory `dir`.
fn join(dir: &str, name: &str) -> (path: String)
    ensures
        path@ == join_of(dir@, name@),
{
    let chars: Vec<char> = chars_of(dir);
    let n: usize = chars.len();
    if n >= 4 && chars[0] == '\\' && chars[1] == '\\' && chars[2] == '?' && chars[3] == '\\' {
        return join_verbatim(chars.as_slice(), name);
    }
    let mut path: String = dir.to_owned();
    let bare_drive: bool = n == 2 && chars[1] == ':' && is_drive_letter(chars[0]);
    if !(n == 0 || chars[n - 1] == '\\' || chars[n - 1] == '/' || bare_drive) {
        path.push('\\');
    }
    path.append(name);
    path
}

/// Where the settings stand.
pub fn config_path_for_dir(dir: &str) -> (path: String)
    ensures
        path@ == join_of(dir@, "iobitunlocker_shell_bridge.ini"@),
{
    join(dir, CONFIG_FILE_NAME)
}

/// Where the helper stands.
pub fn helper_path_for_dir(dir: &str) -> (path: String)
    ensures
        path@ == join_of(dir@, "iobitunlocker_shell_bridge_helper.exe"@),
{
    join(dir, HELPER_EXE_NAME)
}

/// Where the worker stands.
pub fn worker_dll_path_for_dir(dir: &str) -> (path: String)
    ensures
        path@ == join_of(dir@, "iobitunlocker_shell_bridge_worker.dll"@),
{
    join(dir, WORKER_DLL_NAME)
}

/// Where IObit Unlocker's program stands.
pub fn unlocker_exe_path_for_dir(dir: &str) -> (path: String)
    ensures
        path@ == join_of(dir@, "IObitUnlocker.exe"@),
{
    join(dir, UNLOCKER_EXE_NAME)
}

/// Where IObit Unlocker's library stands.
pub fn unlocker_dll_path_for_dir(dir: &str) -> (path: String)
    ensures
        path@ == join_of(dir@, "IObitUnlocker.dll"@),
{
    join(dir, UNLOCKER_DLL_NAME)
}

/// Whether `c` parts a path: a backslash or a slash, but in a verbatim path a backslash alone.
pub open spec fn is_separator(c: char, verbatim: bool) -> bool {
    c == '\\' || (c == '/' && !verbatim)
}

/// How far it is to the first separator of `s`, or to its end.
pub open spec fn part_len(s: Seq<char>) -> nat
    decreases s.len(),
{
    if s.len() == 0 || is_separator(s[0], false) {
        0
    } else {
        1 + part_len(s.skip(1))
    }
}

/// How much of a path that is not verbatim is its prefix: a device behind `\\.\`, a server and its
/// share, or a drive.
pub open spec fn plain_prefix_len(path: Seq<char>) -> nat {
    if path.len() >= 2 && is_separator(path[0], false) && is_separator(path[1], false) {
        if path.len() >= 4 && path[2] == '.' && is_separator(path[3], false) {
            4 + part_len(path.skip(4))
        } else {
            let server = part_len(path.skip(2));
            let behind = path.skip(2 + server as int);
            let share = if behind.len() > 0 {
                part_len(behind.skip(1))
            } else {
                0
            };
            if server > 0 && share > 0 {
                2 + server + 1 + share
            } else {
                0
            }
        }
    } else if path.len() >= 2 && is_bare_drive(path.take(2)) {
        2
    } else {
        0
    }
}

/// How much of `path` is its prefix.
pub open spec fn prefix_len_of(path: Seq<char>) -> nat {
    if is_verbatim(path) {
        verbatim_prefix_len(path)
    } else {
        plain_prefix_len(path)
    }
}

/// How much of `path` stands before its parts: the prefix and, behind it, the separator of the root
/// or, where there is no root, a dot that stands for the current directory.
pub open spec fn head_len_of(path: Seq<char>) -> nat {
    let prefix = prefix_len_of(path);
    let rest = path.skip(prefix as int);
    let root = rest.len() > 0 && is_separator(rest[0], false);
    let dot = prefix <= 2 && rest.len() > 0 && rest[0] == '.' && (rest.len() == 1 || is_separator(
        rest[1],
        false,
    ));
    if root || dot {
        prefix + 1
    } else {
        prefix
    }
}

/// Where the last part of `path` starts, which has a head of length `head`: behind the last
/// separator, or else behind the head.
pub open spec fn last_part_start(path: Seq<char>, head: nat, verbatim: bool) -> nat
    decreases path.len(),
{
    if path.len() <= head || is_separator(path.last(), verbatim) {
        path.len()
    } else {
        last_part_start(path.drop_last(), head, verbatim)
    }
}

/// `path` without its last part, which starts at `start`, and without the separator before it.
pub open spec fn cut_at(path: Seq<char>, head: nat, start: nat) -> Seq<char> {
    path.take(
        if start > head {
            start - 1
        } else {
            head as int
        },
    )
}

/// `path` without the parts at its end that name nothing: empty ones and, unless it is verbatim,
/// single dots.
pub open spec fn trimmed_path_of(path: Seq<char>, head: nat, verbatim: bool) -> Seq<char>
    decreases path.len(),
    via lemma_trimmed_path_shrinks
{
    let start = last_part_start(path, head, verbatim);
    let part = path.skip(start as int);
    if path.len() > head && (part.len() == 0 || (!verbatim && part == seq!['.'])) {
        trimmed_path_of(cut_at(path, head, start), head, verbatim)
    } else {
        path
    }
}

#[via_fn]
proof fn lemma_trimmed_path_shrinks(path: Seq<char>, head: nat, verbatim: bool) {
    if head <= path.len() {
        lemma_last_part_start(path, head, verbatim);
    }
}

/// The last part of a path stands behind its head, holds no separator and has one before it unless
/// it stands right behind the head.
proof fn lemma_last_part_start(path: Seq<char>, head: nat, verbatim: bool)
    requires
        head <= path.len(),
    ensures
        ({
            let start = last_part_start(path, head, verbatim);
            &&& head <= start <= path.len()
            &&& start > head ==> is_separator(path[start - 1], verbatim)
            &&& forall|i: int| start <= i < path.len() ==> !is_separator(path[i], verbatim)
        }),
    decreases path.len(),
{
    if path.len() > head && !is_separator(path.last(), verbatim) {
        let less = path.drop_last();
        let start = last_part_start(less, head, verbatim);
        lemma_last_part_start(less, head, verbatim);
        assert forall|i: int| start <= i < path.len() implies !is_separator(path[i], verbatim) by {
            if i < less.len() {
                assert(less[i] == path[i]);
            }
        }
        if start > head {
            assert(less[start - 1] == path[start - 1]);
        }
    }
}

/// The directory in which `path` stands: the path without its last part, if it has one.
pub open spec fn directory_of(path: Seq<char>) -> Option<Seq<char>> {
    let head = head_len_of(path);
    let verbatim = is_verbatim(path);
    let kept = trimmed_path_of(path, head, verbatim);
    if kept.len() > head {
        let start = last_part_start(kept, head, verbatim);
        Some(trimmed_path_of(cut_at(kept, head, start), head, verbatim))
    } else if prefix_len_of(path) == 0 && head == 1 && path[0] == '.' {
        Some(seq![])
    } else {
        None
    }
}

proof fn lemma_part_len(s: Seq<char>)
    ensures
        part_len(s) <= s.len(),
        part_len(s) < s.len() ==> is_separator(s[part_len(s) as int], false),
        forall|i: int| 0 <= i < part_len(s) ==> !is_separator(s[i], false),
    decreases s.len(),
{
    if s.len() > 0 && !is_separator(s[0], false) {
        let rest = s.skip(1);
        lemma_part_len(rest);
        assert forall|i: int| 0 <= i < part_len(s) implies !is_separator(s[i], false) by {
            if i > 0 {
                assert(rest[i - 1] == s[i]);
            }
        }
    }
}

/// The head of a path is a part of it.
proof fn lemma_head_len(path: Seq<char>)
    ensures
        prefix_len_of(path) <= head_len_of(path) <= path.len(),
{
    if is_verbatim(path) {
        lemma_verbatim_prefix_len(path);
    } else if path.len() >= 2 {
        lemma_part_len(path.skip(2));
        let behind = path.skip(2 + part_len(path.skip(2)) as int);
        if behind.len() > 0 {
            lemma_part_len(behind.skip(1));
        }
        if path.len() >= 4 {
            lemma_part_len(path.skip(4));
        }
    }
}

fn separator(c: char, verbatim: bool) -> (r: bool)
    ensures
        r == is_separator(c, verbatim),
{
    c == '\\' || (c == '/' && !verbatim)
}

/// How far it is from `start` to the next separator of `s`, or to its end.
fn part_length(s: &[char], start: usize) -> (n: usize)
    requires
        start <= s.len(),
    ensures
        n == part_len(s@.skip(start as int)),
        start + n <= s.len(),
{
    let mut at: usize = start;
    while at < s.len() && !separator(s[at], false)
        invariant
            start <= at <= s.len(),
            part_len(s@.skip(start as int)) == at - start + part_len(s@.skip(at as int)),
        decreases s.len() - at,
    {
        assert(s@.skip(at as int).skip(1) == s@.skip(at + 1));
        at = at + 1;
    }
    at - start
}

/// How much of a path that is not verbatim is its prefix.
fn plain_prefix(path: &[char]) -> (n: usize)
    ensures
        n == plain_prefix_len(path@),
        n <= path.len(),
{
    let total: usize = path.len();
    if total >= 2 && separator(path[0], false) && separator(path[1], false) {
        if total >= 4 && path[2] == '.' && separator(path[3], false) {
            return 4 + part_length(path, 4);
        }
        let server: usize = part_length(path, 2);
        let end: usize = 2 + server;
        if end == total {
            return 0;
        }
        assert(path@.skip(end as int).skip(1) == path@.skip(end + 1));
        let share: usize = part_length(path, end + 1);
        if server > 0 && share > 0 {
            end + 1 + share
        } else {
            0
        }
    } else if total >= 2 && path[1] == ':' && is_drive_letter(path[0]) {
        2
    } else {
        0
    }
}

/// Where the last part of the first `end` characters of a path starts.
fn part_start(path: &[char], end: usize, head: usize, verbatim: bool) -> (start: usize)
    requires
        head <= end <= path.len(),
    ensures
        start == last_part_start(path@.take(end as int), head as nat, verbatim),
        head <= start <= end,
{
    let mut start: usize = end;
    while start > head && !separator(path[start - 1], verbatim)
        invariant
            head <= start <= end <= path.len(),
            last_part_start(path@.take(end as int), head as nat, verbatim) == last_part_start(
                path@.take(start as int),
                head as nat,
                verbatim,
            ),
        decreases start,
    {
        assert(path@.take(start as int).drop_last() == path@.take(start - 1));
        start = start - 1;
    }
    start
}

/// How much trimming leaves of the first `end` characters of a path.
fn trimmed_end(path: &[char], end: usize, head: usize, verbatim: bool) -> (n: usize)
    requires
        head <= end <= path.len(),
    ensures
        head <= n <= end,
        path@.take(n as int) == trimmed_path_of(path@.take(end as int), head as nat, verbatim),
{
    let mut n: usize = end;
    loop
        invariant_except_break
            head <= n <= end <= path.len(),
            trimmed_path_of(path@.take(end as int), head as nat, verbatim) == trimmed_path_of(
                path@.take(n as int),
                head as nat,
                verbatim,
            ),
        ensures
            head <= n <= end,
            path@.take(n as int) == trimmed_path_of(path@.take(end as int), head as nat, verbatim),
        decreases n,
    {
        let start: usize = part_start(path, n, head, verbatim);
        let ghost part = path@.take(n as int).skip(start as int);
        assert(part == seq!['.'] <==> n - start == 1 && path@[start as int] == '.') by {
            if n - start == 1 {
                assert(part == seq![path@[start as int]]);
                assert(seq![path@[start as int]][0] == path@[start as int]);
            }
        }
        if n > head && (start == n || (!verbatim && n - start == 1 && path[start] == '.')) {
            let cut: usize = if start > head {
                start - 1
            } else {
                head
            };
            assert(path@.take(n as int).take(cut as int) == path@.take(cut as int));
            n = cut;
        } else {
            break;
        }
    }
    n
}

/// The directory in which the file at `path` stands.
pub fn parent_of(path: &str) -> (dir: Option<String>)
    ensures
        match dir {
            Some(dir) => directory_of(path@) == Some(dir@),
            None => directory_of(path@) is None,
        },
{
    let chars: Vec<char> = chars_of(path);
    let all: &[char] = chars.as_slice();
    let total: usize = chars.len();
    proof {
        lemma_head_len(path@);
    }
    let verbatim: bool = total >= 4 && chars[0] == '\\' && chars[1] == '\\' && chars[2] == '?'
        && chars[3] == '\\';
    let prefix: usize = if verbatim {
        verbatim_prefix(all)
    } else {
        plain_prefix(all)
    };
    let root: bool = prefix < total && separator(chars[prefix], false);
    let dot: bool = prefix <= 2 && prefix < total && chars[prefix] == '.' && (prefix + 1 == total
        || separator(chars[prefix + 1], false));
    let head: usize = if root || dot {
        prefix + 1
    } else {
        prefix
    };
    assert(path@.take(total as int) == path@);
    let kept: usize = trimmed_end(all, total, head, verbatim);
    if kept > head {
        let start: usize = part_start(all, kept, head, verbatim);
        let cut: usize = if start > head {
            start - 1
        } else {
            head
        };
        assert(path@.take(kept as int).take(cut as int) == path@.take(cut as int));
        let end: usize = trimmed_end(all, cut, head, verbatim);
        let dir: &[char] = slice_subrange(all, 0, end);
        assert(dir@ == path@.take(end as int));
        Some(text_of(dir))
    } else if prefix == 0 && head == 1 && chars[0] == '.' {
        Some(String::new())
    } else {
        None
    }
}

/// Where the result of a request is written: beside the request.
pub fn result_path_for_request(request_path: &str) -> (path: String)
    ensures
        path@ == request_path@ + ".result"@,
{
    let mut path: String = request_path.to_owned();
    path.append(RESULT_SUFFIX);
    path
}

/// The files of a deployment stand in its directory, under their own names: the path of each starts
/// with the directory, or with the prefix of a verbatim one, and ends with the name.
pub proof fn files_stand_in_the_directory(dir: Seq<char>, name: Seq<char>)
    ensures
        name.is_suffix_of(join_of(dir, name)),
        if is_verbatim(dir) {
            dir.take(verbatim_prefix_len(dir) as int).is_prefix_of(join_of(dir, name))
        } else {
            dir.is_prefix_of(join_of(dir, name))
        },
{
    if is_verbatim(dir) {
        lemma_verbatim_prefix_len(dir);
    }
}

/// Where `s` neither starts nor ends with a backslash and has no two in a row, putting its parts
/// behind backslashes gives `s` behind a backslash.
proof fn lemma_parts_of_clean(s: Seq<char>)
    requires
        s.len() > 0 ==> s[0] != '\\' && s.last() != '\\',
        forall|i: int| 0 <= i < s.len() - 1 ==> !(#[trigger] s[i] == '\\' && s[i + 1] == '\\'),
    ensures
        parts_behind_backslashes(s) == if s.len() > 0 {
            seq!['\\'] + s
        } else {
            seq![]
        },
    decreases s.len(),
{
    lemma_index_of(s, '\\');
    let at = index_of(s, '\\') as int;
    if at < s.len() {
        let tail = s.skip(at + 1);
        assert forall|i: int| 0 <= i < tail.len() - 1 implies !(#[trigger] tail[i] == '\\' && tail[i
            + 1] == '\\') by {
            assert(tail[i] == s[at + 1 + i]);
        }
        lemma_parts_of_clean(tail);
        assert(seq!['\\'] + s == seq!['\\'] + s.take(at) + (seq!['\\'] + tail));
    } else {
        assert(s.take(at) == s);
    }
}

/// A verbatim directory that has no backslashes in a row behind its prefix, none at its end and no
/// slash behind its drive stands unchanged before the name, with a backslash between the two.
pub proof fn clean_verbatim_directories_stay(dir: Seq<char>, name: Seq<char>)
    requires
        is_verbatim(dir),
        ({
            let rest = dir.skip(verbatim_prefix_len(dir) as int);
            &&& rest.len() > 0 ==> rest.len() > 1 && rest[0] == '\\' && rest.last() != '\\'
            &&& forall|i: int|
                0 <= i < rest.len() - 1 ==> !(#[trigger] rest[i] == '\\' && rest[i + 1] == '\\')
        }),
    ensures
        join_of(dir, name) == dir + seq!['\\'] + name,
{
    lemma_verbatim_prefix_len(dir);
    let n = verbatim_prefix_len(dir) as int;
    let rest = dir.skip(n);
    if rest.len() > 0 {
        let tail = rest.skip(1);
        assert forall|i: int| 0 <= i < tail.len() - 1 implies !(#[trigger] tail[i] == '\\' && tail[i
            + 1] == '\\') by {
            assert(tail[i] == rest[1 + i]);
        }
        lemma_parts_of_clean(tail);
        assert(parts_behind_backslashes(rest) == parts_behind_backslashes(tail));
    }
    assert(dir == dir.take(n) + rest);
}

/// Files of different names have different paths.
pub proof fn paths_tell_names_apart(dir: Seq<char>, name: Seq<char>, other: Seq<char>)
    ensures
        join_of(dir, name) == join_of(dir, other) <==> name == other,
{
    let skipped = folder_of(dir).len() as int;
    assert(name == join_of(dir, name).skip(skipped));
    assert(other == join_of(dir, other).skip(skipped));
}

/// A name that a file can have in a directory: not empty, without separators, and neither of the
/// names that stand for a directory itself.
pub open spec fn is_file_name(name: Seq<char>) -> bool {
    &&& name.len() > 0
    &&& !name.contains('\\')
    &&& !name.contains('/')
    &&& name != seq!['.']
    &&& name != seq!['.', '.']
}

/// A file stands in the directory under which its path was made: the directory of that path is what
/// was put before the name, without the separators at its end that are not the root's. Left out are
/// directories to which the name belongs as the share of a server or as the name of a device.
pub proof fn joined_files_stand_in_the_directory(dir: Seq<char>, name: Seq<char>)
    requires
        is_file_name(name),
        head_len_of(join_of(dir, name)) == head_len_of(folder_of(dir)),
    ensures
        directory_of(join_of(dir, name)) == Some(
            trimmed_path_of(
                folder_of(dir),
                head_len_of(folder_of(dir)),
                is_verbatim(folder_of(dir)),
            ),
        ),
{
    let folder = folder_of(dir);
    let path = join_of(dir, name);
    let head = head_len_of(folder);
    let verbatim = is_verbatim(folder);
    let at = folder.len();
    lemma_head_len(folder);
    lemma_folder_ends(dir);
    assert forall|i: int| at <= i < path.len() implies !is_separator(path[i], verbatim) by {
        assert(name.contains(name[i - at]));
    }
    assert(is_verbatim(path) == verbatim) by {
        if is_verbatim(path) && folder.len() < 4 {
            assert(name.contains(name[3 - at]));
        }
    }
    lemma_last_part_start_is(path, head, verbatim, at);
    assert(path.skip(at as int) == name);
    assert(cut_at(path, head, at) == cut_at(folder, head, at));
    if at > head {
        assert(last_part_start(folder, head, verbatim) == at);
    } else {
        assert(cut_at(folder, head, at) == folder);
    }
}

/// What stands before the name of a file is a head alone or ends with a separator.
proof fn lemma_folder_ends(dir: Seq<char>)
    ensures
        ({
            let folder = folder_of(dir);
            folder.len() > head_len_of(folder) ==> is_separator(folder.last(), is_verbatim(folder))
        }),
{
    if is_verbatim(dir) {
        lemma_verbatim_prefix_len(dir);
    } else if is_bare_drive(dir) {
        assert(dir + separator_behind(dir) == dir);
        assert(dir.take(2) == dir);
    }
}

proof fn lemma_last_part_start_is(path: Seq<char>, head: nat, verbatim: bool, at: nat)
    requires
        head <= at <= path.len(),
        at > head ==> is_separator(path[at - 1], verbatim),
        forall|i: int| at <= i < path.len() ==> !is_separator(path[i], verbatim),
    ensures
        last_part_start(path, head, verbatim) == at,
{
    lemma_last_part_start(path, head, verbatim);
    let start = last_part_start(path, head, verbatim);
    if start > at {
        assert(is_separator(path[start - 1], verbatim));
    }
}

/// What trimming leaves needs no more trimming, ends with no separator behind the head and, where
/// anything was cut off, had a separator behind it.
proof fn lemma_trimmed_ends(path: Seq<char>, head: nat, verbatim: bool)
    requires
        head <= path.len(),
    ensures
        ({
            let kept = trimmed_path_of(path, head, verbatim);
            &&& head <= kept.len()
            &&& kept.is_prefix_of(path)
            &&& trimmed_path_of(kept, head, verbatim) == kept
            &&& kept.len() > head ==> !is_separator(kept.last(), verbatim)
            &&& head < kept.len() < path.len() ==> is_separator(path[kept.len() as int], verbatim)
        }),
    decreases path.len(),
{
    let start = last_part_start(path, head, verbatim);
    let kept = trimmed_path_of(path, head, verbatim);
    lemma_last_part_start(path, head, verbatim);
    let part = path.skip(start as int);
    if path.len() > head && (part.len() == 0 || (!verbatim && part == seq!['.'])) {
        let cut = cut_at(path, head, start);
        lemma_trimmed_ends(cut, head, verbatim);
        if kept.len() < cut.len() {
            assert(cut[kept.len() as int] == path[kept.len() as int]);
        }
    }
}

/// Parts that end before a separator are found where the text goes on otherwise behind it.
proof fn lemma_part_len_before(path: Seq<char>, m: int, c: char, k: int)
    requires
        0 <= k <= m < path.len(),
        is_separator(path[m], false),
        is_separator(c, false),
    ensures
        part_len(path.take(m).push(c).skip(k)) == part_len(path.skip(k)),
        k + part_len(path.skip(k)) <= m,
    decreases m - k,
{
    let cut = path.take(m).push(c);
    if k < m && !is_separator(path[k], false) {
        lemma_part_len_before(path, m, c, k + 1);
        assert(cut.skip(k).skip(1) == cut.skip(k + 1));
        assert(path.skip(k).skip(1) == path.skip(k + 1));
    }
}

/// A path that is not verbatim keeps its prefix where it is cut off at a separator behind it.
proof fn lemma_prefix_stays(path: Seq<char>, m: int, c: char)
    requires
        plain_prefix_len(path) <= m < path.len(),
        is_separator(path[m], false),
        is_separator(c, false),
    ensures
        plain_prefix_len(path.take(m).push(c)) == plain_prefix_len(path),
{
    let cut = path.take(m).push(c);
    if m >= 2 {
        lemma_part_len_before(path, m, c, 2);
        let server = part_len(path.skip(2)) as int;
        assert(path.skip(2 + server).skip(1) == path.skip(3 + server));
        assert(cut.skip(2 + server).skip(1) == cut.skip(3 + server));
        if 3 + server <= m {
            lemma_part_len_before(path, m, c, 3 + server);
        }
        if m >= 4 {
            lemma_part_len_before(path, m, c, 4);
        }
        assert(cut.take(2) == path.take(2));
    } else if path.len() >= 2 && m == 1 {
        assert(cut.take(2)[1] == c);
    }
}

/// The files beside a file stand in its directory: where `dir` is the directory of `path`, it is
/// the directory of any file that is named in it too. This is said of paths that are not verbatim. Left
/// out are directories to which a name belongs as the share of a server, and one that a name makes
/// verbatim.
pub proof fn files_beside_stand_in_the_same_directory(
    path: Seq<char>,
    dir: Seq<char>,
    name: Seq<char>,
)
    requires
        !is_verbatim(path),
        directory_of(path) == Some(dir),
        is_file_name(name),
        !is_verbatim(folder_of(dir)),
        head_len_of(join_of(dir, name)) == head_len_of(folder_of(dir)),
    ensures
        directory_of(join_of(dir, name)) == Some(dir),
{
    let head = head_len_of(path);
    let folder = folder_of(dir);
    let kept = trimmed_path_of(path, head, false);
    lemma_head_len(path);
    lemma_trimmed_ends(path, head, false);
    joined_files_stand_in_the_directory(dir, name);
    if kept.len() > head {
        let start = last_part_start(kept, head, false);
        let cut = cut_at(kept, head, start);
        lemma_last_part_start(kept, head, false);
        lemma_trimmed_ends(cut, head, false);
        let m = dir.len() as int;
        assert(dir == path.take(m));
        if m > head {
            assert(is_separator(path[m], false)) by {
                if m < cut.len() {
                    assert(cut[m] == path[m]);
                } else {
                    assert(kept[m] == path[m]);
                }
            }
        }
        lemma_folder_of_directory(path, dir);
    } else {
        assert(dir.len() == 0);
        assert(folder == Seq::<char>::empty());
    }
}

/// What stands before the name of a file in a directory that is cut off from `path` is trimmed back
/// to that directory.
proof fn lemma_folder_of_directory(path: Seq<char>, dir: Seq<char>)
    requires
        !is_verbatim(path),
        !is_verbatim(folder_of(dir)),
        head_len_of(path) <= dir.len() < path.len(),
        dir == path.take(dir.len() as int),
        dir.len() > head_len_of(path) ==> is_separator(path[dir.len() as int], false)
            && !is_separator(dir.last(), false) && trimmed_path_of(dir, head_len_of(path), false)
            == dir,
    ensures
        trimmed_path_of(folder_of(dir), head_len_of(folder_of(dir)), false) == dir,
{
    let prefix = prefix_len_of(path) as int;
    let head = head_len_of(path);
    let folder = folder_of(dir);
    let m = dir.len() as int;
    let rest = path.skip(prefix);
    lemma_head_len(path);
    if m > head || (m == head && head == prefix + 1 && path[prefix] == '.') {
        assert(is_separator(path[m], false)) by {
            if m == head {
                assert(rest[1] == path[prefix + 1]);
            }
        }
        assert(!is_bare_drive(dir)) by {
            if is_bare_drive(dir) {
                assert(path.take(2) == dir);
            }
        }
        assert(folder == dir.push('\\'));
        lemma_prefix_stays(path, m, '\\');
        lemma_same_head(path, m, '\\');
        assert(last_part_start(folder, head, false) == folder.len());
        assert(cut_at(folder, head, folder.len()) == dir);
        assert(trimmed_path_of(folder, head, false) == trimmed_path_of(dir, head, false));
    } else if head == prefix + 1 {
        assert(folder == dir);
        assert(dir == path.take(prefix).push(path[prefix]));
        lemma_prefix_stays(path, prefix, path[prefix]);
        assert(head_len_of(dir) == head);
    } else if prefix == 2 {
        assert(path.take(2) == dir);
        assert(dir.take(2) == dir);
        assert(folder == dir);
        assert(head_len_of(dir) == head);
    } else {
        if prefix != 0 {
            lemma_prefix_ends(path);
        }
        assert(dir == Seq::<char>::empty());
        assert(folder == dir);
        assert(head_len_of(dir) == head);
    }
}

/// The head stays with the prefix where a path is cut off at a separator behind it.
proof fn lemma_same_head(path: Seq<char>, m: int, c: char)
    requires
        !is_verbatim(path),
        !is_verbatim(path.take(m).push(c)),
        head_len_of(path) <= m < path.len(),
        is_separator(path[m], false),
        is_separator(c, false),
        m > prefix_len_of(path),
        plain_prefix_len(path.take(m).push(c)) == plain_prefix_len(path),
    ensures
        head_len_of(path.take(m).push(c)) == head_len_of(path),
{
    let cut = path.take(m).push(c);
    let prefix = prefix_len_of(path) as int;
    assert(cut.skip(prefix)[0] == path.skip(prefix)[0]);
    assert(cut.skip(prefix)[1] == cut[prefix + 1]);
}

/// A prefix other than a drive ends with the path or before a separator.
proof fn lemma_prefix_ends(path: Seq<char>)
    requires
        !is_verbatim(path),
        prefix_len_of(path) != 0,
        prefix_len_of(path) != 2,
    ensures
        prefix_len_of(path) == path.len() || is_separator(path[prefix_len_of(path) as int], false),
{
    let behind = path.skip(2 + part_len(path.skip(2)) as int);
    lemma_part_len(path.skip(2));
    if behind.len() > 0 {
        lemma_part_len(behind.skip(1));
    }
    if path.len() >= 4 {
        lemma_part_len(path.skip(4));
    }
}

/// The directory of a path is a beginning of it, and shorter.
pub proof fn directories_are_beginnings(path: Seq<char>)
    ensures
        directory_of(path) matches Some(dir) ==> dir.is_prefix_of(path) && dir.len() < path.len(),
{
    let head = head_len_of(path);
    let verbatim = is_verbatim(path);
    let kept = trimmed_path_of(path, head, verbatim);
    lemma_head_len(path);
    lemma_trimmed_ends(path, head, verbatim);
    if kept.len() > head {
        let start = last_part_start(kept, head, verbatim);
        lemma_last_part_start(kept, head, verbatim);
        lemma_trimmed_ends(cut_at(kept, head, start), head, verbatim);
    }
}

/// Different requests have different results, and no result takes the place of its request.
pub proof fn result_paths_are_distinct(request_path: Seq<char>, other: Seq<char>)
    ensures
        request_path + ".result"@ != request_path,
        request_path + ".result"@ == other + ".result"@ <==> request_path == other,
{
    reveal_strlit(".result");
    let n = ".result"@.len();
    let a = request_path + ".result"@;
    let b = other + ".result"@;
    assert(request_path == a.take(a.len() - n));
    assert(other == b.take(b.len() - n));
}

/// A name is put behind a directory that is not verbatim with one backslash between them, or with
/// none where the directory is empty, ends with a separator or is a letter and a colon; the
/// directory and the name are there in full, and nothing else.
pub proof fn names_are_put_behind_directories(dir: Seq<char>, name: Seq<char>)
    requires
        !(dir.len() >= 4 && dir.take(4) == seq!['\\', '\\', '?', '\\']),
    ensures
        ({
            let path = join_of(dir, name);
            let letter = dir.len() == 2 && dir[1] == ':' && ('A' <= dir[0] <= 'Z' || 'a' <= dir[0]
                <= 'z');
            let bare = dir.len() == 0 || dir.last() == '\\' || dir.last() == '/' || letter;
            &&& bare ==> path == dir + name
            &&& !bare ==> path == dir + seq!['\\'] + name
        }),
{
    if is_verbatim(dir) {
        assert(dir.take(4) == seq!['\\', '\\', '?', '\\']);
    }
    assert(dir + Seq::<char>::empty() + name == dir + name);
}

/// Behind the prefix of a verbatim directory, the parts between backslashes stay, in order and in
/// full, each with one backslash before it; only empty ones are left out, and one backslash more
/// stands before the name.
pub proof fn names_are_put_behind_verbatim_directories(dir: Seq<char>, name: Seq<char>)
    requires
        dir.len() >= 4,
        dir.take(4) == seq!['\\', '\\', '?', '\\'],
    ensures
        ({
            let n = verbatim_prefix_len(dir) as int;
            let rest = dir.skip(n);
            let parts = parts_behind_backslashes(
                if rest.len() > 0 && rest[0] == '/' {
                    rest.skip(1)
                } else {
                    rest
                },
            );
            join_of(dir, name) == dir.take(n) + parts + seq!['\\'] + name
        }),
{
    assert(dir[0] == dir.take(4)[0] && dir[1] == dir.take(4)[1] && dir[2] == dir.take(4)[2]
        && dir[3] == dir.take(4)[3]);
}

/// The parts of two texts with a backslash between them are those of the one and of the other. A
/// text without backslashes is one part, or none where it is empty.
pub proof fn parts_stand_between_backslashes(part: Seq<char>, rest: Seq<char>)
    requires
        !part.contains('\\'),
    ensures
        parts_behind_backslashes(part) == if part.len() > 0 {
            seq!['\\'] + part
        } else {
            seq![]
        },
        parts_behind_backslashes(part + seq!['\\'] + rest) == parts_behind_backslashes(part)
            + parts_behind_backslashes(rest),
{
    let all = part + seq!['\\'] + rest;
    lemma_index_of(part, '\\');
    if index_of(part, '\\') < part.len() {
        assert(part.contains(part[index_of(part, '\\') as int]));
    }
    assert(part.take(part.len() as int) == part);
    assert forall|i: int| 0 <= i < part.len() implies all[i] != '\\' by {
        assert(part.contains(part[i]));
    }
    lemma_index_of_is(all, '\\', part.len() as int);
    assert(all.take(part.len() as int) == part);
    assert(all.skip(part.len() as int + 1) == rest);
}

/// The prefix of a verbatim path: `\\?\` and a drive with nothing or a separator behind it.
pub proof fn verbatim_drives_are_prefixes(letter: char, rest: Seq<char>)
    requires
        'A' <= letter <= 'Z' || 'a' <= letter <= 'z',
        rest.len() > 0 ==> rest[0] == '\\' || rest[0] == '/',
    ensures
        verbatim_prefix_len(seq!['\\', '\\', '?', '\\', letter, ':'] + rest) == 6,
{
    let dir = seq!['\\', '\\', '?', '\\', letter, ':'] + rest;
    assert(dir.subrange(4, 6) == seq![letter, ':']);
}

/// The prefix of a verbatim path: `\\?\UNC\`, a server and its share.
pub proof fn verbatim_shares_are_prefixes(server: Seq<char>, share: Seq<char>, rest: Seq<char>)
    requires
        !server.contains('\\'),
        !share.contains('\\'),
        rest.len() > 0 ==> rest[0] == '\\',
    ensures
        verbatim_prefix_len(
            seq!['\\', '\\', '?', '\\', 'U', 'N', 'C', '\\'] + server + seq!['\\'] + share + rest,
        ) == if share.len() > 0 {
            8 + server.len() + 1 + share.len()
        } else {
            8 + server.len()
        },
{
    let mark = seq!['\\', '\\', '?', '\\', 'U', 'N', 'C', '\\'];
    let dir = mark + server + seq!['\\'] + share + rest;
    let behind_mark = server + seq!['\\'] + share + rest;
    let behind_server = share + rest;
    assert(dir.skip(8) == behind_mark);
    assert forall|i: int| 0 <= i < server.len() implies behind_mark[i] != '\\' by {
        assert(server.contains(server[i]));
    }
    lemma_index_of_is(behind_mark, '\\', server.len() as int);
    assert(dir.skip(8 + server.len() as int).skip(1) == behind_server);
    assert forall|i: int| 0 <= i < share.len() implies behind_server[i] != '\\' by {
        assert(share.contains(share[i]));
    }
    lemma_index_of_is(behind_server, '\\', share.len() as int);
}

/// The prefix of any other verbatim path goes up to the next backslash.
pub proof fn other_verbatim_prefixes_end_at_a_backslash(first: Seq<char>, rest: Seq<char>)
    requires
        !first.contains('\\'),
        rest.len() > 0 ==> rest[0] == '\\',
        !(first.len() >= 2 && first[1] == ':' && ('A' <= first[0] <= 'Z' || 'a' <= first[0] <= 'z')
            && (first.len() == 2 || first[2] == '/')),
        !(first.len() >= 3 && first.take(3) == seq!['U', 'N', 'C'] && (first.len() == 3 || first[3]
            == '/')),
    ensures
        verbatim_prefix_len(seq!['\\', '\\', '?', '\\'] + first + rest) == 4 + first.len(),
{
    let dir = seq!['\\', '\\', '?', '\\'] + first + rest;
    let behind = first + rest;
    assert(dir.skip(4) == behind);
    assert forall|i: int| 0 <= i < first.len() implies behind[i] != '\\' by {
        assert(first.contains(first[i]));
    }
    lemma_index_of_is(behind, '\\', first.len() as int);
    if names_drive(dir) {
        assert(dir.subrange(4, 6)[0] == dir[4] && dir.subrange(4, 6)[1] == dir[5]);
        if first.len() >= 2 {
            assert(dir[4] == first[0] && dir[5] == first[1]);
            if first.len() > 2 {
                assert(dir[6] == first[2]);
                assert(first.contains(first[2]));
            }
        }
    }
    if names_server(dir) {
        assert(first.len() >= 3) by {
            if first.len() < 3 {
                assert(dir[4 + first.len() as int] == rest[0]);
            }
        }
        assert(dir[4] == first[0] && dir[5] == first[1] && dir[6] == first[2]);
        assert(first.take(3) == seq!['U', 'N', 'C']);
        if first.len() > 3 {
            assert(dir[7] == first[3]);
            assert(first.contains(first[3]));
        }
    }
}

/// On a drive, a file stands in the directory under which it is named, whatever that is called and
/// however deep it lies: the path is the directory, a backslash where there is none yet, and the
/// name, and the directory of that path is the directory.
pub proof fn files_on_a_drive_stand_in_their_directory(dir: Seq<char>, name: Seq<char>)
    requires
        dir.len() >= 3,
        'A' <= dir[0] <= 'Z' || 'a' <= dir[0] <= 'z',
        dir[1] == ':',
        dir[2] == '\\' || dir[2] == '/',
        dir.len() > 3 ==> dir.last() != '\\' && dir.last() != '/' && !(dir.last() == '.' && (
        dir[dir.len() - 2] == '\\' || dir[dir.len() - 2] == '/')),
        name.len() > 0,
        !name.contains('\\'),
        !name.contains('/'),
        name != seq!['.'],
        name != seq!['.', '.'],
    ensures
        dir.len() == 3 ==> directory_of(dir + name) == Some(dir) && join_of(dir, name) == dir
            + name,
        dir.len() > 3 ==> directory_of(dir + seq!['\\'] + name) == Some(dir) && join_of(dir, name)
            == dir + seq!['\\'] + name,
{
    let folder = folder_of(dir);
    let path = join_of(dir, name);
    assert(is_file_name(name));
    assert(dir.take(2) == seq![dir[0], ':']);
    assert(folder.take(2) == dir.take(2));
    assert(path.take(2) == dir.take(2));
    assert(folder.skip(2)[0] == dir[2]);
    assert(path.skip(2)[0] == dir[2]);
    assert(head_len_of(folder) == 3);
    assert(head_len_of(path) == 3);
    joined_files_stand_in_the_directory(dir, name);
    if dir.len() > 3 {
        assert(folder == dir + seq!['\\']);
        assert(last_part_start(folder, 3, false) == folder.len());
        assert(cut_at(folder, 3, folder.len()) == dir);
        lemma_last_part_start(dir, 3, false);
        let start = last_part_start(dir, 3, false);
        let part = dir.skip(start as int);
        assert(start < dir.len());
        if part == seq!['.'] {
            assert(part.len() == 1);
            assert(part[0] == '.');
            assert(start == dir.len() - 1);
        }
        assert(trimmed_path_of(dir, 3, false) == dir);
    } else {
        assert(folder == dir);
    }
}

/// On a server's share, a file stands in the directory under which it is named: that of the share's
/// root is the root, and deeper directories are those that were written.
#[verifier::rlimit(60)]
pub proof fn files_on_a_share_stand_in_their_directory(
    server: Seq<char>,
    share: Seq<char>,
    sub: Seq<char>,
    name: Seq<char>,
)
    requires
        server.len() > 0,
        share.len() > 0,
        server != seq!['.'],
        server != seq!['?'],
        forall|i: int| 0 <= i < server.len() ==> server[i] != '\\' && server[i] != '/',
        forall|i: int| 0 <= i < share.len() ==> share[i] != '\\' && share[i] != '/',
        sub.len() > 0 ==> sub[0] != '\\' && sub[0] != '/' && sub.last() != '\\' && sub.last() != '/'
            && sub.last() != '.',
        name.len() > 0,
        !name.contains('\\'),
        !name.contains('/'),
        name != seq!['.'],
        name != seq!['.', '.'],
    ensures
        ({
            let root = seq!['\\', '\\'] + server + seq!['\\'] + share + seq!['\\'];
            &&& sub.len() == 0 ==> directory_of(root + name) == Some(root)
            &&& sub.len() > 0 ==> directory_of(root + sub + seq!['\\'] + name) == Some(root + sub)
        }),
{
    let root = seq!['\\', '\\'] + server + seq!['\\'] + share + seq!['\\'];
    let dir = root + sub;
    let folder = folder_of(dir);
    let path = join_of(dir, name);
    let n = root.len();
    assert(is_file_name(name));
    assert(dir[2] == server[0]);
    assert(!is_verbatim(dir)) by {
        if is_verbatim(dir) {
            if server.len() == 1 {
                assert(server == seq!['?']);
            } else {
                assert(dir[3] == server[1]);
            }
        }
    }
    assert(folder == if sub.len() > 0 {
        dir + seq!['\\']
    } else {
        dir
    }) by {
        assert(sub.len() > 0 ==> dir.last() == sub.last());
        assert(dir + separator_behind(dir) == folder);
        assert(sub.len() == 0 ==> dir == root);
    }
    assert(sub.len() == 0 ==> dir == root);
    lemma_share_head(server, share, folder.skip(n as int));
    lemma_share_head(server, share, path.skip(n as int));
    assert(folder == root + folder.skip(n as int));
    assert(path == root + path.skip(n as int));
    assert(!is_verbatim(folder)) by {
        assert(folder[0] == dir[0] && folder[1] == dir[1] && folder[2] == dir[2] && folder[3]
            == dir[3]);
    }
    joined_files_stand_in_the_directory(dir, name);
    if sub.len() > 0 {
        assert(path == root + sub + seq!['\\'] + name);
        assert(last_part_start(folder, n, false) == folder.len());
        assert(cut_at(folder, n, folder.len()) == dir);
        lemma_last_part_start(dir, n, false);
        let start = last_part_start(dir, n, false);
        let part = dir.skip(start as int);
        assert(dir.last() == sub.last());
        assert(start < dir.len());
        assert(part.last() == dir.last());
        assert(trimmed_path_of(dir, n, false) == dir);
    } else {
        assert(path == root + name);
    }
}

proof fn lemma_share_head(server: Seq<char>, share: Seq<char>, rest: Seq<char>)
    requires
        server.len() > 0,
        share.len() > 0,
        server != seq!['.'],
        server != seq!['?'],
        forall|i: int| 0 <= i < server.len() ==> server[i] != '\\' && server[i] != '/',
        forall|i: int| 0 <= i < share.len() ==> share[i] != '\\' && share[i] != '/',
    ensures
        ({
            let root = seq!['\\', '\\'] + server + seq!['\\'] + share + seq!['\\'];
            head_len_of(root + rest) == root.len()
        }),
{
    let root = seq!['\\', '\\'] + server + seq!['\\'] + share + seq!['\\'];
    let path = root + rest;
    let k = server.len() as int;
    assert(path[2] == server[0]);
    assert(!is_verbatim(path) && !(path[2] == '.' && is_separator(path[3], false))) by {
        if server.len() == 1 {
            assert(server[0] == '?' ==> server == seq!['?']);
            assert(server[0] == '.' ==> server == seq!['.']);
        } else {
            assert(path[3] == server[1]);
        }
    }
    let behind_mark = path.skip(2);
    assert(behind_mark == server + (seq!['\\'] + share + seq!['\\'] + rest));
    lemma_part_len_of(behind_mark, k);
    let behind = path.skip(2 + k).skip(1);
    assert(behind == share + (seq!['\\'] + rest));
    lemma_part_len_of(behind, share.len() as int);
    let n = 2 + k + 1 + share.len() as int;
    assert(path.skip(n)[0] == '\\');
}

proof fn lemma_part_len_of(s: Seq<char>, n: int)
    requires
        0 <= n < s.len(),
        is_separator(s[n], false),
        forall|i: int| 0 <= i < n ==> !is_separator(s[i], false),
    ensures
        part_len(s) == n,
{
    lemma_part_len(s);
}

/// A path that is empty or a drive, or that stands for a root, is in no directory.
pub proof fn roots_are_in_no_directory(letter: char)
    requires
        'A' <= letter <= 'Z' || 'a' <= letter <= 'z',
    ensures
        directory_of(seq![]) is None,
        directory_of(seq![letter, ':']) is None,
        directory_of(seq![letter, ':', '\\']) is None,
        directory_of(seq!['\\']) is None,
{
    let drive = seq![letter, ':'];
    let root = seq![letter, ':', '\\'];
    assert(drive.take(2) == drive);
    assert(root.take(2) == drive);
    assert(root.skip(2)[0] == '\\');
    assert(seq!['\\'].skip(0)[0] == '\\');
    assert(head_len_of(drive) == 2);
    assert(head_len_of(root) == 3);
    assert(head_len_of(seq!['\\']) == 1);
}

/// Away from any root, a file stands in the directory under which it is named, and in the empty one
/// where it is named alone.
pub proof fn relative_files_stand_in_their_directory(dir: Seq<char>, name: Seq<char>)
    requires
        dir.len() > 0 ==> {
            &&& dir[0] != '\\' && dir[0] != '/' && dir[0] != '.'
            &&& dir.last() != '\\' && dir.last() != '/' && dir.last() != '.'
        },
        dir.len() >= 2 ==> dir[1] != ':',
        name.len() > 0,
        name[0] != '.',
        name.len() >= 2 ==> name[1] != ':',
        !name.contains('\\'),
        !name.contains('/'),
    ensures
        dir.len() == 0 ==> directory_of(name) == Some(dir),
        dir.len() > 0 ==> directory_of(dir + seq!['\\'] + name) == Some(dir),
{
    let folder = folder_of(dir);
    let path = join_of(dir, name);
    assert(name != seq!['.'] && name != seq!['.', '.']) by {
        assert(seq!['.'][0] == '.' && seq!['.', '.'][0] == '.');
    }
    assert(is_file_name(name));
    assert(name.contains(name[0]));
    if dir.len() > 0 {
        assert(folder == dir + seq!['\\']);
        assert(path == dir + seq!['\\'] + name);
        assert(folder[0] == dir[0] && path[0] == dir[0]);
        assert(folder.take(2)[1] == folder[1] && path.take(2)[1] == path[1]);
        assert(folder[1] == path[1]);
        assert(folder[1] != ':');
        assert(folder.skip(0) == folder && path.skip(0) == path);
        assert(head_len_of(folder) == 0);
        assert(head_len_of(path) == 0);
        joined_files_stand_in_the_directory(dir, name);
        assert(last_part_start(folder, 0, false) == folder.len());
        assert(cut_at(folder, 0, folder.len()) == dir);
        lemma_last_part_start(dir, 0, false);
        let start = last_part_start(dir, 0, false);
        let part = dir.skip(start as int);
        assert(start < dir.len());
        assert(part.last() == dir.last());
        assert(trimmed_path_of(dir, 0, false) == dir);
    } else {
        assert(folder == dir);
        assert(path == name);
        assert(name.skip(0) == name && dir.skip(0) == dir);
        if name.len() >= 2 {
            assert(name.take(2)[1] == name[1]);
            assert(name.contains(name[1]));
        }
        assert(head_len_of(folder) == 0);
        assert(head_len_of(path) == 0);
        joined_files_stand_in_the_directory(dir, name);
    }
}

/// A separator behind the last part of a path makes no difference to its directory.
pub proof fn separators_at_the_end_make_no_difference(path: Seq<char>)
    requires
        head_len_of(path.push('\\')) == head_len_of(path),
        prefix_len_of(path.push('\\')) == prefix_len_of(path),
        is_verbatim(path.push('\\')) == is_verbatim(path),
        path.len() > head_len_of(path),
    ensures
        directory_of(path.push('\\')) == directory_of(path),
{
    let longer = path.push('\\');
    let head = head_len_of(path);
    let verbatim = is_verbatim(path);
    assert(last_part_start(longer, head, verbatim) == longer.len());
    assert(cut_at(longer, head, longer.len()) == path);
}

} // verus!
