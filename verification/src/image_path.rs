//! The file name at the end of a Windows path.
//!
//! A Windows path is an optional prefix (a drive, a network share, a device, or one of the
//! verbatim `\\?\` forms) followed by components. Both slashes separate components, except behind
//! a verbatim prefix, where only the backslash does.

use vstd::prelude::*;

verus! {

/// Either slash.
pub open spec fn is_slash(c: char) -> bool {
    c == '\\' || c == '/'
}

/// Whether `c` separates components.
pub open spec fn separates(c: char, verbatim: bool) -> bool {
    c == '\\' || (c == '/' && !verbatim)
}

/// An ASCII letter, which is what a drive may be named.
pub open spec fn is_drive_letter(c: char) -> bool {
    ('a' <= c && c <= 'z') || ('A' <= c && c <= 'Z')
}

/// Where the component that begins at `from` ends: at the next separator, or with the path.
pub open spec fn component_end(path: Seq<char>, from: int, verbatim: bool) -> int
    decreases path.len() - from,
{
    if from < 0 || from >= path.len() {
        path.len() as int
    } else if separates(path[from], verbatim) {
        from
    } else {
        component_end(path, from + 1, verbatim)
    }
}

/// Where a `server\share` pair that begins at `from` ends, the separator before an empty share left
/// out.
pub open spec fn share_end(path: Seq<char>, from: int, verbatim: bool) -> int {
    let server = component_end(path, from, verbatim);
    let share = component_end(path, server + 1, verbatim);
    if server < path.len() && share > server + 1 {
        share
    } else {
        server
    }
}

/// Whether the path begins with `\\?\`, spelled with backslashes only.
pub open spec fn is_verbatim(path: Seq<char>) -> bool {
    path.len() >= 4 && path[0] == '\\' && path[1] == '\\' && path[2] == '?' && path[3] == '\\'
}

/// Whether a drive such as `C:` stands at `at`.
pub open spec fn drive_at(path: Seq<char>, at: int) -> bool {
    path.len() >= at + 2 && is_drive_letter(path[at]) && path[at + 1] == ':'
}

/// How many characters of the path are its prefix.
pub open spec fn prefix_len(path: Seq<char>) -> int {
    if is_verbatim(path) {
        if path.len() >= 8 && path[4] == 'U' && path[5] == 'N' && path[6] == 'C' && is_slash(
            path[7],
        ) {
            // \\?\UNC\server\share
            share_end(path, 8, true)
        } else if drive_at(path, 4) && (path.len() == 6 || is_slash(path[6])) {
            // \\?\C:
            6
        } else {
            // \\?\name
            component_end(path, 4, true)
        }
    } else if path.len() >= 2 && is_slash(path[0]) && is_slash(path[1]) {
        if path.len() >= 4 && path[2] == '.' && is_slash(path[3]) {
            // \\.\device
            component_end(path, 4, false)
        } else {
            let server = component_end(path, 2, false);
            let share = component_end(path, server + 1, false);
            if server > 2 && server < path.len() && share > server + 1 {
                // \\server\share
                share
            } else {
                0
            }
        }
    } else if drive_at(path, 0) {
        // C:
        2
    } else {
        0
    }
}

/// Where the components begin: behind the prefix and the root slash, if there is one.
pub open spec fn body_start(path: Seq<char>) -> int {
    let prefix = prefix_len(path);
    if prefix < path.len() && is_slash(path[prefix]) {
        prefix + 1
    } else {
        prefix
    }
}

/// Where the component that ends at `end` begins, no earlier than `start`.
pub open spec fn component_start(path: Seq<char>, start: int, end: int, verbatim: bool) -> int
    decreases end - start,
{
    if end <= start || separates(path[end - 1], verbatim) {
        end
    } else {
        component_start(path, start, end - 1, verbatim)
    }
}

/// The last component of `path[start..end]`, if it names something. Empty components do not count,
/// nor does `.` in an ordinary path; `..`, and `.` in a verbatim path, name no file.
pub open spec fn last_name(path: Seq<char>, start: int, end: int, verbatim: bool) -> Option<
    Seq<char>,
>
    decreases end - start,
    via last_name_decreases
{
    if end <= start {
        None
    } else {
        let from = component_start(path, start, end, verbatim);
        let name = path.subrange(from, end);
        if name.len() == 0 || (name == seq!['.'] && !verbatim) {
            if from <= start {
                None
            } else {
                last_name(path, start, from - 1, verbatim)
            }
        } else if name == seq!['.'] || name == seq!['.', '.'] {
            None
        } else {
            Some(name)
        }
    }
}

#[via_fn]
proof fn last_name_decreases(path: Seq<char>, start: int, end: int, verbatim: bool) {
    if end > start {
        lemma_component_start_bounds(path, start, end, verbatim);
    }
}

proof fn lemma_component_start_bounds(path: Seq<char>, start: int, end: int, verbatim: bool)
    requires
        start <= end,
    ensures
        start <= component_start(path, start, end, verbatim) <= end,
    decreases end - start,
{
    if end > start && !separates(path[end - 1], verbatim) {
        lemma_component_start_bounds(path, start, end - 1, verbatim);
    }
}

proof fn lemma_component_end_bounds(path: Seq<char>, from: int, verbatim: bool)
    requires
        0 <= from,
    ensures
        from <= path.len() ==> from <= component_end(path, from, verbatim),
        component_end(path, from, verbatim) <= path.len(),
    decreases path.len() - from,
{
    if from < path.len() && !separates(path[from], verbatim) {
        lemma_component_end_bounds(path, from + 1, verbatim);
    }
}

/// The file name that a Windows path ends in.
pub open spec fn name_in(path: Seq<char>) -> Option<Seq<char>> {
    last_name(path, body_start(path), path.len() as int, is_verbatim(path))
}

fn slash(c: char) -> (yes: bool)
    ensures
        yes == is_slash(c),
{
    c == '\\' || c == '/'
}

fn find_component_end(path: &[char], from: usize, verbatim: bool) -> (end: usize)
    requires
        from <= path.len(),
    ensures
        end == component_end(path@, from as int, verbatim),
        from <= end <= path.len(),
{
    let mut end: usize = from;
    while end < path.len() && !(path[end] == '\\' || (path[end] == '/' && !verbatim))
        invariant
            from <= end <= path.len(),
            component_end(path@, from as int, verbatim) == component_end(
                path@,
                end as int,
                verbatim,
            ),
        decreases path.len() - end,
    {
        end += 1;
    }
    end
}

fn find_drive(path: &[char], at: usize) -> (found: bool)
    requires
        at <= 4,
    ensures
        found == drive_at(path@, at as int),
{
    path.len() >= at + 2 && (('a' <= path[at] && path[at] <= 'z') || ('A' <= path[at] && path[at]
        <= 'Z')) && path[at + 1] == ':'
}

fn starts_verbatim(path: &[char]) -> (yes: bool)
    ensures
        yes == is_verbatim(path@),
{
    path.len() >= 4 && path[0] == '\\' && path[1] == '\\' && path[2] == '?' && path[3] == '\\'
}

fn find_prefix_len(path: &[char]) -> (len: usize)
    ensures
        len == prefix_len(path@),
        len <= path.len(),
{
    if starts_verbatim(path) {
        if path.len() >= 8 && path[4] == 'U' && path[5] == 'N' && path[6] == 'C' && slash(path[7]) {
            let server: usize = find_component_end(path, 8, true);
            if server < path.len() {
                let share: usize = find_component_end(path, server + 1, true);
                if share > server + 1 {
                    return share;
                }
            }
            server
        } else if find_drive(path, 4) && (path.len() == 6 || slash(path[6])) {
            6
        } else {
            find_component_end(path, 4, true)
        }
    } else if path.len() >= 2 && slash(path[0]) && slash(path[1]) {
        if path.len() >= 4 && path[2] == '.' && slash(path[3]) {
            find_component_end(path, 4, false)
        } else {
            let server: usize = find_component_end(path, 2, false);
            if server > 2 && server < path.len() {
                let share: usize = find_component_end(path, server + 1, false);
                if share > server + 1 {
                    return share;
                }
            }
            0
        }
    } else if find_drive(path, 0) {
        2
    } else {
        0
    }
}

fn find_component_start(path: &[char], start: usize, end: usize, verbatim: bool) -> (from: usize)
    requires
        start <= end <= path.len(),
    ensures
        from == component_start(path@, start as int, end as int, verbatim),
        start <= from <= end,
{
    let mut from: usize = end;
    while from > start && !(path[from - 1] == '\\' || (path[from - 1] == '/' && !verbatim))
        invariant
            start <= from <= end <= path.len(),
            component_start(path@, start as int, end as int, verbatim) == component_start(
                path@,
                start as int,
                from as int,
                verbatim,
            ),
        decreases from,
    {
        from -= 1;
    }
    from
}

/// The file name that a Windows path ends in, or `None` when it ends in none: a bare root, prefix
/// or `..`.
pub fn file_name(path: &[char]) -> (name: Option<Vec<char>>)
    ensures
        name is Some <==> name_in(path@) is Some,
        name is Some ==> name->0@ == name_in(path@)->0,
{
    let verbatim = starts_verbatim(path);
    let prefix: usize = find_prefix_len(path);
    let start: usize = if prefix < path.len() && slash(path[prefix]) {
        prefix + 1
    } else {
        prefix
    };
    let mut end: usize = path.len();
    while end > start
        invariant
            start <= path.len(),
            end <= path.len(),
            last_name(path@, start as int, end as int, verbatim) == last_name(
                path@,
                start as int,
                path.len() as int,
                verbatim,
            ),
            start == body_start(path@),
            verbatim == is_verbatim(path@),
        decreases end,
    {
        let from: usize = find_component_start(path, start, end, verbatim);
        let ghost name = path@.subrange(from as int, end as int);
        let dot = end - from == 1 && path[from] == '.';
        let dots = end - from == 2 && path[from] == '.' && path[from + 1] == '.';
        proof {
            assert(name.len() == end - from);
            if from < end && path@[from as int] == '.' {
                assert(dot ==> name =~= seq!['.']);
                assert(dots ==> name =~= seq!['.', '.']);
            }
            if name == seq!['.'] || name == seq!['.', '.'] {
                assert(name[0] == path@[from as int]);
                assert(name.len() == 2 ==> name[1] == path@[from + 1]);
            }
        }
        if from == end || (dot && !verbatim) {
            if from == start {
                return None;
            }
            end = from - 1;
        } else if dot || dots {
            return None;
        } else {
            return Some(vstd::slice::slice_to_vec(vstd::slice::slice_subrange(path, from, end)));
        }
    }
    None
}

} // verus!
