//! Which part of a path is its file name, for every form of path that Windows has.

use vstd::prelude::*;

use crate::image_path;

verus! {

/// Whether `name` can be the name of a file: it is not empty, holds neither slash, and is neither
/// `.` nor `..`.
pub open spec fn is_plain_name(name: Seq<char>) -> bool {
    &&& name.len() > 0
    &&& forall|i: int| 0 <= i < name.len() ==> #[trigger] name[i] != '\\' && name[i] != '/'
    &&& name != seq!['.']
    &&& name != seq!['.', '.']
}

/// Whether `c` is the backslash or the slash.
pub open spec fn either_slash(c: char) -> bool {
    c == '\\' || c == '/'
}

/// Whether `path` begins with a drive, a letter and a colon.
pub open spec fn has_drive(path: Seq<char>) -> bool {
    path.len() >= 2 && (('a' <= path[0] && path[0] <= 'z') || ('A' <= path[0] && path[0] <= 'Z'))
        && path[1] == ':'
}

/// A component ends at its next separator.
proof fn lemma_component_end(path: Seq<char>, from: int, to: int, verbatim: bool)
    requires
        0 <= from <= to <= path.len(),
        forall|i: int| from <= i < to ==> !image_path::separates(#[trigger] path[i], verbatim),
        to == path.len() || image_path::separates(path[to], verbatim),
    ensures
        image_path::component_end(path, from, verbatim) == to,
    decreases to - from,
{
    if from < to {
        assert(!image_path::separates(path[from], verbatim));
        lemma_component_end(path, from + 1, to, verbatim);
    }
}

/// A component begins behind the separator before it.
proof fn lemma_component_start(path: Seq<char>, start: int, from: int, end: int, verbatim: bool)
    requires
        0 <= start <= from <= end <= path.len(),
        from == start || image_path::separates(path[from - 1], verbatim),
        forall|i: int| from <= i < end ==> !image_path::separates(#[trigger] path[i], verbatim),
    ensures
        image_path::component_start(path, start, end, verbatim) == from,
    decreases end - from,
{
    if end > from {
        lemma_component_start(path, start, from, end - 1, verbatim);
    }
}

/// What stands behind the last separator is the name, where it can be one.
proof fn lemma_name_behind(path: Seq<char>, from: int)
    requires
        0 <= image_path::body_start(path) <= from < path.len(),
        ({
            let verbatim = image_path::is_verbatim(path);
            let name = path.skip(from);
            &&& from == image_path::body_start(path) || image_path::separates(
                path[from - 1],
                verbatim,
            )
            &&& forall|i: int|
                from <= i < path.len() ==> !image_path::separates(#[trigger] path[i], verbatim)
            &&& name != seq!['.']
            &&& name != seq!['.', '.']
        }),
    ensures
        image_path::name_in(path) == Some(path.skip(from)),
{
    let start = image_path::body_start(path);
    let end = path.len() as int;
    lemma_component_start(path, start, from, end, image_path::is_verbatim(path));
    assert(path.subrange(from, end) =~= path.skip(from));
}

/// The name does not depend on what stands behind the end.
proof fn lemma_same_name(a: Seq<char>, b: Seq<char>, start: int, end: int, verbatim: bool)
    requires
        0 <= start,
        end <= a.len(),
        end <= b.len(),
        forall|i: int| 0 <= i < end ==> #[trigger] a[i] == b[i],
    ensures
        image_path::last_name(a, start, end, verbatim) == image_path::last_name(
            b,
            start,
            end,
            verbatim,
        ),
    decreases end - start,
{
    if end > start {
        lemma_same_start(a, b, start, end, verbatim);
        let from = image_path::component_start(a, start, end, verbatim);
        assert(a.subrange(from, end) =~= b.subrange(from, end));
        if from > start {
            lemma_same_name(a, b, start, from - 1, verbatim);
        }
    }
}

proof fn lemma_same_start(a: Seq<char>, b: Seq<char>, start: int, end: int, verbatim: bool)
    requires
        0 <= start <= end,
        end <= a.len(),
        end <= b.len(),
        forall|i: int| 0 <= i < end ==> #[trigger] a[i] == b[i],
    ensures
        image_path::component_start(a, start, end, verbatim) == image_path::component_start(
            b,
            start,
            end,
            verbatim,
        ),
        start <= image_path::component_start(a, start, end, verbatim) <= end,
    decreases end - start,
{
    if end > start {
        assert(a[end - 1] == b[end - 1]);
        if !image_path::separates(a[end - 1], verbatim) {
            lemma_same_start(a, b, start, end - 1, verbatim);
        }
    }
}

/// In a path on a drive the file name is what stands behind the last slash of either kind.
pub proof fn law_name_on_a_drive(dir: Seq<char>, c: char, name: Seq<char>)
    requires
        has_drive(dir),
        either_slash(c),
        is_plain_name(name),
    ensures
        image_path::name_in(dir + seq![c] + name) == Some(name),
{
    let path = dir + seq![c] + name;
    let from = dir.len() as int + 1;
    assert(path[0] == dir[0] && path[1] == dir[1]);
    assert(path[from - 1] == c);
    assert(image_path::prefix_len(path) == 2);
    assert forall|i: int| from <= i < path.len() implies !image_path::separates(
        #[trigger] path[i],
        false,
    ) by {
        assert(path[i] == name[i - from]);
    }
    assert(path.skip(from) =~= name);
    lemma_name_behind(path, from);
}

/// A name right behind a drive is the file name too.
pub proof fn law_name_relative_to_a_drive(drive: Seq<char>, name: Seq<char>)
    requires
        has_drive(drive),
        drive.len() == 2,
        is_plain_name(name),
    ensures
        image_path::name_in(drive + name) == Some(name),
{
    let path = drive + name;
    assert(path[0] == drive[0] && path[1] == drive[1]);
    assert(path[2] == name[0]);
    assert(image_path::body_start(path) == 2);
    assert forall|i: int| 2 <= i < path.len() implies !image_path::separates(
        #[trigger] path[i],
        false,
    ) by {
        assert(path[i] == name[i - 2]);
    }
    assert(path.skip(2) =~= name);
    lemma_name_behind(path, 2);
}

/// Without a drive, a share or a device in front, the file name is what stands behind the last
/// slash, or the whole path where it has none.
pub proof fn law_name_without_a_prefix(dir: Seq<char>, c: char, name: Seq<char>)
    requires
        either_slash(c),
        is_plain_name(name),
        !has_drive(dir + seq![c] + name),
        !(dir.len() >= 1 && either_slash(dir[0]) && either_slash((dir + seq![c])[1])),
    ensures
        image_path::name_in(dir + seq![c] + name) == Some(name),
        !has_drive(name) ==> image_path::name_in(name) == Some(name),
{
    let path = dir + seq![c] + name;
    let from = dir.len() as int + 1;
    assert(path[from - 1] == c);
    assert(path[from] == name[0]);
    if dir.len() >= 1 {
        assert(path[0] == dir[0]);
        assert(path[1] == (dir + seq![c])[1]);
    }
    assert(image_path::prefix_len(path) == 0);
    assert forall|i: int| from <= i < path.len() implies !image_path::separates(
        #[trigger] path[i],
        false,
    ) by {
        assert(path[i] == name[i - from]);
    }
    assert(path.skip(from) =~= name);
    lemma_name_behind(path, from);
    if !has_drive(name) {
        assert(image_path::body_start(name) == 0);
        assert forall|i: int| 0 <= i < name.len() implies !image_path::separates(
            #[trigger] name[i],
            false,
        ) by {}
        assert(name.skip(0) =~= name);
        lemma_name_behind(name, 0);
    }
}

/// A slash at the end of a path on a drive changes nothing.
pub proof fn law_trailing_slash_does_not_count(path: Seq<char>, c: char)
    requires
        has_drive(path),
        either_slash(c),
    ensures
        image_path::name_in(path.push(c)) == image_path::name_in(path),
{
    let longer = path.push(c);
    let end = path.len() as int;
    assert(longer[0] == path[0] && longer[1] == path[1]);
    assert(image_path::prefix_len(longer) == 2 && image_path::prefix_len(path) == 2);
    if end > 2 {
        assert(longer[2] == path[2]);
        let start = image_path::body_start(path);
        assert(image_path::body_start(longer) == start);
        lemma_component_start(longer, start, end + 1, end + 1, false);
        assert(longer.subrange(end + 1, end + 1).len() == 0);
        lemma_same_name(longer, path, start, end, false);
    }
}

/// Neither does a `.` at its end.
pub proof fn law_trailing_dot_does_not_count(path: Seq<char>, c: char)
    requires
        has_drive(path),
        either_slash(c),
    ensures
        image_path::name_in(path + seq![c, '.']) == image_path::name_in(path),
{
    let longer = path + seq![c, '.'];
    let end = path.len() as int;
    assert(longer[0] == path[0] && longer[1] == path[1]);
    assert(longer[end] == c && longer[end + 1] == '.');
    assert(image_path::prefix_len(longer) == 2 && image_path::prefix_len(path) == 2);
    if end > 2 {
        assert(longer[2] == path[2]);
    }
    let start = image_path::body_start(longer);
    lemma_component_start(longer, start, end + 1, end + 2, false);
    assert(longer.subrange(end + 1, end + 2) =~= seq!['.']);
    if end > 2 {
        assert(image_path::body_start(path) == start);
        lemma_same_name(longer, path, start, end, false);
    }
}

/// A path on a drive that ends in `..`, or in the drive or its root, names no file.
pub proof fn law_parent_and_root_name_no_file(path: Seq<char>, c: char)
    requires
        has_drive(path),
        either_slash(c),
    ensures
        image_path::name_in(path + seq![c, '.', '.']) is None,
        path.len() == 2 ==> image_path::name_in(path) is None,
        path.len() == 2 ==> image_path::name_in(path.push(c)) is None,
{
    let longer = path + seq![c, '.', '.'];
    let end = path.len() as int;
    assert(longer[0] == path[0] && longer[1] == path[1]);
    assert(longer[end] == c && longer[end + 1] == '.' && longer[end + 2] == '.');
    assert(image_path::prefix_len(longer) == 2);
    let start = image_path::body_start(longer);
    lemma_component_start(longer, start, end + 1, end + 3, false);
    assert(longer.subrange(end + 1, end + 3) =~= seq!['.', '.']);
    assert(longer.subrange(end + 1, end + 3).len() == 2);
    if end == 2 {
        law_trailing_slash_does_not_count(path, c);
    }
}

/// Whether `path` begins with `\\server\share`, written with any slashes.
pub open spec fn has_share(path: Seq<char>, server: Seq<char>, share: Seq<char>) -> bool {
    let n = server.len() as int;
    let m = share.len() as int;
    &&& is_plain_name(server) && server != seq!['?']
    &&& m > 0 && forall|i: int| 0 <= i < m ==> !either_slash(#[trigger] share[i])
    &&& path.len() >= n + m + 3
    &&& either_slash(path[0]) && either_slash(path[1])
    &&& path.subrange(2, n + 2) == server
    &&& either_slash(path[n + 2])
    &&& path.subrange(n + 3, n + m + 3) == share
    &&& path.len() == n + m + 3 || either_slash(path[n + m + 3])
}

proof fn lemma_share(path: Seq<char>, server: Seq<char>, share: Seq<char>)
    requires
        has_share(path, server, share),
    ensures
        !image_path::is_verbatim(path),
        image_path::prefix_len(path) == server.len() + share.len() + 3,
{
    let n = server.len() as int;
    let m = share.len() as int;
    assert forall|i: int| 2 <= i < n + 2 implies !image_path::separates(
        #[trigger] path[i],
        false,
    ) by {
        assert(path[i] == path.subrange(2, n + 2)[i - 2]);
        assert(server[i - 2] != '\\');
    }
    assert forall|i: int| n + 3 <= i < n + m + 3 implies !image_path::separates(
        #[trigger] path[i],
        false,
    ) by {
        assert(path[i] == path.subrange(n + 3, n + m + 3)[i - n - 3]);
        assert(!either_slash(share[i - n - 3]));
    }
    lemma_component_end(path, 2, n + 2, false);
    lemma_component_end(path, n + 3, n + m + 3, false);
    assert(path[2] == server[0]) by {
        assert(path.subrange(2, n + 2)[0] == path[2]);
    }
    if either_slash(path[3]) {
        if n > 1 {
            assert(path[3] == path.subrange(2, n + 2)[1]);
            assert(server[1] != '\\');
        }
        assert(n == 1);
        assert(server =~= seq![server[0]]);
        assert(server[0] != '.') by {
            if server[0] == '.' {
                assert(server =~= seq!['.']);
            }
        }
        assert(server[0] != '?') by {
            if server[0] == '?' {
                assert(server =~= seq!['?']);
            }
        }
    }
}

/// On a network share the file name is what stands behind the last slash behind the share; the share
/// itself names no file.
pub proof fn law_name_on_a_share(
    root: Seq<char>,
    server: Seq<char>,
    share: Seq<char>,
    dir: Seq<char>,
    c: char,
    name: Seq<char>,
)
    requires
        has_share(root, server, share),
        root.len() == server.len() + share.len() + 3,
        dir.len() > 0 ==> either_slash(dir[0]),
        either_slash(c),
        is_plain_name(name),
    ensures
        image_path::name_in(root + dir + seq![c] + name) == Some(name),
        image_path::name_in(root) is None,
        image_path::name_in(root.push(c)) is None,
{
    let path = root + dir + seq![c] + name;
    let end = root.len() as int;
    let from = end + dir.len() as int + 1;
    let n = server.len() as int;
    assert(path.subrange(2, n + 2) =~= root.subrange(2, n + 2));
    assert(path.subrange(n + 3, end) =~= root.subrange(n + 3, end));
    assert(path[0] == root[0] && path[1] == root[1] && path[n + 2] == root[n + 2]);
    assert(either_slash(path[end])) by {
        if dir.len() > 0 {
            assert(path[end] == dir[0]);
        } else {
            assert(path[end] == c);
        }
    }
    lemma_share(path, server, share);
    assert(path[from - 1] == c);
    assert forall|i: int| from <= i < path.len() implies !image_path::separates(
        #[trigger] path[i],
        false,
    ) by {
        assert(path[i] == name[i - from]);
    }
    assert(path.skip(from) =~= name);
    lemma_name_behind(path, from);
    lemma_share(root, server, share);
    let longer = root.push(c);
    assert(longer.subrange(2, n + 2) =~= root.subrange(2, n + 2));
    assert(longer.subrange(n + 3, end) =~= root.subrange(n + 3, end));
    assert(longer[end] == c);
    lemma_share(longer, server, share);
}

/// Behind a device the file name is what stands behind the last slash; the device itself names no
/// file.
pub proof fn law_name_on_a_device(device: Seq<char>, dir: Seq<char>, c: char, name: Seq<char>)
    requires
        is_plain_name(device),
        dir.len() > 0 ==> either_slash(dir[0]),
        either_slash(c),
        is_plain_name(name),
    ensures
        ({
            let root = seq!['\\', '\\', '.', '\\'] + device;
            &&& image_path::name_in(root + dir + seq![c] + name) == Some(name)
            &&& image_path::name_in(root) is None
        }),
{
    let root = seq!['\\', '\\', '.', '\\'] + device;
    let path = root + dir + seq![c] + name;
    let end = root.len() as int;
    let from = end + dir.len() as int + 1;
    assert forall|i: int| 4 <= i < end implies !image_path::separates(#[trigger] path[i], false)
        && !image_path::separates(root[i], false) by {
        assert(path[i] == root[i] && root[i] == device[i - 4]);
        assert(device[i - 4] != '\\');
    }
    assert(either_slash(path[end])) by {
        if dir.len() > 0 {
            assert(path[end] == dir[0]);
        } else {
            assert(path[end] == c);
        }
    }
    lemma_component_end(path, 4, end, false);
    lemma_component_end(root, 4, end, false);
    assert(path[0] == '\\' && path[1] == '\\' && path[2] == '.' && path[3] == '\\');
    assert(root[0] == '\\' && root[1] == '\\' && root[2] == '.' && root[3] == '\\');
    assert(path[from - 1] == c);
    assert forall|i: int| from <= i < path.len() implies !image_path::separates(
        #[trigger] path[i],
        false,
    ) by {
        assert(path[i] == name[i - from]);
    }
    assert(path.skip(from) =~= name);
    lemma_name_behind(path, from);
}

/// Whether `name` can be the name of a file in a verbatim path, where only the backslash separates.
pub open spec fn is_verbatim_name(name: Seq<char>) -> bool {
    &&& name.len() > 0
    &&& forall|i: int| 0 <= i < name.len() ==> #[trigger] name[i] != '\\'
    &&& name != seq!['.']
    &&& name != seq!['.', '.']
}

/// In a verbatim path on a drive the file name is what stands behind the last backslash; a slash is
/// part of it.
pub proof fn law_name_in_a_verbatim_path(drive: Seq<char>, dir: Seq<char>, name: Seq<char>)
    requires
        has_drive(drive),
        drive.len() == 2,
        dir.len() > 0 ==> dir[0] == '\\',
        is_verbatim_name(name),
    ensures
        ({
            let root = seq!['\\', '\\', '?', '\\'] + drive;
            &&& image_path::name_in(root + dir + seq!['\\'] + name) == Some(name)
            &&& image_path::name_in(root) is None
        }),
{
    let root = seq!['\\', '\\', '?', '\\'] + drive;
    let path = root + dir + seq!['\\'] + name;
    let from = 7 + dir.len() as int;
    assert(path[0] == '\\' && path[1] == '\\' && path[2] == '?' && path[3] == '\\');
    assert(root[0] == '\\' && root[1] == '\\' && root[2] == '?' && root[3] == '\\');
    assert(path[4] == drive[0] && path[5] == drive[1]);
    assert(root[4] == drive[0] && root[5] == drive[1]);
    assert(path[6] == '\\') by {
        if dir.len() > 0 {
            assert(path[6] == dir[0]);
        }
    }
    assert(path[from - 1] == '\\');
    assert forall|i: int| from <= i < path.len() implies !image_path::separates(
        #[trigger] path[i],
        true,
    ) by {
        assert(path[i] == name[i - from]);
    }
    assert(path.skip(from) =~= name);
    lemma_name_behind(path, from);
}

/// In a verbatim path on a network share the file name is what stands behind the last backslash
/// behind the share.
pub proof fn law_name_on_a_verbatim_share(
    server: Seq<char>,
    share: Seq<char>,
    dir: Seq<char>,
    name: Seq<char>,
)
    requires
        is_verbatim_name(server),
        is_verbatim_name(share),
        dir.len() > 0 ==> dir[0] == '\\',
        is_verbatim_name(name),
    ensures
        ({
            let root = seq!['\\', '\\', '?', '\\', 'U', 'N', 'C', '\\'] + server + seq!['\\']
                + share;
            &&& image_path::name_in(root + dir + seq!['\\'] + name) == Some(name)
            &&& image_path::name_in(root) is None
        }),
{
    let root = seq!['\\', '\\', '?', '\\', 'U', 'N', 'C', '\\'] + server + seq!['\\'] + share;
    let path = root + dir + seq!['\\'] + name;
    let n = 8 + server.len() as int;
    let end = root.len() as int;
    let from = end + dir.len() as int + 1;
    assert forall|i: int| 0 <= i < end implies #[trigger] path[i] == root[i] by {}
    assert forall|i: int| 8 <= i < n implies !image_path::separates(#[trigger] root[i], true) by {
        assert(root[i] == server[i - 8]);
    }
    assert forall|i: int| n + 1 <= i < end implies !image_path::separates(
        #[trigger] root[i],
        true,
    ) by {
        assert(root[i] == share[i - n - 1]);
    }
    assert(root[n] == '\\');
    assert(path[end] == '\\') by {
        if dir.len() > 0 {
            assert(path[end] == dir[0]);
        }
    }
    assert forall|i: int| 8 <= i < n implies !image_path::separates(#[trigger] path[i], true) by {
        assert(path[i] == root[i]);
    }
    assert forall|i: int| n + 1 <= i < end implies !image_path::separates(
        #[trigger] path[i],
        true,
    ) by {
        assert(path[i] == root[i]);
    }
    lemma_component_end(path, 8, n, true);
    lemma_component_end(path, n + 1, end, true);
    lemma_component_end(root, 8, n, true);
    lemma_component_end(root, n + 1, end, true);
    assert(root[0] == '\\' && root[1] == '\\' && root[2] == '?' && root[3] == '\\');
    assert(root[4] == 'U' && root[5] == 'N' && root[6] == 'C' && root[7] == '\\');
    assert(path[from - 1] == '\\');
    assert forall|i: int| from <= i < path.len() implies !image_path::separates(
        #[trigger] path[i],
        true,
    ) by {
        assert(path[i] == name[i - from]);
    }
    assert(path.skip(from) =~= name);
    lemma_name_behind(path, from);
}

/// Whether `name` stands in `path` at `from`.
pub open spec fn stands_at(path: Seq<char>, name: Seq<char>, from: int) -> bool {
    0 <= from && from + name.len() <= path.len() && path.subrange(from, from + name.len()) == name
}

/// Whatever the path, its file name is a part of it that holds no backslash, is not empty, and is
/// neither `.` nor `..`.
pub proof fn law_name_is_part_of_the_path(path: Seq<char>, name: Seq<char>)
    requires
        image_path::name_in(path) == Some(name),
    ensures
        name.len() > 0,
        forall|i: int| 0 <= i < name.len() ==> #[trigger] name[i] != '\\',
        name != seq!['.'],
        name != seq!['.', '.'],
        exists|from: int| #[trigger] stands_at(path, name, from),
{
    let start = image_path::body_start(path);
    lemma_body_start(path);
    lemma_name_within(path, start, path.len() as int, image_path::is_verbatim(path), name);
}

proof fn lemma_end_bounds(path: Seq<char>, from: int, verbatim: bool)
    requires
        0 <= from,
    ensures
        0 <= image_path::component_end(path, from, verbatim) <= path.len(),
    decreases path.len() - from,
{
    if from < path.len() && !image_path::separates(path[from], verbatim) {
        lemma_end_bounds(path, from + 1, verbatim);
    }
}

proof fn lemma_body_start(path: Seq<char>)
    ensures
        0 <= image_path::body_start(path),
{
    lemma_end_bounds(path, 4, true);
    lemma_end_bounds(path, 4, false);
    lemma_end_bounds(path, 8, true);
    lemma_end_bounds(path, 2, false);
    lemma_end_bounds(path, image_path::component_end(path, 8, true) + 1, true);
    lemma_end_bounds(path, image_path::component_end(path, 2, false) + 1, false);
}

proof fn lemma_name_within(path: Seq<char>, start: int, end: int, verbatim: bool, name: Seq<char>)
    requires
        0 <= start,
        end <= path.len(),
        image_path::last_name(path, start, end, verbatim) == Some(name),
    ensures
        name.len() > 0,
        forall|i: int| 0 <= i < name.len() ==> #[trigger] name[i] != '\\',
        name != seq!['.'],
        name != seq!['.', '.'],
        exists|from: int| #[trigger] stands_at(path, name, from),
    decreases end - start,
{
    lemma_same_start(path, path, start, end, verbatim);
    let from = image_path::component_start(path, start, end, verbatim);
    let last = path.subrange(from, end);
    if last == name && last.len() > 0 {
        lemma_inside_component(path, start, end, verbatim);
        assert forall|i: int| 0 <= i < name.len() implies #[trigger] name[i] != '\\' by {
            assert(name[i] == path[from + i]);
        }
        assert(stands_at(path, name, from));
    }
    if last.len() == 0 || (last == seq!['.'] && !verbatim) {
        lemma_name_within(path, start, from - 1, verbatim, name);
    }
}

proof fn lemma_inside_component(path: Seq<char>, start: int, end: int, verbatim: bool)
    requires
        0 <= start <= end <= path.len(),
    ensures
        forall|i: int|
            image_path::component_start(path, start, end, verbatim) <= i < end
                ==> !image_path::separates(#[trigger] path[i], verbatim),
    decreases end - start,
{
    if end > start && !image_path::separates(path[end - 1], verbatim) {
        lemma_inside_component(path, start, end - 1, verbatim);
    }
}

/// In any other verbatim path the first component is the prefix, and the file name is what stands
/// behind the last backslash behind that.
pub proof fn law_name_behind_a_verbatim_prefix(first: Seq<char>, dir: Seq<char>, name: Seq<char>)
    requires
        first.len() > 0,
        forall|i: int| 0 <= i < first.len() ==> #[trigger] first[i] != '\\' && first[i] != '/',
        first != seq!['U', 'N', 'C'],
        !(has_drive(first) && first.len() == 2),
        dir.len() > 0 ==> dir[0] == '\\',
        is_verbatim_name(name),
    ensures
        ({
            let root = seq!['\\', '\\', '?', '\\'] + first;
            &&& image_path::name_in(root + dir + seq!['\\'] + name) == Some(name)
            &&& image_path::name_in(root) is None
        }),
{
    let root = seq!['\\', '\\', '?', '\\'] + first;
    let path = root + dir + seq!['\\'] + name;
    let end = root.len() as int;
    let from = end + dir.len() as int + 1;
    assert forall|i: int| 4 <= i < end implies !image_path::separates(#[trigger] path[i], true)
        && !image_path::is_slash(path[i]) && path[i] == root[i] && !image_path::separates(
        root[i],
        true,
    ) by {
        assert(path[i] == root[i] && root[i] == first[i - 4]);
        assert(first[i - 4] != '\\');
    }
    assert(path[end] == '\\') by {
        if dir.len() > 0 {
            assert(path[end] == dir[0]);
        }
    }
    lemma_component_end(path, 4, end, true);
    lemma_component_end(root, 4, end, true);
    assert(path[0] == '\\' && path[1] == '\\' && path[2] == '?' && path[3] == '\\');
    assert(root[0] == '\\' && root[1] == '\\' && root[2] == '?' && root[3] == '\\');
    assert(!image_path::drive_at(root, 4) || root.len() > 6 && !image_path::is_slash(root[6])) by {
        if image_path::drive_at(root, 4) {
            assert(root[4] == first[0] && root[5] == first[1]);
            assert(path[6] == root[6]);
        }
    }
    assert(image_path::prefix_len(root) == end) by {
        if root.len() >= 8 && image_path::is_slash(root[7]) {
            assert(path[7] == root[7]);
        }
    }
    assert(image_path::prefix_len(path) == end) by {
        if path[4] == 'U' && path[5] == 'N' && path[6] == 'C' && image_path::is_slash(path[7]) {
            assert(path[4] == root[4]);
            if end < 7 {
                assert(path[end] == '\\');
            } else if end == 7 {
                assert(first =~= seq!['U', 'N', 'C']) by {
                    assert(root[4] == first[0]);
                    assert(path[5] == root[5] && root[5] == first[1]);
                    assert(path[6] == root[6] && root[6] == first[2]);
                }
            }
            assert(false);
        }
        if image_path::drive_at(path, 4) && image_path::is_slash(path[6]) {
            if end == 5 {
                assert(path[5] == '\\');
            } else {
                assert(path[4] == root[4] && path[5] == root[5]);
                assert(root[4] == first[0] && root[5] == first[1]);
            }
            assert(false);
        }
    }
    assert(path[from - 1] == '\\');
    assert forall|i: int| from <= i < path.len() implies !image_path::separates(
        #[trigger] path[i],
        true,
    ) by {
        assert(path[i] == name[i - from]);
    }
    assert(path.skip(from) =~= name);
    lemma_name_behind(path, from);
}

/// Two slashes and a name are no network share: the name is the file name.
pub proof fn law_server_alone_is_a_name(c: char, d: char, server: Seq<char>)
    requires
        either_slash(c),
        either_slash(d),
        is_plain_name(server),
    ensures
        image_path::name_in(seq![c, d] + server) == Some(server),
{
    let path = seq![c, d] + server;
    let n = path.len() as int;
    assert(path[0] == c && path[1] == d);
    assert forall|i: int| 2 <= i < n implies !image_path::separates(#[trigger] path[i], false) by {
        assert(path[i] == server[i - 2]);
        assert(server[i - 2] != '\\');
    }
    lemma_component_end(path, 2, n, false);
    if n >= 4 {
        assert(path[3] == server[1]);
    }
    assert(image_path::prefix_len(path) == 0);
    assert(path.skip(2) =~= server);
    lemma_name_behind(path, 2);
}

/// Whether character `i` of a path does not count where it stands behind the name: it is a
/// separator, or, in a path that is not verbatim, a `.` that is a component of its own.
pub open spec fn is_idle(path: Seq<char>, i: int, verbatim: bool) -> bool {
    ||| path[i] == '\\'
    ||| path[i] == '/' && !verbatim
    ||| path[i] == '.' && !verbatim && either_slash(path[i - 1]) && (i + 1 == path.len()
        || either_slash(path[i + 1]))
}

/// In every path the file name is the last component that counts: behind it, separators and, unless
/// the path is verbatim, components `.` change nothing.
pub proof fn law_name_is_the_last_that_counts(path: Seq<char>, from: int, to: int)
    requires
        0 <= image_path::body_start(path) <= from < to <= path.len(),
        ({
            let verbatim = image_path::is_verbatim(path);
            let name = path.subrange(from, to);
            &&& from == image_path::body_start(path) || path[from - 1] == '\\' || (path[from - 1]
                == '/' && !verbatim)
            &&& forall|i: int|
                from <= i < to ==> #[trigger] path[i] != '\\' && (path[i] != '/' || verbatim)
            &&& to < path.len() ==> path[to] == '\\' || (path[to] == '/' && !verbatim)
            &&& forall|i: int|
                to <= i < path.len() ==> #[trigger] is_idle(path, i, verbatim)
            &&& name != seq!['.']
            &&& name != seq!['.', '.']
        }),
    ensures
        image_path::name_in(path) == Some(path.subrange(from, to)),
{
    let start = image_path::body_start(path);
    lemma_idle_tail(path, start, from, to, path.len() as int, image_path::is_verbatim(path));
}

proof fn lemma_idle_tail(
    path: Seq<char>,
    start: int,
    from: int,
    to: int,
    end: int,
    verbatim: bool,
)
    requires
        0 <= start <= from < to <= end <= path.len(),
        from == start || image_path::separates(path[from - 1], verbatim),
        forall|i: int| from <= i < to ==> !image_path::separates(#[trigger] path[i], verbatim),
        to < path.len() ==> image_path::separates(path[to], verbatim),
        end < path.len() ==> image_path::separates(path[end], verbatim),
        forall|i: int| to <= i < path.len() ==> #[trigger] is_idle(path, i, verbatim),
        path.subrange(from, to) != seq!['.'],
        path.subrange(from, to) != seq!['.', '.'],
    ensures
        image_path::last_name(path, start, end, verbatim) == Some(path.subrange(from, to)),
    decreases end,
{
    if end == to {
        lemma_component_start(path, start, from, to, verbatim);
    } else {
        assert(is_idle(path, end - 1, verbatim));
        if image_path::separates(path[end - 1], verbatim) {
            lemma_component_start(path, start, end, end, verbatim);
            assert(path.subrange(end, end).len() == 0);
            lemma_idle_tail(path, start, from, to, end - 1, verbatim);
        } else {
            assert(path[end - 1] == '.' && !verbatim);
            assert(end - 1 > to);
            lemma_component_start(path, start, end - 1, end, verbatim);
            assert(path.subrange(end - 1, end) =~= seq!['.']);
            lemma_idle_tail(path, start, from, to, end - 2, verbatim);
        }
    }
}

} // verus!
