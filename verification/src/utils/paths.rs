//! How a path is read.
//!
//! Hosts differ in what they take for a separator and for the beginning of a
//! path. A text without backslash and colon that does not begin with two
//! slashes is read in one way everywhere: slashes part it, empty parts and
//! most parts that are a single dot do not count. For such texts the
//! functions here say what the standard library finds in a path; for any
//! other text that is left to the host.

use vstd::prelude::*;

verus! {

/// Whether `path` is read in the same way on every host.
pub open spec fn portable(path: Seq<char>) -> bool {
    !path.contains('\\') && !path.contains(':') && !(path.len() >= 2 && path[0] == '/' && path[1]
        == '/')
}

/// The part that stands for the root of the tree.
pub open spec fn root_part() -> Seq<char> {
    seq!['/']
}

/// The part that stands for the directory itself.
pub open spec fn dot_part() -> Seq<char> {
    seq!['.']
}

/// The part that stands for the directory above.
pub open spec fn up_part() -> Seq<char> {
    seq!['.', '.']
}

/// The pieces of `path` between its slashes, without the empty ones; a slash
/// at the beginning gives the root as first piece.
pub open spec fn raw_parts(path: Seq<char>) -> Seq<Seq<char>>
    decreases path.len(),
{
    if path.len() == 0 {
        Seq::empty()
    } else if path.last() == '/' {
        if path.len() == 1 {
            seq![root_part()]
        } else {
            raw_parts(path.drop_last())
        }
    } else if path.len() > 1 && path[path.len() - 2] != '/' {
        raw_parts(path.drop_last()).drop_last().push(
            raw_parts(path.drop_last()).last().push(path.last()),
        )
    } else {
        raw_parts(path.drop_last()).push(seq![path.last()])
    }
}

/// `pieces` without the single dots, but for one at the very beginning.
pub open spec fn without_dots(pieces: Seq<Seq<char>>) -> Seq<Seq<char>>
    decreases pieces.len(),
{
    if pieces.len() == 0 {
        pieces
    } else if pieces.len() > 1 && pieces.last() == dot_part() {
        without_dots(pieces.drop_last())
    } else {
        without_dots(pieces.drop_last()).push(pieces.last())
    }
}

/// The components of `path`: the root if it begins with a slash, then its
/// parts between slashes. Repeated slashes, a slash at the end and single
/// dots do not count, but for a single dot at the very beginning.
pub open spec fn parts(path: Seq<char>) -> Seq<Seq<char>> {
    without_dots(raw_parts(path))
}

/// The file name of `path`: its last component, unless that is the root, the
/// directory itself or the directory above.
pub open spec fn file_name_in(path: Seq<char>) -> Option<Seq<char>> {
    if parts(path).len() == 0 || parts(path).last() == root_part() || parts(path).last()
        == dot_part() || parts(path).last() == up_part() {
        None
    } else {
        Some(parts(path).last())
    }
}

/// Where the last dot of `name` stands; -1 if it has none.
pub open spec fn last_dot(name: Seq<char>) -> int
    decreases name.len(),
{
    if name.len() == 0 {
        -1
    } else if name.last() == '.' {
        name.len() - 1
    } else {
        last_dot(name.drop_last())
    }
}

/// The extension of a file name: what stands behind its last dot, unless the
/// name has no dot or only the one that it begins with.
pub open spec fn extension_of_name(name: Seq<char>) -> Option<Seq<char>> {
    if last_dot(name) <= 0 {
        None
    } else {
        Some(name.skip(last_dot(name) + 1))
    }
}

/// The extension of `path`: that of its file name.
pub open spec fn extension_in(path: Seq<char>) -> Option<Seq<char>> {
    match file_name_in(path) {
        Some(name) => extension_of_name(name),
        None => None,
    }
}

/// Whether `path` lies in `base`: the components of `base` are the first
/// components of `path`.
pub open spec fn within(path: Seq<char>, base: Seq<char>) -> bool {
    parts(base).is_prefix_of(parts(path))
}

/// Whether `joined` is `rest` put behind `base`. A `rest` that begins at the
/// root stands alone. Else the two stand side by side, with a separator of
/// the host between them where `base` does not end with a slash.
pub open spec fn joins(base: Seq<char>, rest: Seq<char>, joined: Seq<char>) -> bool {
    if rest.len() > 0 && rest[0] == '/' {
        joined == rest
    } else if base.len() == 0 || base.last() == '/' {
        joined == base + rest
    } else {
        joined == base + seq!['/'] + rest || joined == base + seq!['\\'] + rest
    }
}

/// `pieces` in a row, with `separator` between them.
pub open spec fn in_a_row(pieces: Seq<Seq<char>>, separator: char) -> Seq<char>
    decreases pieces.len(),
{
    if pieces.len() == 0 {
        Seq::empty()
    } else if pieces.len() == 1 {
        pieces[0]
    } else {
        in_a_row(pieces.drop_last(), separator) + seq![separator] + pieces.last()
    }
}

/// Whether `relative` is `path` as seen from a `base` that it lies in: the
/// components of `path` behind those of `base`, with a separator of the host
/// between them.
pub open spec fn seen_from(path: Seq<char>, base: Seq<char>, relative: Seq<char>) -> bool {
    relative == in_a_row(parts(path).skip(parts(base).len() as int), '/') || relative == in_a_row(
        parts(path).skip(parts(base).len() as int),
        '\\',
    )
}

/// Whether `piece` is a stretch of `path`.
pub open spec fn stretch_of(path: Seq<char>, piece: Seq<char>) -> bool {
    exists|from: int, to: int|
        0 <= from <= to <= path.len() && #[trigger] path.subrange(from, to) == piece
}

proof fn lemma_stretch_grows(path: Seq<char>, piece: Seq<char>)
    requires
        path.len() > 0,
        stretch_of(path.drop_last(), piece),
    ensures
        stretch_of(path, piece),
{
    let front = path.drop_last();
    let (from, to) = choose|from: int, to: int|
        0 <= from <= to <= front.len() && #[trigger] front.subrange(from, to) == piece;
    assert(path.subrange(from, to) =~= front.subrange(from, to));
}

proof fn lemma_raw_parts(path: Seq<char>)
    ensures
        forall|k: int|
            0 <= k < raw_parts(path).len() ==> #[trigger] raw_parts(path)[k] == root_part()
                || stretch_of(path, raw_parts(path)[k]),
        path.len() > 0 ==> raw_parts(path).len() > 0,
        path.len() > 0 && path.last() != '/' ==> exists|from: int|
            0 <= from < path.len() && #[trigger] path.subrange(from, path.len() as int)
                == raw_parts(path).last(),
    decreases path.len(),
{
    if path.len() > 0 {
        let front = path.drop_last();
        let before = raw_parts(front);
        let after = raw_parts(path);
        lemma_raw_parts(front);
        if path.last() == '/' {
            if path.len() > 1 {
                assert forall|k: int| 0 <= k < after.len() implies #[trigger] after[k]
                    == root_part() || stretch_of(path, after[k]) by {
                    if before[k] != root_part() {
                        lemma_stretch_grows(path, before[k]);
                    }
                }
            }
        } else if path.len() > 1 && path[path.len() - 2] != '/' {
            assert(front.last() == path[path.len() - 2]);
            let from = choose|from: int|
                0 <= from < front.len() && #[trigger] front.subrange(from, front.len() as int)
                    == before.last();
            assert(path.subrange(from, path.len() as int) =~= before.last().push(path.last()));
            assert(after.last() == before.last().push(path.last()));
            assert forall|k: int| 0 <= k < after.len() implies #[trigger] after[k]
                == root_part() || stretch_of(path, after[k]) by {
                if k < after.len() - 1 {
                    assert(after[k] == before[k]);
                    if before[k] != root_part() {
                        lemma_stretch_grows(path, before[k]);
                    }
                }
            }
        } else {
            assert(path.subrange(path.len() - 1, path.len() as int) =~= seq![path.last()]);
            assert forall|k: int| 0 <= k < after.len() implies #[trigger] after[k]
                == root_part() || stretch_of(path, after[k]) by {
                if k < after.len() - 1 {
                    assert(after[k] == before[k]);
                    if before[k] != root_part() {
                        lemma_stretch_grows(path, before[k]);
                    }
                }
            }
        }
    }
}

proof fn lemma_without_dots(pieces: Seq<Seq<char>>)
    ensures
        forall|k: int|
            0 <= k < without_dots(pieces).len() ==> pieces.contains(
                #[trigger] without_dots(pieces)[k],
            ),
    decreases pieces.len(),
{
    if pieces.len() > 0 {
        let front = pieces.drop_last();
        lemma_without_dots(front);
        assert forall|k: int| 0 <= k < without_dots(pieces).len() implies pieces.contains(
            #[trigger] without_dots(pieces)[k],
        ) by {
            let piece = without_dots(pieces)[k];
            if k < without_dots(front).len() {
                assert(front.contains(piece));
                let at = choose|at: int| 0 <= at < front.len() && front[at] == piece;
                assert(pieces[at] == piece);
            } else {
                assert(pieces[pieces.len() - 1] == piece);
            }
        }
    }
}

proof fn lemma_last_dot(name: Seq<char>)
    ensures
        -1 <= last_dot(name) < name.len(),
        last_dot(name) >= 0 ==> name[last_dot(name)] == '.',
        forall|i: int| last_dot(name) < i < name.len() ==> name[i] != '.',
    decreases name.len(),
{
    if name.len() > 0 && name.last() != '.' {
        let front = name.drop_last();
        lemma_last_dot(front);
        assert forall|i: int| last_dot(name) < i < name.len() implies name[i] != '.' by {
            if i < front.len() {
                assert(name[i] == front[i]);
            }
        }
        if last_dot(name) >= 0 {
            assert(name[last_dot(name)] == front[last_dot(front)]);
        }
    }
}

/// The extension of a path stands in the path right behind a dot, and holds
/// no dot itself.
pub proof fn lemma_extension_in_path(path: Seq<char>)
    ensures
        match extension_in(path) {
            Some(extension) => !extension.contains('.') && exists|dot: int|
                0 <= dot && dot + 1 + extension.len() <= path.len() && #[trigger] path[dot] == '.'
                    && path.subrange(dot + 1, dot + 1 + extension.len()) == extension,
            None => true,
        },
{
    if extension_in(path) is Some {
        let name = file_name_in(path)->0;
        let extension = extension_in(path)->0;
        lemma_raw_parts(path);
        lemma_without_dots(raw_parts(path));
        lemma_last_dot(name);
        let at = last_dot(name);
        assert(parts(path)[parts(path).len() - 1] == name);
        assert(raw_parts(path).contains(name));
        assert(stretch_of(path, name));
        let (from, to) = choose|from: int, to: int|
            0 <= from <= to <= path.len() && #[trigger] path.subrange(from, to) == name;
        assert(path[from + at] == path.subrange(from, to)[at]);
        assert(path.subrange(from + at + 1, to) =~= name.skip(at + 1));
        assert(from + at + 1 + extension.len() == to);
        if extension.contains('.') {
            let i = choose|i: int| 0 <= i < extension.len() && extension[i] == '.';
            assert(name[at + 1 + i] == '.');
        }
    }
}

/// A path lies in itself.
pub proof fn lemma_within_itself(path: Seq<char>)
    ensures
        within(path, path),
{
}

} // verus!
