//! The path of a file beside another file.

use vstd::prelude::*;

verus! {

/// A file name that no system takes for anything but a name: not empty, without
/// separators and drive colons, and none of the two names for directories.
pub open spec fn plain_name(name: Seq<char>) -> bool {
    &&& name.len() > 0
    &&& forall|i: int|
        0 <= i < name.len() ==> (#[trigger] name[i]) != '/' && name[i] != '\\' && name[i] != ':'
    &&& !(name.len() == 1 && name[0] == '.')
    &&& !(name.len() == 2 && name[0] == '.' && name[1] == '.')
}

/// A directory whose last part is written out: it does not end in a separator, nor in a part
/// that only repeats the directory it is in. It does not begin like a share or a device
/// either.
pub open spec fn plain_dir(dir: Seq<char>) -> bool {
    &&& dir.len() > 0
    &&& dir[0] != '\\'
    &&& !(dir.len() > 1 && dir[0] == '/' && (dir[1] == '/' || dir[1] == '\\'))
    &&& dir.last() != '/' && dir.last() != '\\'
    &&& !(dir.len() > 1 && dir.last() == '.' && (dir[dir.len() - 2] == '/' || dir[dir.len() - 2]
        == '\\'))
}

/// What stands between the separators of a path, empty pieces among it.
pub open spec fn pieces(path: Seq<char>) -> Seq<Seq<char>>
    decreases path.len(),
{
    if path.len() == 0 {
        seq![Seq::empty()]
    } else {
        let before = pieces(path.drop_last());
        if path.last() == '/' || path.last() == '\\' {
            before.push(Seq::empty())
        } else {
            before.drop_last().push(before.last().push(path.last()))
        }
    }
}

/// The pieces that count: not the empty ones, and a single dot only at the beginning.
pub open spec fn counting(pieces: Seq<Seq<char>>) -> Seq<Seq<char>>
    decreases pieces.len(),
{
    if pieces.len() == 0 {
        Seq::empty()
    } else {
        let before = counting(pieces.drop_last());
        if pieces.last().len() == 0 || (pieces.last() == seq!['.'] && pieces.len() > 1) {
            before
        } else {
            before.push(pieces.last())
        }
    }
}

/// The parts of a path.
pub open spec fn parts(path: Seq<char>) -> Seq<Seq<char>> {
    counting(pieces(path))
}

/// Whether a path starts at the root.
pub open spec fn rooted(path: Seq<char>) -> bool {
    path.len() > 0 && path[0] == '/'
}

/// Whether every system takes a path apart in the same way, and finds a plain file name at
/// its end: it has no backslash, does not begin like a share, and its last part is a plain
/// name.
pub open spec fn names_a_file(path: Seq<char>) -> bool {
    &&& forall|i: int| 0 <= i < path.len() ==> (#[trigger] path[i]) != '\\'
    &&& !(path.len() > 1 && path[0] == '/' && path[1] == '/')
    &&& parts(path).len() > 0
    &&& plain_name(parts(path).last())
}

/// What is said of the path that `with_file_name` makes of `path` and `name`: it ends in
/// the name; a path that names a file keeps its directory, part by part; a bare file name is
/// replaced; a file in the root directory stays there; and a file in a directory that is
/// plainly written stays in that directory, behind one of the two separators.
pub open spec fn beside(path: Seq<char>, name: Seq<char>, r: Seq<char>) -> bool {
    &&& r.len() >= name.len() && r.skip(r.len() - name.len()) == name
    &&& names_a_file(path) ==> parts(r) == parts(path).drop_last().push(name) && rooted(r)
        == rooted(path)
    &&& plain_name(path) ==> r == name
    &&& path.len() > 0 && path[0] == '/' && plain_name(path.skip(1)) ==> r == seq!['/'] + name
    &&& forall|dir: Seq<char>, file: Seq<char>| #[trigger]
        (dir + seq!['/'] + file) == path && plain_dir(dir) && plain_name(file) ==> (r == dir
            + seq!['/'] + name || r == dir + seq!['\\'] + name)
}

/// `std::path::Path::with_file_name`: the path with another file name and the same parent.
/// Which separator it writes, what a backslash or a colon before the name means, and what a
/// share is depend on the system: of such paths, and of those without a file name, only
/// their new ending is stated.
#[verifier::external_body]
pub(crate) fn with_file_name(path: &str, name: &str) -> (r: String)
    requires
        plain_name(name@),
    ensures
        beside(path@, name@, r@),
{
    std::path::Path::new(path).with_file_name(name).to_string_lossy().into_owned()
}

/// What stands behind a separator is one more part of a path, and separators and single dots
/// add none, but for a dot at the very beginning.
pub proof fn law_parts(dir: Seq<char>, file: Seq<char>)
    requires
        file.len() > 0,
        file != seq!['.'],
        forall|i: int| 0 <= i < file.len() ==> (#[trigger] file[i]) != '/' && file[i] != '\\',
    ensures
        parts(Seq::empty()) == Seq::<Seq<char>>::empty(),
        parts(seq!['.']) == seq![seq!['.']],
        parts(dir + seq!['\\'] + file) == parts(dir).push(file),
        parts(file) == seq![file],
        parts(dir + seq!['/'] + file) == parts(dir).push(file),
        parts(dir + seq!['/']) == parts(dir),
        parts(dir + seq!['/'] + seq!['.']) == parts(dir),
        dir.len() > 0 ==> rooted(dir + seq!['/'] + file) == (dir[0] == '/'),
        rooted(seq!['/'] + file),
        !rooted(file) && !rooted(Seq::empty()),
{
    reveal_with_fuel(counting, 2);
    let none = Seq::<char>::empty();
    assert(seq![none].drop_last() =~= Seq::<Seq<char>>::empty());
    assert(pieces(none) == seq![none]);
    assert(counting(pieces(none)) =~= Seq::<Seq<char>>::empty());
    let slashed = dir + seq!['/'];
    assert(slashed.drop_last() =~= dir);
    assert(pieces(slashed) == pieces(dir).push(none));
    assert(pieces(dir).push(none).drop_last() =~= pieces(dir));
    assert(parts(slashed) == parts(dir));
    lemma_some_piece(dir);
    lemma_behind(slashed, file);
    assert(pieces(slashed).drop_last() =~= pieces(dir));
    assert(none + file =~= file);
    assert(pieces(slashed + file) =~= pieces(dir).push(file));
    assert(pieces(dir).push(file).drop_last() =~= pieces(dir));
    let back = dir + seq!['\\'];
    assert(back.drop_last() =~= dir);
    assert(pieces(back) == pieces(dir).push(none));
    lemma_behind(back, file);
    assert(pieces(back).drop_last() =~= pieces(dir));
    assert(pieces(back + file) =~= pieces(dir).push(file));
    lemma_behind(none, file);
    assert(none + file =~= file);
    assert(pieces(none).drop_last() =~= Seq::<Seq<char>>::empty());
    assert(pieces(file) =~= seq![file]);
    assert(seq![file].drop_last() =~= Seq::<Seq<char>>::empty());
    assert(parts(file) =~= seq![file]);
    let dot = seq!['.'];
    assert(dot.drop_last() =~= none);
    assert(pieces(dot) =~= seq![none.push('.')]);
    assert(none.push('.') =~= dot);
    assert(seq![dot].drop_last() =~= Seq::<Seq<char>>::empty());
    assert(parts(dot) =~= seq![dot]);
    let dotted = slashed + dot;
    assert(dotted.drop_last() =~= slashed);
    assert(pieces(dotted) =~= pieces(dir).push(none.push('.')));
    assert(none.push('.') =~= dot);
    assert(pieces(dir).push(dot).drop_last() =~= pieces(dir));
    assert((seq!['/'] + file)[0] == '/');
    if dir.len() > 0 {
        assert((slashed + file)[0] == dir[0]);
    }
}

proof fn lemma_some_piece(path: Seq<char>)
    ensures
        pieces(path).len() > 0,
    decreases path.len(),
{
    if path.len() > 0 {
        lemma_some_piece(path.drop_last());
    }
}

/// Characters that are no separators lengthen the last piece.
proof fn lemma_behind(path: Seq<char>, end: Seq<char>)
    requires
        forall|i: int| 0 <= i < end.len() ==> (#[trigger] end[i]) != '/' && end[i] != '\\',
    ensures
        pieces(path + end) == pieces(path).drop_last().push(pieces(path).last() + end),
    decreases end.len(),
{
    lemma_some_piece(path);
    if end.len() == 0 {
        assert(path + end =~= path);
        assert(pieces(path).last() + end =~= pieces(path).last());
        assert(pieces(path) =~= pieces(path).drop_last().push(pieces(path).last()));
    } else {
        let rest = end.drop_last();
        assert forall|i: int| 0 <= i < rest.len() implies (#[trigger] rest[i]) != '/' && rest[i]
            != '\\' by {
            assert(rest[i] == end[i]);
        }
        lemma_behind(path, rest);
        assert((path + end).drop_last() =~= path + rest);
        assert((path + end).last() == end.last());
        let before = pieces(path + rest);
        assert(before.last() =~= pieces(path).last() + rest);
        assert(before.drop_last() =~= pieces(path).drop_last());
        assert((pieces(path).last() + rest).push(end.last()) =~= pieces(path).last() + end);
    }
}

/// A path beside another one has its directory and the new name, whatever the file was called.
pub proof fn law_beside(dir: Seq<char>, file: Seq<char>, name: Seq<char>, r: Seq<char>)
    requires
        plain_dir(dir),
        plain_name(file),
        beside(dir + seq!['/'] + file, name, r),
    ensures
        r == dir + seq!['/'] + name || r == dir + seq!['\\'] + name,
{
}

/// A plain name is any that is neither empty nor one of the two names for directories and has
/// no separator and no colon; a path that ends in one, behind a directory or alone, names a
/// file.
pub proof fn law_names(dir: Seq<char>, file: Seq<char>, c: char)
    ensures
        !plain_name(Seq::empty()),
        !plain_name(seq!['.']),
        !plain_name(seq!['.', '.']),
        plain_name(seq![c]) <==> c != '.' && c != '/' && c != '\\' && c != ':',
        plain_name(file) && c != '/' && c != '\\' && c != ':' ==> plain_name(
            file.push(c),
        ) || file.push(c) == seq!['.', '.'],
        plain_name(file) ==> !file.contains('/') && !file.contains('\\') && !file.contains(':'),
        plain_name(file) ==> names_a_file(file),
        plain_name(file) && !dir.contains('\\') && !(dir.len() > 0 && dir[0] == '/' && (dir.len()
            == 1 || dir[1] == '/')) ==> names_a_file(dir + seq!['/'] + file),
        names_a_file(dir) ==> !dir.contains('\\'),
{
    if plain_name(file) {
        assert(file != seq!['.']) by {
            if file == seq!['.'] {
                assert(file.len() == 1 && file[0] == '.');
            }
        }
        law_parts(dir, file);
        assert(parts(file).last() == file);
        let path = dir + seq!['/'] + file;
        assert(parts(dir).push(file).last() == file);
        if c != '/' && c != '\\' && c != ':' {
            let longer = file.push(c);
            assert forall|i: int| 0 <= i < longer.len() implies (#[trigger] longer[i]) != '/'
                && longer[i] != '\\' && longer[i] != ':' by {
                if i < file.len() {
                    assert(longer[i] == file[i]);
                }
            }
            if longer.len() == 2 && longer[0] == '.' && longer[1] == '.' {
                assert(longer =~= seq!['.', '.']);
            }
        }
        if !dir.contains('\\') && !(dir.len() > 0 && dir[0] == '/' && (dir.len() == 1 || dir[1]
            == '/')) {
            assert forall|i: int| 0 <= i < path.len() implies (#[trigger] path[i]) != '\\' by {
                if i < dir.len() {
                    assert(path[i] == dir[i]);
                    assert(dir.contains(dir[i]));
                } else if i > dir.len() {
                    assert(path[i] == file[i - dir.len() - 1]);
                }
            }
            if dir.len() > 1 {
                assert(path[0] == dir[0] && path[1] == dir[1]);
            } else if dir.len() == 1 {
                assert(path[0] == dir[0]);
            } else {
                assert(path[1] == file[0]);
            }
        }
        assert(file[0] != '/');
    }
    assert(seq!['.', '.'].len() == 2 && seq!['.', '.'][0] == '.' && seq!['.', '.'][1] == '.');
    assert(seq!['.'].len() == 1 && seq!['.'][0] == '.');
    assert(seq![c].len() == 1 && seq![c][0] == c);
}

/// A path beside another one ends in the new name. It keeps the parts before the last one and
/// whether it starts at the root; a bare name gives way to the new one, and a file in the root
/// directory stays there.
pub proof fn law_beside_keeps_the_directory(
    path: Seq<char>,
    file: Seq<char>,
    name: Seq<char>,
    r: Seq<char>,
)
    requires
        plain_name(file),
    ensures
        beside(path, name, r) ==> r.len() >= name.len() && r == r.take(r.len() - name.len()) + name,
        names_a_file(path) && beside(path, name, r) ==> parts(r).last() == name && parts(
            r,
        ).drop_last() == parts(path).drop_last() && rooted(r) == rooted(path),
        beside(file, name, r) ==> r == name,
        beside(seq!['/'] + file, name, r) ==> r == seq!['/'] + name,
{
    if beside(path, name, r) {
        let n = r.len() - name.len();
        assert(r =~= r.take(n) + r.skip(n));
        if names_a_file(path) {
            assert(parts(r).drop_last() =~= parts(path).drop_last());
        }
    }
    assert((seq!['/'] + file).skip(1) =~= file);
    assert((seq!['/'] + file)[0] == '/');
}

/// A plainly written directory stays one when its last part is made longer or another part is
/// added. None ends in a separator or a single dot behind one, or begins with two separators
/// or a backslash.
pub proof fn law_plain_directories(dir: Seq<char>, c: char)
    ensures
        !plain_dir(Seq::empty()),
        plain_dir(seq![c]) <==> c != '/' && c != '\\',
        plain_dir(seq!['/', c]) <==> c != '/' && c != '\\' && c != '.',
        !plain_dir(seq!['\\'] + dir),
        !plain_dir(seq!['/', '/'] + dir),
        !plain_dir(seq!['/', '\\'] + dir),
        !plain_dir(dir.push('/')) && !plain_dir(dir.push('\\')),
        !plain_dir(dir.push('/').push('.')) && !plain_dir(dir.push('\\').push('.')),
        plain_dir(dir) && c != '/' && c != '\\' ==> plain_dir(dir.push(c)),
        plain_dir(dir) && c != '/' && c != '\\' && c != '.' ==> plain_dir(dir.push('/').push(c)),
{
    let root = seq!['/', c];
    assert(root.len() == 2 && root[0] == '/' && root[1] == c && root.last() == c);
    let one = seq![c];
    assert(one.len() == 1 && one[0] == c && one.last() == c);
    assert((seq!['\\'] + dir)[0] == '\\');
    assert((seq!['/', '/'] + dir)[0] == '/' && (seq!['/', '/'] + dir)[1] == '/');
    assert((seq!['/', '\\'] + dir)[0] == '/' && (seq!['/', '\\'] + dir)[1] == '\\');
    assert(dir.push('/').last() == '/' && dir.push('\\').last() == '\\');
    let dotted = dir.push('/').push('.');
    assert(dotted.last() == '.' && dotted[dotted.len() - 2] == '/');
    let back = dir.push('\\').push('.');
    assert(back.last() == '.' && back[back.len() - 2] == '\\');
    if plain_dir(dir) {
        assert(dir.push(c)[dir.len() - 1] == dir.last());
        assert(dir.push(c).last() == c);
        assert(dir.push('/').push(c)[0] == dir[0]);
        assert(dir.push('/').push(c).last() == c);
    }
}

} // verus!
