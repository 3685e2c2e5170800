//! Path components, as restic's listing and the Entry tree need them.
//!
//! Paths are compared by component the way `std::path::Path` does on Unix: a
//! leading `/` is the root, a leading `.` alone is the current directory, and after
//! that the path splits on `/` with empty pieces and `.` pieces dropped and `..`
//! kept as the parent directory. So `/home//user/` and `/home/user` name the same
//! directory.

use vstd::prelude::*;

verus! {

/// One component of a path, as a mathematical value.
pub enum PathPart {
    Root,
    Current,
    Parent,
    Name(Seq<char>),
}

/// One component of a path.
#[derive(Debug, Clone, PartialEq, Eq)]
pub enum Component {
    RootDir,
    CurDir,
    ParentDir,
    Normal(String),
}

impl View for Component {
    type V = PathPart;

    open spec fn view(&self) -> PathPart {
        match self {
            Component::RootDir => PathPart::Root,
            Component::CurDir => PathPart::Current,
            Component::ParentDir => PathPart::Parent,
            Component::Normal(name) => PathPart::Name(name@),
        }
    }
}

/// The views of a list of components.
pub open spec fn parts_view(components: Seq<Component>) -> Seq<PathPart> {
    components.map_values(|c: Component| c@)
}

/// `s` cut at every `/`: the pieces before, between and after the slashes, in order.
/// There is always at least one piece (a string without `/` is one piece).
pub open spec fn pieces(s: Seq<char>) -> Seq<Seq<char>>
    decreases s.len(),
{
    if s.len() == 0 {
        seq![Seq::<char>::empty()]
    } else {
        let before = pieces(s.drop_last());
        if s.last() == '/' {
            before.push(Seq::<char>::empty())
        } else {
            before.update(before.len() - 1, before.last().push(s.last()))
        }
    }
}

/// Pieces that stand for no component: empty ones (from repeated or trailing `/`)
/// and `.`.
pub open spec fn is_skipped(piece: Seq<char>) -> bool {
    piece.len() == 0 || piece == seq!['.']
}

/// The component a kept piece stands for.
pub open spec fn part_of(piece: Seq<char>) -> PathPart {
    if piece == seq!['.', '.'] {
        PathPart::Parent
    } else {
        PathPart::Name(piece)
    }
}

/// The components that a list of pieces stands for, in order.
pub open spec fn body_parts(pieces: Seq<Seq<char>>) -> Seq<PathPart>
    decreases pieces.len(),
{
    if pieces.len() == 0 {
        Seq::empty()
    } else {
        let before = body_parts(pieces.drop_last());
        if is_skipped(pieces.last()) {
            before
        } else {
            before.push(part_of(pieces.last()))
        }
    }
}

/// `s` is `.` or starts with `./`.
pub open spec fn starts_at_current(s: Seq<char>) -> bool {
    s.len() > 0 && s[0] == '.' && (s.len() == 1 || s[1] == '/')
}

/// The components of the path `s`.
pub open spec fn path_parts(s: Seq<char>) -> Seq<PathPart> {
    if s.len() > 0 && s[0] == '/' {
        seq![PathPart::Root] + body_parts(pieces(s.skip(1)))
    } else if starts_at_current(s) {
        seq![PathPart::Current] + body_parts(pieces(s.skip(1)))
    } else {
        body_parts(pieces(s))
    }
}

/// The path `path` sits directly inside the directory `dir`: it ends in a component
/// other than the root, and without that last component it names `dir`.
pub open spec fn is_direct_child(path: Seq<char>, dir: Seq<char>) -> bool {
    let parts = path_parts(path);
    &&& parts.len() > 0
    &&& parts.last() != PathPart::Root
    &&& parts.drop_last() == path_parts(dir)
}

/// The component a piece of a path stands for, if any.
fn piece_component(piece: &str) -> (component: Option<Component>)
    ensures
        match component {
            None => is_skipped(piece@),
            Some(c) => !is_skipped(piece@) && c@ == part_of(piece@),
        },
{
    let n = piece.unicode_len();
    if n == 0 {
        return None;
    }
    let first = piece.get_char(0);
    if n == 1 && first == '.' {
        assert(piece@ =~= seq!['.']);
        return None;
    }
    if n == 2 && first == '.' && piece.get_char(1) == '.' {
        assert(piece@ =~= seq!['.', '.']);
        return Some(Component::ParentDir);
    }
    assert(piece@ != seq!['.', '.']) by {
        if piece@ == seq!['.', '.'] {
            assert(piece@[0] == '.' && piece@[1] == '.');
        }
    }
    assert(piece@ != seq!['.']) by {
        if piece@ == seq!['.'] {
            assert(piece@[0] == '.');
        }
    }
    Some(Component::Normal(piece.to_owned()))
}

/// The components of `path`, in order.
pub fn components(path: &str) -> (components: Vec<Component>)
    ensures
        parts_view(components@) == path_parts(path@),
{
    let n = path.unicode_len();
    let mut components: Vec<Component> = Vec::new();
    let mut start: usize = 0;
    if n > 0 && path.get_char(0) == '/' {
        components.push(Component::RootDir);
        start = 1;
    } else if n > 0 && path.get_char(0) == '.' && (n == 1 || path.get_char(1) == '/') {
        components.push(Component::CurDir);
        start = 1;
    }
    let ghost front = parts_view(components@);
    let ghost mut finished: Seq<Seq<char>> = Seq::empty();
    let mut piece_start: usize = start;
    let mut i: usize = start;
    assert(path@.subrange(start as int, start as int) =~= Seq::<char>::empty());
    while i < n
        invariant
            n == path@.len(),
            start <= piece_start <= i <= n,
            pieces(path@.subrange(start as int, i as int)) == finished.push(
                path@.subrange(piece_start as int, i as int),
            ),
            parts_view(components@) == front + body_parts(finished),
        decreases n - i,
    {
        let c = path.get_char(i);
        let ghost prefix = path@.subrange(start as int, i as int);
        assert(path@.subrange(start as int, i + 1).drop_last() =~= prefix);
        if c == '/' {
            let piece = path.substring_char(piece_start, i);
            let ghost done = finished.push(piece@);
            assert(done.drop_last() =~= finished);
            let ghost before = parts_view(components@);
            match piece_component(piece) {
                Some(component) => {
                    components.push(component);
                    assert(parts_view(components@) =~= before.push(component@));
                    assert(body_parts(done) == body_parts(finished).push(part_of(piece@)));
                    assert(parts_view(components@) =~= front + body_parts(done));
                },
                None => {
                    assert(parts_view(components@) =~= front + body_parts(done));
                },
            }
            proof {
                finished = done;
            }
            piece_start = i + 1;
            assert(path@.subrange(piece_start as int, i + 1) =~= Seq::<char>::empty());
        } else {
            assert(path@.subrange(piece_start as int, i + 1) =~= path@.subrange(
                piece_start as int,
                i as int,
            ).push(c));
        }
        i = i + 1;
    }
    let last = path.substring_char(piece_start, n);
    let ghost all = finished.push(last@);
    assert(all.drop_last() =~= finished);
    let ghost before = parts_view(components@);
    match piece_component(last) {
        Some(component) => {
            components.push(component);
            assert(parts_view(components@) =~= before.push(component@));
            assert(body_parts(all) == body_parts(finished).push(part_of(last@)));
            assert(parts_view(components@) =~= front + body_parts(all));
        },
        None => {
            assert(parts_view(components@) =~= front + body_parts(all));
        },
    }
    assert(path@.subrange(start as int, n as int) =~= path@.skip(start as int));
    if start == 0 {
        assert(path@.skip(0) =~= path@);
    }
    assert(parts_view(components@) =~= path_parts(path@));
    components
}

/// Whether two components are the same.
fn same_component(a: &Component, b: &Component) -> (same: bool)
    ensures
        same == (a@ == b@),
{
    match (a, b) {
        (Component::RootDir, Component::RootDir) => true,
        (Component::CurDir, Component::CurDir) => true,
        (Component::ParentDir, Component::ParentDir) => true,
        (Component::Normal(x), Component::Normal(y)) => x.eq(y),
        _ => false,
    }
}

/// Whether `path` sits directly inside the directory `dir` (see [`is_direct_child`]).
pub fn is_direct_child_of(path: &str, dir: &str) -> (child: bool)
    ensures
        child == is_direct_child(path@, dir@),
{
    let path_components = components(path);
    let dir_components = components(dir);
    let len = path_components.len();
    if len == 0 {
        return false;
    }
    if let Component::RootDir = &path_components[len - 1] {
        return false;
    }
    assert(parts_view(path_components@).last() == path_components@[len - 1]@);
    if len - 1 != dir_components.len() {
        assert(parts_view(path_components@).drop_last().len() != parts_view(dir_components@).len());
        return false;
    }
    let mut i: usize = 0;
    while i < len - 1
        invariant
            len == path_components@.len(),
            len - 1 == dir_components@.len(),
            i <= len - 1,
            parts_view(path_components@) == path_parts(path@),
            parts_view(dir_components@) == path_parts(dir@),
            forall|j: int| 0 <= j < i ==> path_components@[j]@ == dir_components@[j]@,
        decreases len - 1 - i,
    {
        if !same_component(&path_components[i], &dir_components[i]) {
            assert(parts_view(path_components@).drop_last()[i as int] != parts_view(
                dir_components@,
            )[i as int]);
            return false;
        }
        i = i + 1;
    }
    assert(parts_view(path_components@).drop_last() =~= parts_view(dir_components@));
    true
}

/// Cutting `a`, a slash and `name` (which holds no slash) gives the pieces of `a`
/// followed by `name`.
proof fn lemma_pieces_after_slash(a: Seq<char>, name: Seq<char>)
    requires
        forall|i: int| 0 <= i < name.len() ==> name[i] != '/',
    ensures
        pieces(a + seq!['/'] + name) == pieces(a).push(name),
    decreases name.len(),
{
    let s = a + seq!['/'] + name;
    if name.len() == 0 {
        assert(s.drop_last() =~= a);
        assert(name =~= Seq::<char>::empty());
    } else {
        let shorter = name.drop_last();
        lemma_pieces_after_slash(a, shorter);
        assert(s.drop_last() =~= a + seq!['/'] + shorter);
        assert(shorter.push(name.last()) =~= name);
        assert(pieces(s) =~= pieces(a).push(name));
    }
}

/// The components of `dir`, a slash and `name` are those of `dir` followed by the
/// component `name` stands for (nothing, when `name` is empty or `.`).
proof fn lemma_parts_after_slash(dir: Seq<char>, name: Seq<char>)
    requires
        dir.len() > 0,
        forall|i: int| 0 <= i < name.len() ==> name[i] != '/',
    ensures
        path_parts(dir + seq!['/'] + name) == if is_skipped(name) {
            path_parts(dir)
        } else {
            path_parts(dir).push(part_of(name))
        },
{
    let s = dir + seq!['/'] + name;
    assert(s[0] == dir[0]);
    if dir[0] == '/' || starts_at_current(dir) {
        assert(s.skip(1) =~= dir.skip(1) + seq!['/'] + name);
        lemma_pieces_after_slash(dir.skip(1), name);
        if dir.len() == 1 {
            assert(s[1] == '/');
        } else {
            assert(s[1] == dir[1]);
        }
        let p = pieces(dir.skip(1));
        assert(p.push(name).drop_last() =~= p);
    } else {
        if dir.len() == 1 {
            assert(s[1] == '/');
        } else {
            assert(s[1] == dir[1]);
        }
        assert(!starts_at_current(s));
        lemma_pieces_after_slash(dir, name);
        let p = pieces(dir);
        assert(p.push(name).drop_last() =~= p);
    }
}

/// A path written as a directory, a slash and a plain name (not empty, not `.`, no
/// slash in it) sits directly inside that directory.
pub proof fn lemma_name_under_dir_is_direct_child(dir: Seq<char>, name: Seq<char>)
    requires
        dir.len() > 0,
        !is_skipped(name),
        forall|i: int| 0 <= i < name.len() ==> name[i] != '/',
    ensures
        is_direct_child(dir + seq!['/'] + name, dir),
{
    lemma_parts_after_slash(dir, name);
    let parts = path_parts(dir).push(part_of(name));
    assert(parts.drop_last() =~= path_parts(dir));
}

/// A trailing slash on a (non-empty) directory does not change which paths sit
/// directly inside it.
pub proof fn lemma_trailing_slash_names_same_dir(path: Seq<char>, dir: Seq<char>)
    requires
        dir.len() > 0,
    ensures
        is_direct_child(path, dir.push('/')) == is_direct_child(path, dir),
{
    lemma_parts_after_slash(dir, Seq::<char>::empty());
    assert(dir + seq!['/'] + Seq::<char>::empty() =~= dir.push('/'));
}

/// `x` holds no slash.
pub open spec fn has_no_slash(x: Seq<char>) -> bool {
    forall|j: int| 0 <= j < x.len() ==> x[j] != '/'
}

/// A component that can follow the first one: the parent, or a name that is neither
/// empty, `.` nor `..`, and holds no slash.
pub open spec fn is_inner_part(part: PathPart) -> bool {
    match part {
        PathPart::Parent => true,
        PathPart::Name(x) => x.len() > 0 && x != seq!['.'] && x != seq!['.', '.'] && has_no_slash(x),
        _ => false,
    }
}

/// No piece holds a slash.
proof fn lemma_pieces_have_no_slash(s: Seq<char>)
    ensures
        pieces(s).len() >= 1,
        forall|i: int| 0 <= i < pieces(s).len() ==> has_no_slash(#[trigger] pieces(s)[i]),
    decreases s.len(),
{
    if s.len() > 0 {
        let before = pieces(s.drop_last());
        lemma_pieces_have_no_slash(s.drop_last());
        if s.last() != '/' {
            let grown = before.last().push(s.last());
            assert(has_no_slash(before[before.len() - 1]));
            assert(has_no_slash(grown));
            assert forall|i: int| 0 <= i < pieces(s).len() implies has_no_slash(
                #[trigger] pieces(s)[i],
            ) by {
                if i < before.len() - 1 {
                    assert(pieces(s)[i] == before[i]);
                }
            }
        } else {
            assert forall|i: int| 0 <= i < pieces(s).len() implies has_no_slash(
                #[trigger] pieces(s)[i],
            ) by {
                if i < before.len() {
                    assert(pieces(s)[i] == before[i]);
                } else {
                    assert(pieces(s)[i] =~= Seq::<char>::empty());
                }
            }
        }
    }
}

/// Pieces without slashes stand for inner components only.
proof fn lemma_body_parts_are_inner(ps: Seq<Seq<char>>)
    requires
        forall|i: int| 0 <= i < ps.len() ==> has_no_slash(#[trigger] ps[i]),
    ensures
        forall|k: int| 0 <= k < body_parts(ps).len() ==> is_inner_part(#[trigger] body_parts(ps)[k]),
    decreases ps.len(),
{
    if ps.len() > 0 {
        let rest = ps.drop_last();
        assert forall|i: int| 0 <= i < rest.len() implies has_no_slash(#[trigger] rest[i]) by {
            assert(rest[i] == ps[i]);
        }
        lemma_body_parts_are_inner(rest);
        assert(has_no_slash(ps[ps.len() - 1]));
        let last = ps.last();
        if !is_skipped(last) {
            assert(is_inner_part(part_of(last)));
            let before = body_parts(rest);
            assert forall|k: int| 0 <= k < body_parts(ps).len() implies is_inner_part(
                #[trigger] body_parts(ps)[k],
            ) by {
                if k < before.len() {
                    assert(body_parts(ps)[k] == before[k]);
                }
            }
        } else {
            assert(body_parts(ps) == body_parts(rest));
        }
    }
}

/// The components of any path are well formed: the root and the current directory
/// can only come first, and every name is neither empty, `.` nor `..`, and holds no
/// slash; the first component is the root exactly when the path starts with `/`.
pub proof fn lemma_path_parts_are_well_formed(s: Seq<char>)
    ensures
        forall|k: int|
            0 <= k < path_parts(s).len() ==> #[trigger] path_parts(s)[k] == PathPart::Root
                || path_parts(s)[k] == PathPart::Current ==> k == 0,
        forall|k: int|
            0 <= k < path_parts(s).len() ==> (#[trigger] path_parts(s)[k] matches PathPart::Name(x)
                ==> x.len() > 0 && x != seq!['.'] && x != seq!['.', '.'] && has_no_slash(x)),
        (s.len() > 0 && s[0] == '/') <==> (path_parts(s).len() > 0 && path_parts(s)[0]
            == PathPart::Root),
{
    let body_source = if (s.len() > 0 && s[0] == '/') || starts_at_current(s) {
        s.skip(1)
    } else {
        s
    };
    lemma_pieces_have_no_slash(body_source);
    lemma_body_parts_are_inner(pieces(body_source));
    let body = body_parts(pieces(body_source));
    if (s.len() > 0 && s[0] == '/') || starts_at_current(s) {
        assert forall|k: int| 1 <= k < path_parts(s).len() implies is_inner_part(
            #[trigger] path_parts(s)[k],
        ) by {
            assert(path_parts(s)[k] == body[k - 1]);
        }
    } else {
        assert(path_parts(s) == body);
        if body.len() > 0 {
            assert(is_inner_part(body[0]));
        }
    }
}

} // verus!
