//! Confinement of client paths to the served directory tree.
//!
//! A location is the sequence of directory names that leads from the
//! filesystem root to a file. A client path is resolved to a location
//! without touching the filesystem, and is only handed on when that
//! location lies under the location of the served root.

use crate::text::{
    chars_of, copy_chars, is_word, push_chars, same_chars, split, split_pieces_lack_separator,
    split_with_tail, string_of, views,
};
use crate::trusted::{percent_decode, percent_decoded};
use vstd::prelude::*;

verus! {

pub open spec fn dot() -> Seq<char> {
    seq!['.']
}

pub open spec fn dot_dot() -> Seq<char> {
    seq!['.', '.']
}

/// The location reached from `at` by one path segment: an empty segment
/// and `.` stay, `..` goes up (and stays at the top), a name goes down.
pub open spec fn step(at: Seq<Seq<char>>, segment: Seq<char>) -> Seq<Seq<char>> {
    if segment.len() == 0 || segment == dot() {
        at
    } else if segment == dot_dot() {
        if at.len() > 0 {
            at.drop_last()
        } else {
            at
        }
    } else {
        at.push(segment)
    }
}

/// The location reached from `at` by a sequence of path segments.
pub open spec fn walk(at: Seq<Seq<char>>, segments: Seq<Seq<char>>) -> Seq<Seq<char>>
    decreases segments.len(),
{
    if segments.len() == 0 {
        at
    } else {
        step(walk(at, segments.drop_last()), segments.last())
    }
}

pub open spec fn is_absolute(path: Seq<char>) -> bool {
    path.len() > 0 && path[0] == '/'
}

/// The location that `path` names: an absolute path counts from the top,
/// any other path from `base`.
pub open spec fn location_from(base: Seq<Seq<char>>, path: Seq<char>) -> Seq<Seq<char>> {
    if is_absolute(path) {
        walk(Seq::empty(), split(path, '/'))
    } else {
        walk(base, split(path, '/'))
    }
}

/// The location that an absolute path names.
pub open spec fn location(path: Seq<char>) -> Seq<Seq<char>> {
    walk(Seq::empty(), split(path, '/'))
}

/// The names of a location, each behind a slash.
pub open spec fn joined(at: Seq<Seq<char>>) -> Seq<char>
    decreases at.len(),
{
    if at.len() == 0 {
        Seq::empty()
    } else {
        joined(at.drop_last()) + seq!['/'] + at.last()
    }
}

/// The absolute path of a location.
pub open spec fn path_of(at: Seq<Seq<char>>) -> Seq<char> {
    if at.len() == 0 {
        seq!['/']
    } else {
        joined(at)
    }
}

/// The path that a client path stands for when it is read from the
/// directory at `base`: the path of its location, provided the location
/// lies under `root`.
pub open spec fn resolved_from(root: Seq<Seq<char>>, base: Seq<Seq<char>>, path: Seq<char>)
    -> Option<Seq<char>> {
    let at = location_from(base, path);
    if root.is_prefix_of(at) {
        Some(path_of(at))
    } else {
        None
    }
}

/// The path under which a client path is served: it is read from the
/// root.
pub open spec fn resolved(root: Seq<Seq<char>>, path: Seq<char>) -> Option<Seq<char>> {
    resolved_from(root, root, path)
}

/// The directory tree that is served. Its view is its location.
pub struct Root {
    names: Vec<Vec<char>>,
}

impl View for Root {
    type V = Seq<Seq<char>>;

    closed spec fn view(&self) -> Seq<Seq<char>> {
        views(self.names@)
    }
}

impl Root {
    /// A root is a location made of names.
    #[verifier::type_invariant]
    spec fn made_of_names(self) -> bool {
        names_only(views(self.names@))
    }

    /// The root at an absolute path; `None` for a path that is not absolute.
    pub fn new(path: &str) -> (r: Option<Root>)
        ensures
            match r {
                Some(root) => is_absolute(path@) && root@ == location(path@),
                None => !is_absolute(path@),
            },
    {
        let text = chars_of(path);
        if text.len() == 0 || text[0] != '/' {
            return None;
        }
        let mut names: Vec<Vec<char>> = Vec::new();
        assert(views(names@) == Seq::<Seq<char>>::empty());
        walk_text(&mut names, text.as_slice());
        proof {
            location_is_made_of_names(Seq::empty(), path@);
        }
        Some(Root { names })
    }

    /// The absolute path of the root.
    pub fn path(&self) -> (p: String)
        ensures
            p@ == path_of(self@),
            lies_under(self@, p@),
    {
        proof {
            use_type_invariant(self);
            path_names_its_location(self@);
        }
        let text = render(&self.names);
        string_of(text.as_slice())
    }

    /// Whether the location in `at` lies under the root, the root itself
    /// included.
    pub fn holds(&self, at: &Vec<Vec<char>>) -> (r: bool)
        ensures
            r == self@.is_prefix_of(views(at@)),
    {
        starts_with_names(at, &self.names)
    }

    /// Whether the location in `at` is the root.
    pub fn is_at(&self, at: &Vec<Vec<char>>) -> (r: bool)
        ensures
            r == (self@ == views(at@)),
    {
        let under = starts_with_names(at, &self.names);
        assert(views(at@).subrange(0, at.len() as int) == views(at@));
        under && at.len() == self.names.len()
    }

    /// Resolves a client path that is already decoded.
    ///
    /// Returns the path to use, or `None` where the path leads out of the
    /// root: such a path is denied before any access to the filesystem.
    pub fn resolve(&self, path: &str) -> (r: Option<String>)
        ensures
            match r {
                Some(p) => resolved(self@, path@) == Some(p@) && lies_under(self@, p@),
                None => resolved(self@, path@) is None,
            },
    {
        proof {
            use_type_invariant(self);
        }
        let at = copy_names(&self.names);
        self.resolve_at(at, path)
    }

    /// Resolves a decoded client path that is read from the directory at
    /// the absolute path `base`.
    pub fn resolve_from(&self, base: &str, path: &str) -> (r: Option<String>)
        ensures
            match r {
                Some(p) => resolved_from(self@, location(base@), path@) == Some(p@) && lies_under(
                    self@,
                    p@,
                ),
                None => resolved_from(self@, location(base@), path@) is None,
            },
    {
        proof {
            location_is_made_of_names(Seq::empty(), base@);
        }
        self.resolve_at(location_of(base), path)
    }

    fn resolve_at(&self, base: Vec<Vec<char>>, path: &str) -> (r: Option<String>)
        requires
            names_only(views(base@)),
        ensures
            match r {
                Some(p) => resolved_from(self@, views(base@), path@) == Some(p@) && lies_under(
                    self@,
                    p@,
                ),
                None => resolved_from(self@, views(base@), path@) is None,
            },
    {
        proof {
            resolved_lies_under_root(self@, views(base@), path@);
        }
        let text = chars_of(path);
        let mut at: Vec<Vec<char>> = if text.len() > 0 && text[0] == '/' {
            Vec::new()
        } else {
            base
        };
        assert(text.len() > 0 && text@[0] == '/' ==> views(at@) == Seq::<Seq<char>>::empty());
        walk_text(&mut at, text.as_slice());
        if starts_with_names(&at, &self.names) {
            let out = render(&at);
            Some(string_of(out.as_slice()))
        } else {
            None
        }
    }

    /// Resolves a client path as it came in the request, percent-encoded.
    pub fn locate(&self, logical: &str) -> (r: Option<String>)
        ensures
            match r {
                Some(p) => resolved(self@, percent_decoded(logical@)) == Some(p@) && lies_under(
                    self@,
                    p@,
                ),
                None => resolved(self@, percent_decoded(logical@)) is None,
            },
    {
        let decoded = percent_decode(logical);
        self.resolve(decoded.as_str())
    }
}

/// A copy of the location in `at`.
pub fn copy_names(at: &Vec<Vec<char>>) -> (copy: Vec<Vec<char>>)
    ensures
        views(copy@) == views(at@),
{
    let mut copy: Vec<Vec<char>> = Vec::new();
    let mut i: usize = 0;
    assert(views(copy@) == views(at@).take(0));
    while i < at.len()
        invariant
            i <= at.len(),
            views(copy@) == views(at@).take(i as int),
        decreases at.len() - i,
    {
        let ghost before = copy@;
        copy.push(copy_chars(at[i].as_slice()));
        assert(views(copy@) == views(before).push(at@[i as int]@));
        assert(views(copy@) == views(at@).take(i + 1));
        i += 1;
    }
    assert(views(at@).take(at.len() as int) == views(at@));
    copy
}

/// The path of what lies under the name `name` in the directory at `at`.
pub fn child_path(at: &Vec<Vec<char>>, name: &str) -> (p: String)
    ensures
        p@ == path_of(views(at@).push(name@)),
{
    let mut child = copy_names(at);
    let ghost before = child@;
    child.push(chars_of(name));
    assert(views(child@) == views(before).push(name@));
    path_text(&child)
}

/// The path of the directory above the one at `at`.
pub fn parent_path(at: &Vec<Vec<char>>) -> (p: String)
    requires
        at.len() > 0,
    ensures
        p@ == path_of(views(at@).drop_last()),
{
    let mut up = copy_names(at);
    let ghost before = up@;
    up.pop();
    assert(views(up@) == views(before).drop_last());
    path_text(&up)
}

/// The location that an absolute path names.
pub fn location_of(path: &str) -> (at: Vec<Vec<char>>)
    ensures
        views(at@) == location(path@),
{
    let text = chars_of(path);
    let mut at: Vec<Vec<char>> = Vec::new();
    assert(views(at@) == Seq::<Seq<char>>::empty());
    walk_text(&mut at, text.as_slice());
    at
}

/// The absolute path of the location in `at`.
pub fn path_text(at: &Vec<Vec<char>>) -> (p: String)
    ensures
        p@ == path_of(views(at@)),
{
    let text = render(at);
    string_of(text.as_slice())
}

/// Takes one step from the location in `at`.
fn take_step(at: &mut Vec<Vec<char>>, segment: Vec<char>)
    ensures
        views(final(at)@) == step(views(old(at)@), segment@),
{
    proof {
        reveal_strlit(".");
        reveal_strlit("..");
        assert("."@ =~= dot());
        assert(".."@ =~= dot_dot());
    }
    if segment.len() == 0 || is_word(segment.as_slice(), ".") {
    } else if is_word(segment.as_slice(), "..") {
        if at.len() > 0 {
            at.pop();
            assert(views(at@) == views(old(at)@).drop_last());
        }
    } else {
        at.push(segment);
        assert(views(at@) == views(old(at)@).push(segment@));
    }
}

/// Walks the segments of `text` from the location in `at`.
fn walk_text(at: &mut Vec<Vec<char>>, text: &[char])
    ensures
        views(final(at)@) == walk(views(old(at)@), split(text@, '/')),
{
    let ghost base = views(at@);
    let mut segment: Vec<char> = Vec::new();
    let mut i: usize = 0;
    assert(text@.take(0) == Seq::<char>::empty());
    assert(split(text@.take(0), '/').drop_last() == Seq::<Seq<char>>::empty());
    while i < text.len()
        invariant
            i <= text.len(),
            split(text@.take(i as int), '/').len() >= 1,
            views(at@) == walk(base, split(text@.take(i as int), '/').drop_last()),
            segment@ == split(text@.take(i as int), '/').last(),
        decreases text.len() - i,
    {
        let c = text[i];
        let ghost before = split(text@.take(i as int), '/');
        let ghost after = split(text@.take(i + 1), '/');
        assert(text@.take(i + 1).drop_last() == text@.take(i as int));
        assert(text@.take(i + 1).last() == c);
        if c == '/' {
            assert(after.drop_last() == before);
            take_step(at, segment);
            segment = Vec::new();
        } else {
            segment.push(c);
            assert(after.drop_last() == before.drop_last());
        }
        i += 1;
    }
    assert(text@.take(text.len() as int) == text@);
    take_step(at, segment);
}

/// Whether the location in `at` lies under the one in `root`.
fn starts_with_names(at: &Vec<Vec<char>>, root: &Vec<Vec<char>>) -> (r: bool)
    ensures
        r == views(root@).is_prefix_of(views(at@)),
{
    if root.len() > at.len() {
        return false;
    }
    let mut i: usize = 0;
    while i < root.len()
        invariant
            i <= root.len() <= at.len(),
            forall|k: int| 0 <= k < i ==> root@[k]@ == at@[k]@,
        decreases root.len() - i,
    {
        if !same_chars(root[i].as_slice(), at[i].as_slice()) {
            assert(views(root@)[i as int] != views(at@).subrange(0, root.len() as int)[i as int]);
            return false;
        }
        i += 1;
    }
    assert(views(root@) =~= views(at@).subrange(0, root.len() as int));
    true
}

/// The absolute path of the location in `at`.
fn render(at: &Vec<Vec<char>>) -> (out: Vec<char>)
    ensures
        out@ == path_of(views(at@)),
{
    let mut out: Vec<char> = Vec::new();
    if at.len() == 0 {
        out.push('/');
        assert(out@ == seq!['/']);
        return out;
    }
    let mut i: usize = 0;
    assert(views(at@).take(0) == Seq::<Seq<char>>::empty());
    while i < at.len()
        invariant
            i <= at.len(),
            out@ == joined(views(at@).take(i as int)),
        decreases at.len() - i,
    {
        let ghost seen = views(at@).take(i + 1);
        assert(seen.drop_last() == views(at@).take(i as int));
        assert(seen.last() == at@[i as int]@);
        out.push('/');
        push_chars(&mut out, at[i].as_slice());
        assert(out@ == joined(seen.drop_last()) + seq!['/'] + seen.last());
        i += 1;
    }
    assert(views(at@).take(at.len() as int) == views(at@));
    out
}

/// Whether a path segment is the name of something: not empty, neither
/// `.` nor `..`, and without a slash.
pub open spec fn is_name(segment: Seq<char>) -> bool {
    segment.len() > 0 && segment != dot() && segment != dot_dot() && !segment.contains('/')
}

/// Whether a location is made of names.
pub open spec fn names_only(at: Seq<Seq<char>>) -> bool {
    forall|i: int| 0 <= i < at.len() ==> is_name(#[trigger] at[i])
}

/// Whether an absolute path names a location under `root`.
pub open spec fn lies_under(root: Seq<Seq<char>>, path: Seq<char>) -> bool {
    is_absolute(path) && root.is_prefix_of(location(path))
}

proof fn walk_keeps_names(at: Seq<Seq<char>>, segments: Seq<Seq<char>>)
    requires
        names_only(at),
        forall|i: int| 0 <= i < segments.len() ==> !(#[trigger] segments[i]).contains('/'),
    ensures
        names_only(walk(at, segments)),
    decreases segments.len(),
{
    if segments.len() > 0 {
        let rest = segments.drop_last();
        assert forall|i: int| 0 <= i < rest.len() implies !(#[trigger] rest[i]).contains('/') by {
            assert(rest[i] == segments[i]);
        }
        walk_keeps_names(at, rest);
        let before = walk(at, rest);
        let after = step(before, segments.last());
        assert(!segments[segments.len() - 1].contains('/'));
        assert forall|i: int| 0 <= i < after.len() implies is_name(#[trigger] after[i]) by {
            if i < before.len() {
                assert(after[i] == before[i]);
            }
        }
    }
}

/// Every path names a location made of names, from a base that is.
pub proof fn location_is_made_of_names(base: Seq<Seq<char>>, path: Seq<char>)
    requires
        names_only(base),
    ensures
        names_only(location_from(base, path)),
        names_only(location(path)),
{
    split_pieces_lack_separator(path, '/');
    walk_keeps_names(base, split(path, '/'));
    walk_keeps_names(Seq::empty(), split(path, '/'));
}

proof fn split_of_joined(at: Seq<Seq<char>>)
    requires
        names_only(at),
    ensures
        split(joined(at), '/') == seq![Seq::<char>::empty()] + at,
        at.len() > 0 ==> joined(at).len() > 0 && joined(at)[0] == '/',
    decreases at.len(),
{
    if at.len() > 0 {
        let rest = at.drop_last();
        let name = at.last();
        assert(names_only(rest)) by {
            assert forall|i: int| 0 <= i < rest.len() implies is_name(#[trigger] rest[i]) by {
                assert(rest[i] == at[i]);
            }
        }
        assert(is_name(at[at.len() - 1]));
        split_of_joined(rest);
        let head = joined(rest) + seq!['/'];
        assert(head.drop_last() == joined(rest));
        assert(head.last() == '/');
        assert(split(head, '/') == split(joined(rest), '/').push(Seq::<char>::empty()));
        split_with_tail(head, name, '/');
        assert(Seq::<char>::empty() + name == name);
        assert(split(joined(at), '/') == (seq![Seq::<char>::empty()] + rest).push(name));
        assert((seq![Seq::<char>::empty()] + rest).push(name) == seq![Seq::<char>::empty()] + at);
        if rest.len() == 0 {
            assert(joined(rest) == Seq::<char>::empty());
            assert(joined(at)[0] == '/');
        } else {
            assert(joined(at)[0] == joined(rest)[0]);
        }
    } else {
        assert(seq![Seq::<char>::empty()] + at == seq![Seq::<char>::empty()]);
    }
}

proof fn walk_over_names(at: Seq<Seq<char>>)
    requires
        names_only(at),
    ensures
        walk(Seq::empty(), seq![Seq::<char>::empty()] + at) == at,
    decreases at.len(),
{
    let segments = seq![Seq::<char>::empty()] + at;
    if at.len() > 0 {
        let rest = at.drop_last();
        assert(names_only(rest)) by {
            assert forall|i: int| 0 <= i < rest.len() implies is_name(#[trigger] rest[i]) by {
                assert(rest[i] == at[i]);
            }
        }
        walk_over_names(rest);
        assert(segments.drop_last() == seq![Seq::<char>::empty()] + rest);
        assert(segments.last() == at.last());
        assert(is_name(at[at.len() - 1]));
        assert(walk(Seq::empty(), segments) == step(rest, at.last()));
        assert(step(rest, at.last()) == rest.push(at.last()));
        assert(rest.push(at.last()) == at);
    } else {
        assert(segments.drop_last() == Seq::<Seq<char>>::empty());
        assert(segments.last() == Seq::<char>::empty());
        assert(walk(Seq::empty(), segments.drop_last()) == Seq::<Seq<char>>::empty());
        assert(walk(Seq::empty(), segments) == step(Seq::empty(), Seq::<char>::empty()));
        assert(at == Seq::<Seq<char>>::empty());
    }
}

/// The path of a location made of names is absolute and names that
/// location.
pub proof fn path_names_its_location(at: Seq<Seq<char>>)
    requires
        names_only(at),
    ensures
        is_absolute(path_of(at)),
        location(path_of(at)) == at,
{
    if at.len() > 0 {
        split_of_joined(at);
        walk_over_names(at);
    } else {
        let slash = seq!['/'];
        assert(slash.drop_last() == Seq::<char>::empty());
        assert(split(slash, '/') == seq![Seq::<char>::empty(), Seq::<char>::empty()]) by {
            reveal_with_fuel(split, 2);
        }
        let pieces = split(slash, '/');
        assert(pieces.drop_last() == seq![Seq::<char>::empty()]);
        assert(pieces.drop_last().drop_last() == Seq::<Seq<char>>::empty());
        assert(walk(Seq::empty(), pieces) == Seq::<Seq<char>>::empty()) by {
            reveal_with_fuel(walk, 3);
        }
    }
}

/// Whatever path a client gives, the path that it resolves to lies under
/// the root: it is absolute, and the location that it names is the one
/// that the client path named and has the root before it.
pub proof fn resolved_lies_under_root(root: Seq<Seq<char>>, base: Seq<Seq<char>>, path: Seq<char>)
    requires
        names_only(base),
    ensures
        match resolved_from(root, base, path) {
            Some(p) => lies_under(root, p) && location(p) == location_from(base, path),
            None => !root.is_prefix_of(location_from(base, path)),
        },
{
    location_is_made_of_names(base, path);
    path_names_its_location(location_from(base, path));
}

} // verus!
