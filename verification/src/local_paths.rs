//! Local paths: the root that is shown, and the names on the way to a confined file.

use crate::bytes::{same_text, utf8};
use crate::failure::{Error, OperationFailure};
use vstd::prelude::*;

verus! {

/// The text without the slashes at its end, of which the first character stays.
pub open spec fn trimmed(text: Seq<char>) -> Seq<char>
    decreases text.len(),
{
    if text.len() > 1 && text.last() == '/' {
        trimmed(text.drop_last())
    } else {
        text
    }
}

/// The root that is shown for a requested one: it ends in one slash.
pub open spec fn shown(text: Seq<char>) -> Seq<char> {
    if trimmed(text) == "/"@ {
        trimmed(text)
    } else {
        trimmed(text) + "/"@
    }
}

/// Shows a requested root.
pub fn shown_root(requested: &str) -> (root: String)
    ensures
        root@ == shown(requested@),
{
    proof {
        reveal_strlit("/");
    }
    let mut end: usize = requested.unicode_len();
    assert(requested@.take(end as int) =~= requested@);
    while end > 1 && requested.get_char(end - 1) == '/'
        invariant
            end <= requested@.len(),
            trimmed(requested@) == trimmed(requested@.take(end as int)),
        decreases end,
    {
        assert(requested@.take(end as int).drop_last() =~= requested@.take(end - 1));
        end -= 1;
    }
    let kept = requested.substring_char(0, end);
    assert(kept@ =~= requested@.take(end as int));
    assert(kept@ == trimmed(requested@));
    let mut root = kept.to_owned();
    if end == 1 && requested.get_char(0) == '/' {
        assert(kept@ =~= "/"@);
        return root;
    }
    assert(kept@ != "/"@) by {
        if kept@ == "/"@ {
            assert(kept@.len() == 1);
            assert(kept@[0] == requested@[0]);
        }
    }
    root.append("/");
    root
}

/// A piece of a path that names something.
pub open spec fn named(piece: Seq<char>) -> Seq<Seq<char>> {
    if piece.len() == 0 || piece == "."@ {
        Seq::empty()
    } else {
        Seq::empty().push(piece)
    }
}

/// The names of a path from `at` on, where a piece began at `from`. Slashes separate pieces; empty
/// pieces and pieces of one dot name nothing.
pub open spec fn names_from(text: Seq<char>, from: int, at: int) -> Seq<Seq<char>>
    decreases text.len() - at,
{
    if at >= text.len() {
        named(text.subrange(from, text.len() as int))
    } else if text[at] == '/' {
        named(text.subrange(from, at)) + names_from(text, at + 1, at + 1)
    } else {
        names_from(text, from, at + 1)
    }
}

/// The names of a path.
pub open spec fn names_in(text: Seq<char>) -> Seq<Seq<char>> {
    names_from(text, 0, 0)
}

/// The characters of texts.
pub open spec fn texts(list: Seq<String>) -> Seq<Seq<char>> {
    Seq::new(list.len(), |i: int| list[i]@)
}

fn push_name(names: &mut Vec<String>, text: &str, from: usize, to: usize)
    requires
        from <= to <= text@.len(),
    ensures
        texts(final(names)@) == texts(old(names)@) + named(text@.subrange(from as int, to as int)),
{
    proof {
        reveal_strlit(".");
    }
    let piece = text.substring_char(from, to);
    let ghost before = names@;
    if from == to {
        assert(texts(names@) =~= texts(before) + named(piece@));
        return;
    }
    if to - from == 1 && text.get_char(from) == '.' {
        assert(piece@ =~= "."@);
        assert(texts(names@) =~= texts(before) + named(piece@));
        return;
    }
    assert(piece@ != "."@) by {
        if piece@ == "."@ {
            assert(piece@.len() == 1);
            assert(piece@[0] == text@[from as int]);
        }
    }
    names.push(piece.to_owned());
    assert(texts(names@) =~= texts(before) + named(piece@));
}

/// Reads the names of a path.
pub fn read_names(text: &str) -> (names: Vec<String>)
    ensures
        texts(names@) == names_in(text@),
{
    let length: usize = text.unicode_len();
    let mut names: Vec<String> = Vec::new();
    let mut from: usize = 0;
    let mut at: usize = 0;
    assert(texts(names@) =~= Seq::empty());
    assert(texts(names@) + names_from(text@, 0, 0) =~= names_in(text@));
    while at < length
        invariant
            length == text@.len(),
            from <= at <= length,
            texts(names@) + names_from(text@, from as int, at as int) == names_in(text@),
        decreases length - at,
    {
        if text.get_char(at) == '/' {
            let ghost before = texts(names@);
            push_name(&mut names, text, from, at);
            assert(before + (named(text@.subrange(from as int, at as int)) + names_from(
                text@,
                at + 1,
                at + 1,
            )) =~= (before + named(text@.subrange(from as int, at as int))) + names_from(
                text@,
                at + 1,
                at + 1,
            ));
            from = at + 1;
        }
        at += 1;
    }
    push_name(&mut names, text, from, length);
    names
}

/// One step on the way to a confined file.
#[derive(Debug, PartialEq, Eq)]
pub enum LocalStep {
    /// Opens a directory.
    Directory(String),
    /// Opens the file.
    File(String),
    /// Leaves the admitted root.
    Outside,
}

/// The names behind the root are those of the path behind the names of the root.
pub open spec fn under(root: Seq<Seq<char>>, path: Seq<Seq<char>>) -> bool {
    &&& root.len() <= path.len()
    &&& forall|i: int|
        0 <= i < root.len() ==> utf8(#[trigger] root[i]) == utf8(path[i])
}

/// The step is that of a name, where `last` says whether the path ends with it.
pub open spec fn step_of(name: Seq<char>, last: bool, step: LocalStep) -> bool {
    if utf8(name) == utf8(".."@) {
        step is Outside
    } else if last {
        step matches LocalStep::File(text) && text@ == name
    } else {
        step matches LocalStep::Directory(text) && text@ == name
    }
}

/// The path begins at the root of the file system.
pub open spec fn absolute(text: Seq<char>) -> bool {
    text.len() > 0 && text[0] == '/'
}

/// Why a path is not opened.
pub open spec fn path_refused(root: Seq<char>, path: Seq<char>) -> Option<Seq<char>> {
    if root.len() == 0 {
        Some("local task source is cancelled"@)
    } else if absolute(root) != absolute(path) || !under(names_in(root), names_in(path)) {
        Some("local object is outside the admitted root"@)
    } else if names_in(path).len() == names_in(root).len() {
        Some("local object path does not name a file"@)
    } else {
        None
    }
}

/// `r` is the way to a path.
pub open spec fn way_to(root: Seq<char>, path: Seq<char>, r: Result<Vec<LocalStep>, OperationFailure>) -> bool {
    match path_refused(root, path) {
        Some(text) => r matches Err(failure) && generic(failure, text),
        None => {
            let names = names_in(path);
            let skipped = names_in(root).len();
            &&& r matches Ok(steps)
            &&& steps@.len() == names.len() - skipped
            &&& forall|i: int|
                0 <= i < steps@.len() ==> step_of(
                    names[skipped + i],
                    skipped + i + 1 == names.len(),
                    #[trigger] steps@[i],
                )
        },
    }
}

/// The failure carries a described error.
pub open spec fn generic(failure: OperationFailure, text: Seq<char>) -> bool {
    &&& failure.category() == crate::failure::FailureKind::Engine
    &&& failure.origin() matches Some(Error::Generic(message))
    &&& message@ == text
}

pub(crate) fn described(text: &str) -> (failure: OperationFailure)
    ensures
        generic(failure, text@),
{
    OperationFailure::engine(Error::generic(text))
}

/// A failure of a description and the reason that follows it.
pub(crate) fn described_by(text: &str, reason: &str) -> (failure: OperationFailure)
    ensures
        generic(failure, text@ + reason@),
{
    let mut message = text.to_owned();
    message.append(reason);
    OperationFailure::engine(Error::generic(message.as_str()))
}

fn is_absolute(text: &str) -> (r: bool)
    ensures
        r == absolute(text@),
{
    text.unicode_len() > 0 && text.get_char(0) == '/'
}

fn is_under(root: &Vec<String>, path: &Vec<String>) -> (r: bool)
    ensures
        r == under(texts(root@), texts(path@)),
{
    if root.len() > path.len() {
        return false;
    }
    let mut i: usize = 0;
    while i < root.len()
        invariant
            i <= root@.len() <= path@.len(),
            forall|j: int|
                0 <= j < i ==> utf8(#[trigger] texts(root@)[j]) == utf8(texts(path@)[j]),
        decreases root@.len() - i,
    {
        if !same_text(root[i].as_str(), path[i].as_str()) {
            assert(utf8(texts(root@)[i as int]) != utf8(texts(path@)[i as int]));
            return false;
        }
        i += 1;
    }
    true
}

/// Finds the way to a path under a root. Every directory on the way, and the file, are opened
/// relative to the one before, so that nothing is followed out of the root.
pub fn confined_steps(root: &str, path: &str) -> (r: Result<Vec<LocalStep>, OperationFailure>)
    ensures
        way_to(root@, path@, r),
{
    if root.unicode_len() == 0 {
        return Err(described("local task source is cancelled"));
    }
    let prefix = read_names(root);
    let names = read_names(path);
    if is_absolute(root) != is_absolute(path) || !is_under(&prefix, &names) {
        return Err(described("local object is outside the admitted root"));
    }
    assert(prefix@.len() == names_in(root@).len()) by {
        assert(texts(prefix@).len() == prefix@.len());
    }
    assert(names@.len() == names_in(path@).len()) by {
        assert(texts(names@).len() == names@.len());
    }
    if names.len() == prefix.len() {
        return Err(described("local object path does not name a file"));
    }
    let mut steps: Vec<LocalStep> = Vec::new();
    let mut i: usize = prefix.len();
    while i < names.len()
        invariant
            prefix@.len() <= i <= names@.len(),
            steps@.len() == i - prefix@.len(),
            texts(names@) == names_in(path@),
            forall|j: int|
                0 <= j < steps@.len() ==> step_of(
                    names_in(path@)[prefix@.len() + j],
                    prefix@.len() + j + 1 == names@.len(),
                    #[trigger] steps@[j],
                ),
        decreases names@.len() - i,
    {
        assert(texts(names@)[i as int] == names@[i as int]@);
        let name = names[i].as_str();
        let step = if same_text(name, "..") {
            LocalStep::Outside
        } else if i + 1 == names.len() {
            LocalStep::File(name.to_owned())
        } else {
            LocalStep::Directory(name.to_owned())
        };
        steps.push(step);
        i += 1;
    }
    Ok(steps)
}

/// Without a step outside, every name on the way is an ordinary one.
pub proof fn confined_ways_stay_inside(
    root: Seq<char>,
    path: Seq<char>,
    r: Result<Vec<LocalStep>, OperationFailure>,
    i: int,
)
    requires
        way_to(root, path, r),
        r is Ok,
        0 <= i < r->Ok_0@.len(),
        !(r->Ok_0@[i] is Outside),
    ensures
        utf8(names_in(path)[names_in(root).len() + i]) != utf8(".."@),
        under(names_in(root), names_in(path)),
{
    let steps = r->Ok_0@;
    assert(step_of(
        names_in(path)[names_in(root).len() + i],
        names_in(root).len() + i + 1 == names_in(path).len(),
        steps[i],
    ));
}

/// A shown root is the requested one with exactly one slash at its end: the slashes that stood there
/// are one slash then, and everything in front of them stays.
pub proof fn shown_roots_end_in_one_slash(text: Seq<char>)
    ensures
        trimmed(text).len() <= text.len(),
        text.take(trimmed(text).len() as int) == trimmed(text),
        forall|i: int| trimmed(text).len() <= i < text.len() ==> #[trigger] text[i] == '/',
        trimmed(text).len() > 1 ==> trimmed(text).last() != '/',
        shown(text).len() > 0 && shown(text).last() == '/',
        trimmed(text).len() > 1 ==> shown(text).drop_last() == trimmed(text),
        text.len() > 0 ==> trimmed(text).len() > 0,
    decreases text.len(),
{
    reveal_strlit("/");
    if text.len() > 1 && text.last() == '/' {
        let rest = text.drop_last();
        shown_roots_end_in_one_slash(rest);
        assert(text.take(trimmed(text).len() as int) =~= rest.take(trimmed(rest).len() as int));
        assert forall|i: int| trimmed(text).len() <= i < text.len() implies #[trigger] text[i]
            == '/' by {
            if i < rest.len() {
                assert(rest[i] == text[i]);
            }
        }
    } else {
        assert(text.take(text.len() as int) =~= text);
        assert(trimmed(text).len() > 1 ==> shown(text).drop_last() =~= trimmed(text));
    }
}

proof fn names_skip_to_a_slash(text: Seq<char>, rest: Seq<char>, from: int, at: int)
    requires
        0 <= from <= at <= text.len(),
    ensures
        names_from(text + "/"@ + rest, from, at) == names_from(text, from, at) + names_from(
            text + "/"@ + rest,
            text.len() as int + 1,
            text.len() as int + 1,
        ),
    decreases text.len() - at,
{
    reveal_strlit("/");
    let whole = text + "/"@ + rest;
    if at == text.len() {
        assert(whole[at] == '/');
        assert(whole.subrange(from, at) =~= text.subrange(from, at));
    } else {
        assert(whole[at] == text[at]);
        if text[at] == '/' {
            names_skip_to_a_slash(text, rest, at + 1, at + 1);
            assert(whole.subrange(from, at) =~= text.subrange(from, at));
            assert(named(text.subrange(from, at)) + (names_from(text, at + 1, at + 1) + names_from(
                whole,
                text.len() as int + 1,
                text.len() as int + 1,
            )) =~= named(text.subrange(from, at)) + names_from(text, at + 1, at + 1) + names_from(
                whole,
                text.len() as int + 1,
                text.len() as int + 1,
            ));
        } else {
            names_skip_to_a_slash(text, rest, from, at + 1);
        }
    }
}

proof fn names_move(front: Seq<char>, text: Seq<char>, from: int, at: int)
    requires
        0 <= from <= at <= text.len(),
    ensures
        names_from(front + text, front.len() + from, front.len() + at) == names_from(text, from, at),
    decreases text.len() - at,
{
    let whole = front + text;
    if at < text.len() {
        assert(whole[front.len() + at] == text[at]);
        assert(whole.subrange(front.len() + from, front.len() + at) =~= text.subrange(from, at));
        if text[at] == '/' {
            names_move(front, text, at + 1, at + 1);
        } else {
            names_move(front, text, from, at + 1);
        }
    } else {
        assert(whole.subrange(front.len() + from, whole.len() as int) =~= text.subrange(
            from,
            text.len() as int,
        ));
    }
}

proof fn pieces_have_one_name(text: Seq<char>, from: int, at: int)
    requires
        0 <= from <= at <= text.len(),
        forall|i: int| at <= i < text.len() ==> #[trigger] text[i] != '/',
    ensures
        names_from(text, from, at) == named(text.subrange(from, text.len() as int)),
    decreases text.len() - at,
{
    if at < text.len() {
        pieces_have_one_name(text, from, at + 1);
    }
}

/// The names of a path are its pieces between slashes: those of two paths that a slash joins are those
/// of the first and of the second, and a piece without a slash names itself, unless it is empty or
/// one dot.
pub proof fn names_are_the_pieces_between_slashes(left: Seq<char>, right: Seq<char>, piece: Seq<char>)
    requires
        forall|i: int| 0 <= i < piece.len() ==> #[trigger] piece[i] != '/',
    ensures
        names_in(left + "/"@ + right) == names_in(left) + names_in(right),
        names_in(piece) == (if piece.len() == 0 || piece == seq!['.'] {
            Seq::<Seq<char>>::empty()
        } else {
            seq![piece]
        }),
{
    reveal_strlit("/");
    reveal_strlit(".");
    names_skip_to_a_slash(left, right, 0, 0);
    let front = left + "/"@;
    names_move(front, right, 0, 0);
    assert(front + right == left + "/"@ + right);
    pieces_have_one_name(piece, 0, 0);
    assert(piece.subrange(0, piece.len() as int) =~= piece);
    assert("."@ =~= seq!['.']);
    assert(Seq::<Seq<char>>::empty().push(piece) =~= seq![piece]);
}

/// A path is opened exactly where it lies under the root and names something in it: the names of the
/// root are the first of its own, and it has more. The way to it is those other names, one by one: a
/// directory for each, and a file for the last.
pub proof fn paths_are_opened_under_their_root(
    root: Seq<char>,
    path: Seq<char>,
    r: Result<Vec<LocalStep>, OperationFailure>,
)
    requires
        way_to(root, path, r),
    ensures
        r is Ok <==> {
            &&& root.len() > 0
            &&& (root[0] == '/') == (path.len() > 0 && path[0] == '/')
            &&& names_in(root).len() < names_in(path).len()
            &&& forall|i: int|
                0 <= i < names_in(root).len() ==> #[trigger] names_in(root)[i] == names_in(path)[i]
        },
        r matches Ok(steps) ==> {
            &&& steps@.len() == names_in(path).len() - names_in(root).len()
            &&& forall|i: int|
                0 <= i < steps@.len() ==> {
                    let name = names_in(path)[names_in(root).len() + i];
                    match #[trigger] steps@[i] {
                        LocalStep::Directory(text) => text@ == name && i < steps@.len() - 1,
                        LocalStep::File(text) => text@ == name && i == steps@.len() - 1,
                        LocalStep::Outside => name == seq!['.', '.'],
                    }
                }
        },
{
    assert forall|i: int| 0 <= i < names_in(root).len() && i < names_in(path).len() implies (utf8(
        #[trigger] names_in(root)[i],
    ) == utf8(names_in(path)[i]) <==> names_in(root)[i] == names_in(path)[i]) by {
        vstd::utf8::encode_utf8_decode_utf8(names_in(root)[i]);
        vstd::utf8::encode_utf8_decode_utf8(names_in(path)[i]);
    }
    if let Ok(steps) = r {
        assert forall|i: int| 0 <= i < steps@.len() implies {
            let name = names_in(path)[names_in(root).len() + i];
            match #[trigger] steps@[i] {
                LocalStep::Directory(text) => text@ == name && i < steps@.len() - 1,
                LocalStep::File(text) => text@ == name && i == steps@.len() - 1,
                LocalStep::Outside => name == seq!['.', '.'],
            }
        } by {
            let name = names_in(path)[names_in(root).len() + i];
            vstd::utf8::encode_utf8_decode_utf8(name);
            vstd::utf8::encode_utf8_decode_utf8(".."@);
            reveal_strlit("..");
            assert(".."@ =~= seq!['.', '.']);
            assert(step_of(name, names_in(root).len() + i + 1 == names_in(path).len(), steps@[i]));
        }
    }
}

} // verus!
