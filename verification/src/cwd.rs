//! Working directories: absolute paths without detours.

use crate::text::{chars_of, same_text};
use vstd::prelude::*;

verus! {

/// The names on the way to a directory, once one more part of a path is
/// taken: nothing and `.` stay where they are, and `..` goes back.
pub open spec fn stepped(names: Seq<Seq<char>>, part: Seq<char>) -> Seq<Seq<char>> {
    if part.len() == 0 || part == "."@ {
        names
    } else if part == ".."@ {
        if names.len() == 0 {
            names
        } else {
            names.drop_last()
        }
    } else {
        names.push(part)
    }
}

/// The names on the way and the part of the path that is being read, behind
/// the first `count` characters.
pub open spec fn walked(path: Seq<char>, count: nat) -> (Seq<Seq<char>>, Seq<char>)
    decreases count,
{
    if count == 0 {
        (Seq::empty(), Seq::empty())
    } else {
        let (names, part) = walked(path, (count - 1) as nat);
        if path[count - 1] == '/' {
            (stepped(names, part), Seq::empty())
        } else {
            (names, part.push(path[count - 1]))
        }
    }
}

/// The names on the way from the root to where a path leads.
pub open spec fn names_of(path: Seq<char>) -> Seq<Seq<char>> {
    let (names, part) = walked(path, path.len());
    stepped(names, part)
}

/// The first `count` of the names, each behind a `/`.
pub open spec fn path_of(names: Seq<Seq<char>>, count: nat) -> Seq<char>
    decreases count,
{
    if count == 0 {
        Seq::empty()
    } else {
        path_of(names, (count - 1) as nat).push('/') + names[count - 1]
    }
}

/// The absolute path without detours that leads where a path does. A path that
/// does not start at the root is read as if it did.
pub open spec fn canonical(path: Seq<char>) -> Seq<char> {
    let names = names_of(path);
    if names.len() == 0 {
        seq!['/']
    } else {
        path_of(names, names.len())
    }
}

/// A name on the way: it is neither empty nor `.` nor `..`, and holds no `/`.
pub open spec fn is_name(part: Seq<char>) -> bool {
    &&& part.len() > 0
    &&& part != "."@
    &&& part != ".."@
    &&& !part.contains('/')
}

/// The texts, as mathematical values.
pub open spec fn views(names: Seq<String>) -> Seq<Seq<char>> {
    Seq::new(names.len(), |i: int| names[i]@)
}

/// Takes one more part of a path.
fn take_part(names: &mut Vec<String>, part: String)
    ensures
        views(final(names)@) == stepped(views(old(names)@), part@),
{
    proof {
        reveal_strlit("");
    }
    let ghost before = views(names@);
    if same_text(part.as_str(), "") || same_text(part.as_str(), ".") {
        assert(part@.len() == 0 || part@ == "."@);
        return;
    }
    assert(part@.len() > 0) by {
        if part@.len() == 0 {
            assert(part@ =~= ""@);
        }
    }
    if same_text(part.as_str(), "..") {
        if names.len() > 0 {
            names.pop();
            assert(views(names@) =~= before.drop_last());
        }
        return;
    }
    names.push(part);
    assert(views(names@) =~= before.push(part@));
}

/// The absolute path without detours that leads where a path does.
pub fn canonical_cwd(path: &str) -> (cwd: String)
    ensures
        cwd@ == canonical(path@),
{
    let chars = chars_of(path);
    let mut names: Vec<String> = Vec::new();
    let mut part = String::new();
    let mut i: usize = 0;
    assert(views(names@) =~= Seq::<Seq<char>>::empty());
    assert(part@ =~= Seq::<char>::empty());
    while i < chars.len()
        invariant
            i <= chars@.len(),
            walked(chars@, i as nat) == (views(names@), part@),
        decreases chars@.len() - i,
    {
        let c: char = chars[i];
        if c == '/' {
            take_part(&mut names, part);
            part = String::new();
            assert(part@ =~= Seq::<char>::empty());
        } else {
            part.push(c);
        }
        i = i + 1;
    }
    take_part(&mut names, part);
    if names.len() == 0 {
        let mut root = String::new();
        root.push('/');
        assert(root@ =~= seq!['/']);
        return root;
    }
    let mut cwd = String::new();
    let mut k: usize = 0;
    assert(cwd@ =~= path_of(views(names@), 0));
    while k < names.len()
        invariant
            k <= names@.len(),
            cwd@ == path_of(views(names@), k as nat),
        decreases names@.len() - k,
    {
        cwd.push('/');
        cwd.append(names[k].as_str());
        k = k + 1;
    }
    cwd
}

/// What is read of a path are names, and a part without a `/`.
proof fn lemma_walked(path: Seq<char>, count: nat)
    requires
        count <= path.len(),
    ensures
        forall|i: int| 0 <= i < walked(path, count).0.len() ==> is_name(#[trigger] walked(path, count).0[i]),
        !walked(path, count).1.contains('/'),
    decreases count,
{
    if count > 0 {
        lemma_walked(path, (count - 1) as nat);
        let (names, part) = walked(path, (count - 1) as nat);
        if path[count - 1] != '/' {
            let longer = part.push(path[count - 1]);
            assert forall|i: int| 0 <= i < longer.len() implies #[trigger] longer[i] != '/' by {
                if i < part.len() {
                    assert(part.contains(part[i]));
                }
            }
        }
    }
}

/// What a working directory is made of: it starts at the root, and every part
/// of it is a name.
pub proof fn law_working_directories_are_absolute(path: Seq<char>)
    ensures
        canonical(path).len() > 0,
        canonical(path)[0] == '/',
        forall|i: int| 0 <= i < names_of(path).len() ==> is_name(#[trigger] names_of(path)[i]),
{
    lemma_walked(path, path.len());
    let names = names_of(path);
    if names.len() > 0 {
        lemma_first(names, names.len());
    }
}

/// A path of names starts with a `/`.
proof fn lemma_first(names: Seq<Seq<char>>, count: nat)
    requires
        0 < count <= names.len(),
    ensures
        path_of(names, count).len() > 0,
        path_of(names, count)[0] == '/',
    decreases count,
{
    let open = path_of(names, (count - 1) as nat).push('/');
    if count > 1 {
        lemma_first(names, (count - 1) as nat);
    } else {
        reveal_with_fuel(path_of, 2);
    }
    assert(open[0] == '/');
    assert((open + names[count - 1])[0] == open[0]);
}

/// Only what is read counts.
proof fn lemma_walked_prefix(path: Seq<char>, other: Seq<char>, count: nat)
    requires
        count <= path.len(),
        count <= other.len(),
        path.subrange(0, count as int) == other.subrange(0, count as int),
    ensures
        walked(path, count) == walked(other, count),
    decreases count,
{
    if count > 0 {
        let less = (count - 1) as nat;
        let ours = path.subrange(0, count as int);
        let theirs = other.subrange(0, count as int);
        assert(ours[less as int] == path[less as int]);
        assert(theirs[less as int] == other[less as int]);
        assert(path.subrange(0, less as int) =~= path.subrange(0, count as int).subrange(0, less as int));
        assert(other.subrange(0, less as int) =~= other.subrange(0, count as int).subrange(0, less as int));
        lemma_walked_prefix(path, other, less);
    } else {
        assert(walked(path, 0) == walked(other, 0));
    }
}

/// A name is read to its end.
proof fn lemma_walked_name(before: Seq<char>, name: Seq<char>, count: nat)
    requires
        !name.contains('/'),
        count <= name.len(),
        walked(before, before.len()).1.len() == 0,
    ensures
        walked(before + name, before.len() + count) == (
            walked(before, before.len()).0,
            name.subrange(0, count as int),
        ),
    decreases count,
{
    let whole = before + name;
    if count == 0 {
        assert(whole.subrange(0, before.len() as int) =~= before.subrange(0, before.len() as int));
        lemma_walked_prefix(whole, before, before.len());
        assert(name.subrange(0, 0) =~= walked(before, before.len()).1);
    } else {
        let less = (count - 1) as nat;
        lemma_walked_name(before, name, less);
        assert(whole[before.len() + count - 1] == name[less as int]);
        assert(name.contains(name[less as int]));
        assert(name.subrange(0, count as int) =~= name.subrange(0, less as int).push(name[less as int]));
        assert((before.len() + count - 1) as nat == before.len() + less);
    }
}

/// A path of names is read as these names.
proof fn lemma_names_of_path(names: Seq<Seq<char>>, count: nat)
    requires
        0 < count <= names.len(),
        forall|i: int| 0 <= i < names.len() ==> is_name(#[trigger] names[i]),
    ensures
        walked(path_of(names, count), path_of(names, count).len()) == (
            names.subrange(0, count - 1),
            names[count - 1],
        ),
    decreases count,
{
    let less = (count - 1) as nat;
    let shorter = path_of(names, less);
    let open = shorter.push('/');
    assert(is_name(names[less as int]));
    assert(walked(open, open.len()) == (names.subrange(0, less as int), Seq::<char>::empty())) by {
        assert(open.subrange(0, shorter.len() as int) =~= shorter.subrange(0, shorter.len() as int));
        lemma_walked_prefix(open, shorter, shorter.len());
        if less > 0 {
            lemma_names_of_path(names, less);
            let last = names[less - 1];
            assert(is_name(last));
            assert(stepped(names.subrange(0, less - 1), last) =~= names.subrange(0, less as int));
        } else {
            assert(names.subrange(0, 0) =~= Seq::<Seq<char>>::empty());
            assert(stepped(Seq::<Seq<char>>::empty(), Seq::<char>::empty()) == Seq::<Seq<char>>::empty());
        }
    }
    lemma_walked_name(open, names[less as int], names[less as int].len());
    assert(names[less as int].subrange(0, names[less as int].len() as int) =~= names[less as int]);
    assert(path_of(names, count) == open + names[less as int]);
    assert((open + names[less as int]).len() == open.len() + names[less as int].len());
}

/// A working directory leads to itself.
pub proof fn law_working_directories_lead_to_themselves(path: Seq<char>)
    ensures
        canonical(canonical(path)) == canonical(path),
{
    law_working_directories_are_absolute(path);
    let names = names_of(path);
    if names.len() == 0 {
        let root = seq!['/'];
        reveal_with_fuel(walked, 2);
        assert(walked(root, 1) == (Seq::<Seq<char>>::empty(), Seq::<char>::empty()));
    } else {
        lemma_names_of_path(names, names.len());
        let last = names[names.len() - 1];
        assert(is_name(last));
        assert(stepped(names.subrange(0, names.len() - 1), last) =~= names);
    }
}

/// A step behind a path is one step from where the path leads: a name goes down,
/// `..` goes up and stays at the root, and `.` stays.
pub proof fn law_paths_are_walked_step_by_step(path: Seq<char>, part: Seq<char>)
    requires
        !part.contains('/'),
    ensures
        ({
            let longer = names_of(path.push('/') + part);
            &&& is_name(part) ==> longer == names_of(path).push(part)
            &&& part == ".."@ && names_of(path).len() > 0 ==> longer == names_of(path).drop_last()
            &&& part == ".."@ && names_of(path).len() == 0 ==> longer.len() == 0
            &&& part == "."@ ==> longer == names_of(path)
            &&& part.len() == 0 ==> longer == names_of(path)
        }),
{
    reveal_strlit(".");
    reveal_strlit("..");
    assert("."@.len() == 1 && ".."@.len() == 2);
    let cut = path.push('/');
    let whole = cut + part;
    lemma_walked_longer(path, seq!['/'] + part, path.len());
    assert(path + (seq!['/'] + part) =~= whole);
    assert(walked(whole, path.len()) == walked(path, path.len()));
    assert(whole[path.len() as int] == '/');
    assert(walked(whole, cut.len()) == (names_of(path), Seq::<char>::empty()));
    assert(whole.skip(cut.len() as int) =~= part);
    lemma_walked_last_part(whole, cut.len(), part, part.len());
    assert(part.take(part.len() as int) =~= part);
}

proof fn lemma_walked_longer(path: Seq<char>, more: Seq<char>, count: nat)
    requires
        count <= path.len(),
    ensures
        walked(path + more, count) == walked(path, count),
    decreases count,
{
    if count > 0 {
        lemma_walked_longer(path, more, (count - 1) as nat);
        assert((path + more)[count - 1] == path[count - 1]);
    }
}

proof fn lemma_walked_last_part(whole: Seq<char>, from: nat, part: Seq<char>, count: nat)
    requires
        from + part.len() == whole.len(),
        count <= part.len(),
        whole.skip(from as int) == part,
        !part.contains('/'),
        walked(whole, from).1 == Seq::<char>::empty(),
    ensures
        walked(whole, from + count) == (walked(whole, from).0, part.take(count as int)),
    decreases count,
{
    if count > 0 {
        let less = (count - 1) as nat;
        lemma_walked_last_part(whole, from, part, less);
        assert(whole[(from + less) as int] == part[less as int]) by {
            assert(whole.skip(from as int)[less as int] == whole[(from + less) as int]);
        }
        assert(part[less as int] != '/') by {
            if part[less as int] == '/' {
                assert(part.contains('/'));
            }
        }
        assert(part.take(less as int).push(part[less as int]) =~= part.take(count as int));
    } else {
        assert(part.take(0) =~= Seq::<char>::empty());
    }
}

/// The working directory is written as its names with a slash before each, and
/// the root as one slash.
pub proof fn law_working_directories_are_written_out(path: Seq<char>, part: Seq<char>)
    requires
        is_name(part),
    ensures
        names_of(path).len() == 0 ==> canonical(path) == seq!['/'] && canonical(path.push('/') + part) == seq!['/'] + part,
        names_of(path).len() > 0 ==> canonical(path.push('/') + part) == canonical(path) + seq!['/'] + part,
{
    law_paths_are_walked_step_by_step(path, part);
    let names = names_of(path);
    let longer = names.push(part);
    lemma_path_longer(names, part, names.len());
    assert(path_of(longer, longer.len()) == path_of(longer, names.len()).push('/') + part);
    if names.len() == 0 {
        assert(Seq::<char>::empty().push('/') + part =~= seq!['/'] + part);
    } else {
        assert(canonical(path).push('/') + part =~= canonical(path) + seq!['/'] + part);
    }
}

proof fn lemma_path_longer(names: Seq<Seq<char>>, part: Seq<char>, count: nat)
    requires
        count <= names.len(),
    ensures
        path_of(names.push(part), count) == path_of(names, count),
    decreases count,
{
    if count > 0 {
        lemma_path_longer(names, part, (count - 1) as nat);
    }
}

} // verus!
