//! The identifier that a record takes from the path of its file.

use vstd::prelude::*;
use vstd::string::*;

verus! {

/// Where the last component of `path` begins: just behind the last `/`, or
/// at 0 if there is none.
pub open spec fn name_start(path: Seq<char>) -> int
    decreases path.len(),
{
    if path.len() == 0 {
        0
    } else if path.last() == '/' {
        path.len() as int
    } else {
        name_start(path.drop_last())
    }
}

/// The position of the last `.` in `name`, or -1 if there is none.
pub open spec fn last_dot(name: Seq<char>) -> int
    decreases name.len(),
{
    if name.len() == 0 {
        -1
    } else if name.last() == '.' {
        name.len() - 1
    } else {
        last_dot(name.drop_last())
    }
}

/// The last component of `path`: what follows its last `/`.
pub open spec fn file_name_of(path: Seq<char>) -> Seq<char> {
    path.subrange(name_start(path), path.len() as int)
}

/// The file name without its extension.
///
/// The extension is what follows the last `.` of the name, together with
/// that `.`. A name without a `.`, a name whose only `.` is its first
/// character, and the name `..` have no extension.
pub open spec fn stem_of(path: Seq<char>) -> Seq<char> {
    let name = file_name_of(path);
    let dot = last_dot(name);
    if dot <= 0 || name == seq!['.', '.'] {
        name
    } else {
        name.subrange(0, dot)
    }
}

/// The start of the last component lies within the path, what follows it
/// holds no `/`, and what precedes it is empty or ends in `/`.
pub proof fn lemma_name_start(path: Seq<char>)
    ensures
        0 <= name_start(path) <= path.len(),
        forall|i: int| name_start(path) <= i < path.len() ==> path[i] != '/',
        name_start(path) > 0 ==> path[name_start(path) - 1] == '/',
    decreases path.len(),
{
    if path.len() > 0 && path.last() != '/' {
        let front = path.drop_last();
        lemma_name_start(front);
        assert forall|i: int| name_start(path) <= i < path.len() implies path[i] != '/' by {
            if i < front.len() {
                assert(path[i] == front[i]);
            }
        }
        if name_start(path) > 0 {
            assert(path[name_start(path) - 1] == front[name_start(front) - 1]);
        }
    }
}

/// The last `.` is a `.`, nothing behind it is one, and -1 means there is none.
pub proof fn lemma_last_dot(name: Seq<char>)
    ensures
        -1 <= last_dot(name) < name.len(),
        last_dot(name) >= 0 ==> name[last_dot(name)] == '.',
        forall|i: int| last_dot(name) < i < name.len() ==> name[i] != '.',
    decreases name.len(),
{
    if name.len() > 0 && name.last() != '.' {
        let front = name.drop_last();
        lemma_last_dot(front);
        assert forall|i: int| last_dot(name) < i < name.len() implies name[i] != '.' by {
            if i < front.len() {
                assert(name[i] == front[i]);
            }
        }
        if last_dot(name) >= 0 {
            assert(name[last_dot(name)] == front[last_dot(front)]);
        }
    }
}

/// A path is its directory part followed by its file name, and the file name
/// is the stem, or the stem, a `.` and an extension that holds no `.`.
pub proof fn lemma_stem_splits_name(path: Seq<char>)
    ensures
        path == path.subrange(0, name_start(path)) + file_name_of(path),
        stem_of(path) == file_name_of(path) || exists|extension: Seq<char>|
            {
                &&& file_name_of(path) == stem_of(path) + seq!['.'] + extension
                &&& forall|i: int| 0 <= i < extension.len() ==> extension[i] != '.'
            },
{
    lemma_name_start(path);
    let name = file_name_of(path);
    lemma_last_dot(name);
    assert(path =~= path.subrange(0, name_start(path)) + name);
    let dot = last_dot(name);
    if stem_of(path) != name {
        let extension = name.subrange(dot + 1, name.len() as int);
        assert(name =~= stem_of(path) + seq!['.'] + extension);
        assert forall|i: int| 0 <= i < extension.len() implies extension[i] != '.' by {
            assert(extension[i] == name[dot + 1 + i]);
        }
    }
}

proof fn lemma_name_start_push(path: Seq<char>, c: char)
    ensures
        name_start(path.push(c)) == if c == '/' {
            path.len() as int + 1
        } else {
            name_start(path)
        },
{
    assert(path.push(c).drop_last() =~= path);
}

proof fn lemma_last_dot_push(name: Seq<char>, c: char)
    ensures
        last_dot(name.push(c)) == if c == '.' {
            name.len() as int
        } else {
            last_dot(name)
        },
{
    assert(name.push(c).drop_last() =~= name);
}

/// The identifier of the record stored at `path`: the file name without its
/// extension.
pub fn file_stem(path: &str) -> (stem: String)
    ensures
        stem@ == stem_of(path@),
{
    let len = path.unicode_len();
    let mut start: usize = 0;
    let mut dot: Option<usize> = None;
    let mut i: usize = 0;
    for c in it: path.chars()
        invariant
            it.seq() == path@,
            len == path@.len(),
            i == it.index(),
            start <= i,
            start == name_start(path@.take(i as int)),
            last_dot(path@.subrange(start as int, i as int)) == match dot {
                Some(d) => d - start,
                None => -1,
            },
            dot matches Some(d) ==> start <= d < i,
    {
        proof {
            lemma_name_start_push(path@.take(i as int), c);
            assert(path@.take(i as int).push(c) =~= path@.take(i + 1));
            lemma_last_dot_push(path@.subrange(start as int, i as int), c);
            assert(path@.subrange(start as int, i as int).push(c) =~= path@.subrange(
                start as int,
                i + 1,
            ));
        }
        if c == '/' {
            start = i + 1;
            dot = None;
            assert(path@.subrange(start as int, i + 1) =~= Seq::<char>::empty());
        } else if c == '.' {
            dot = Some(i);
        }
        i += 1;
    }
    assert(path@.take(i as int) =~= path@);
    let ghost name = file_name_of(path@);
    proof {
        lemma_last_dot(name);
    }
    let whole = match dot {
        None => true,
        Some(d) => d == start || (len == start + 2 && d == start + 1 && path.get_char(start)
            == '.'),
    };
    proof {
        if name == seq!['.', '.'] {
            assert(name.len() == 2 && name[0] == '.' && name[1] == '.');
        }
        if name.len() == 2 && name[0] == '.' && name[1] == '.' {
            assert(name =~= seq!['.', '.']);
        }
        assert(whole <==> (last_dot(name) <= 0 || name == seq!['.', '.']));
    }
    let end = match dot {
        Some(d) => if whole {
            len
        } else {
            d
        },
        None => len,
    };
    assert(path@.subrange(start as int, end as int) =~= stem_of(path@));
    let stem = path.substring_char(start, end);
    String::from_str(stem)
}

} // verus!
