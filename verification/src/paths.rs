//! Paths as text, with `/` between components.

use vstd::prelude::*;
use vstd::string::StringExecFns;

verus! {

/// A path is absolute when it starts at the root.
pub open spec fn absolute(path: Seq<char>) -> bool {
    path.len() > 0 && path[0] == '/'
}

/// `path` without the separators at its end.
pub open spec fn trimmed(path: Seq<char>) -> Seq<char>
    decreases path.len(),
{
    if path.len() > 0 && path.last() == '/' {
        trimmed(path.drop_last())
    } else {
        path
    }
}

/// Where the last component of `path` starts: behind its last separator, or
/// at 0 where it has none.
pub open spec fn name_start(path: Seq<char>) -> int
    decreases path.len(),
{
    if path.len() > 0 && path.last() != '/' {
        name_start(path.drop_last())
    } else {
        path.len() as int
    }
}

/// The name that a path ends in. Separators at the end and components `.`
/// are passed over; a path that ends in the root or in `..` has no name.
pub open spec fn file_name(path: Seq<char>) -> Option<Seq<char>>
    decreases path.len(),
{
    let stem = trimmed(path);
    let start = name_start(stem);
    let name = stem.subrange(start, stem.len() as int);
    if stem.len() == 0 {
        None
    } else if name == seq!['.'] {
        if 0 <= start < stem.len() <= path.len() {
            file_name(stem.subrange(0, start))
        } else {
            None
        }
    } else if name == seq!['.', '.'] {
        None
    } else {
        Some(name)
    }
}

/// `name` below `base`: an absolute `name` stands for itself; otherwise it
/// follows `base`, after a separator unless `base` is empty or ends in one.
pub open spec fn joined(base: Seq<char>, name: Seq<char>) -> Seq<char> {
    if absolute(name) {
        name
    } else if base.len() > 0 && base.last() != '/' {
        base + seq!['/'] + name
    } else {
        base + name
    }
}

/// The characters of `text`, one by one.
fn chars_of(text: &str) -> (chars: Vec<char>)
    ensures
        chars@ == text@,
{
    let mut chars: Vec<char> = Vec::new();
    for c in it: text.chars()
        invariant
            chars@ == it.seq().take(it.index() as int),
            it.seq() == text@,
    {
        chars.push(c);
    }
    chars
}

/// Whether `path` is absolute.
pub fn is_absolute(path: &str) -> (yes: bool)
    ensures
        yes == absolute(path@),
{
    let mut it = path.chars();
    match it.next() {
        Some(first) => first == '/',
        None => false,
    }
}

/// The name that `path` ends in, if it has one.
pub fn basename(path: &str) -> (name: Option<String>)
    ensures
        name is Some <==> file_name(path@) is Some,
        name matches Some(text) ==> file_name(path@) == Some(text@),
{
    let chars = chars_of(path);
    let mut end: usize = chars.len();
    assert(path@.take(end as int) =~= path@);
    loop
        invariant
            chars@ == path@,
            end <= chars.len(),
            file_name(path@) == file_name(path@.take(end as int)),
        decreases end,
    {
        let ghost whole = path@.take(end as int);
        let mut stop: usize = end;
        while stop > 0 && chars[stop - 1] == '/'
            invariant
                chars@ == path@,
                stop <= end <= chars.len(),
                whole == path@.take(end as int),
                trimmed(whole) == trimmed(path@.take(stop as int)),
            decreases stop,
        {
            assert(path@.take(stop as int).drop_last() =~= path@.take(stop - 1));
            stop -= 1;
        }
        let ghost stem = path@.take(stop as int);
        assert(trimmed(whole) == stem);
        if stop == 0 {
            return None;
        }
        let mut start: usize = stop;
        while start > 0 && chars[start - 1] != '/'
            invariant
                chars@ == path@,
                start <= stop <= chars.len(),
                stem == path@.take(stop as int),
                name_start(stem) == name_start(path@.take(start as int)),
            decreases start,
        {
            assert(path@.take(start as int).drop_last() =~= path@.take(start - 1));
            start -= 1;
        }
        assert(name_start(stem) == start);
        let ghost name = stem.subrange(start as int, stop as int);
        assert(name =~= path@.subrange(start as int, stop as int));
        let dots = stop - start;
        if dots == 1 && chars[start] == '.' {
            assert(name =~= seq!['.']);
            assert(stem.subrange(0, start as int) =~= path@.take(start as int));
            end = start;
        } else if dots == 2 && chars[start] == '.' && chars[start + 1] == '.' {
            assert(name =~= seq!['.', '.']);
            return None;
        } else {
            assert(name != seq!['.']) by {
                if name == seq!['.'] {
                    assert(name.len() == 1);
                    assert(name[0] == '.');
                }
            }
            assert(name != seq!['.', '.']) by {
                if name == seq!['.', '.'] {
                    assert(name.len() == 2);
                    assert(name[0] == '.');
                    assert(name[1] == '.');
                }
            }
            let text = path.substring_char(start, stop);
            return Some(String::from_str(text));
        }
    }
}

/// `name` below `base`.
pub fn join(base: &str, name: &str) -> (path: String)
    ensures
        path@ == joined(base@, name@),
{
    if is_absolute(name) {
        return String::from_str(name);
    }
    let length = base.unicode_len();
    let mut path = String::from_str(base);
    if length > 0 && base.get_char(length - 1) != '/' {
        proof {
            reveal_strlit("/");
            assert("/"@ =~= seq!['/']);
        }
        path.append("/");
    }
    path.append(name);
    path
}

} // verus!
