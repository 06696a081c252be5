//! Paths as texts: joining them, and telling what lies below a directory.

use vstd::prelude::*;
use vstd::string::*;

use crate::text::{
    chars_of, copy, index_from, index_from_facts, index_is, same, split, split_char, text, texts,
};

verus! {

/// A directory and a relative name in it. A separator is put between them unless the directory
/// already ends with one or is empty.
pub open spec fn join_path(dir: Seq<char>, name: Seq<char>) -> Seq<char> {
    if dir.len() == 0 || dir.last() == '/' {
        dir + name
    } else {
        dir + "/"@ + name
    }
}

/// Joins a directory and a relative name in it.
pub fn joined_path(dir: &str, name: &str) -> (r: String)
    ensures
        r@ == join_path(dir@, name@),
{
    let mut out = copy(dir);
    let x = chars_of(dir);
    if x.len() > 0 && x[x.len() - 1] != '/' {
        out.append("/");
    }
    out.append(name);
    out
}

/// The parts that name something: neither empty ones nor those for the directory itself.
pub open spec fn named_parts(parts: Seq<Seq<char>>) -> Seq<Seq<char>>
    decreases parts.len(),
{
    if parts.len() == 0 {
        seq![]
    } else {
        let rest = named_parts(parts.drop_last());
        if parts.last().len() == 0 || parts.last() == "."@ {
            rest
        } else {
            rest.push(parts.last())
        }
    }
}

/// What a path begins with besides its names: the root, the current directory, or nothing.
pub open spec fn path_head(path: Seq<char>) -> Seq<Seq<char>> {
    if path.len() > 0 && path[0] == '/' {
        seq!["/"@]
    } else if split(path, '/')[0] == "."@ {
        seq!["."@]
    } else {
        seq![]
    }
}

/// The components of a path. Repeated separators, those at the end, and dots after the beginning
/// make none.
pub open spec fn components(path: Seq<char>) -> Seq<Seq<char>> {
    path_head(path) + named_parts(split(path, '/'))
}

fn path_components(path: &str) -> (r: Vec<String>)
    ensures
        texts(r@) == components(path@),
{
    let parts = split_char(path, '/');
    let ghost all = texts(parts@);
    let x = chars_of(path);
    let mut out: Vec<String> = Vec::new();
    assert(all.len() > 0);
    assert(all[0] == parts@[0]@);
    if x.len() > 0 && x[0] == '/' {
        out.push(text("/"));
    } else if same(parts[0].as_str(), ".") {
        out.push(text("."));
    }
    let ghost head = path_head(path@);
    assert(texts(out@) =~= head);
    let mut i: usize = 0;
    assert(head + named_parts(all.take(0)) =~= head);
    while i < parts.len()
        invariant
            i <= parts@.len(),
            all == texts(parts@),
            texts(out@) == head + named_parts(all.take(i as int)),
        decreases parts@.len() - i,
    {
        assert(all.take(i + 1).drop_last() =~= all.take(i as int));
        assert(all[i as int] == parts@[i as int]@);
        let part = parts[i].as_str();
        let dot = same(part, ".");
        let empty = same(part, "");
        proof {
            reveal_strlit("");
            assert(part@.len() == 0 ==> part@ =~= ""@);
        }
        if !empty && !dot {
            let ghost done = texts(out@);
            let name = copy(part);
            out.push(name);
            assert(texts(out@) =~= done.push(name@));
            assert(texts(out@) =~= head + named_parts(all.take(i + 1)));
        }
        i += 1;
    }
    assert(all.take(i as int) =~= all);
    out
}

/// A path is a directory or lies in it: its components begin with those of the directory.
pub open spec fn lies_in(path: Seq<char>, dir: Seq<char>) -> bool {
    components(dir).is_prefix_of(components(path))
}

/// Decides whether a path is a directory or lies in it.
pub fn is_in(path: &str, dir: &str) -> (r: bool)
    ensures
        r == lies_in(path@, dir@),
{
    let inner = path_components(path);
    let outer = path_components(dir);
    let ghost p = texts(inner@);
    let ghost d = texts(outer@);
    assert(p.len() == inner@.len() && d.len() == outer@.len());
    if outer.len() > inner.len() {
        return false;
    }
    let mut i: usize = 0;
    while i < outer.len()
        invariant
            i <= outer@.len() <= inner@.len(),
            p == texts(inner@),
            d == texts(outer@),
            p == components(path@),
            d == components(dir@),
            forall|k: int| 0 <= k < i ==> p[k] == d[k],
        decreases outer@.len() - i,
    {
        assert(p[i as int] == inner@[i as int]@);
        assert(d[i as int] == outer@[i as int]@);
        if !same(inner[i].as_str(), outer[i].as_str()) {
            assert(p.subrange(0, d.len() as int)[i as int] == p[i as int]);
            return false;
        }
        i += 1;
    }
    assert(p.subrange(0, d.len() as int) =~= d);
    true
}

// ---------------------------------------------------------------------------
// Separators
// ---------------------------------------------------------------------------

proof fn split_of_joined(a: Seq<char>, b: Seq<char>)
    ensures
        split(a + seq!['/'] + b, '/') == split(a, '/') + split(b, '/'),
    decreases a.len(),
{
    let s = a + seq!['/'] + b;
    let i = index_from(a, '/', 0);
    index_from_facts(a, '/', 0);
    if i >= a.len() {
        assert(forall|k: int| 0 <= k < a.len() ==> s[k] == a[k]);
        index_is(s, '/', 0, a.len() as int);
        assert(s.take(a.len() as int) =~= a);
        assert(s.skip(a.len() as int + 1) =~= b);
        assert(split(a, '/') =~= seq![a]);
    } else {
        assert(forall|k: int| 0 <= k < a.len() ==> s[k] == a[k]);
        index_is(s, '/', 0, i);
        assert(s.take(i) =~= a.take(i));
        assert(s.skip(i + 1) =~= a.skip(i + 1) + seq!['/'] + b);
        split_of_joined(a.skip(i + 1), b);
        assert(split(s, '/') =~= split(a, '/') + split(b, '/'));
    }
}

proof fn named_parts_of_both(a: Seq<Seq<char>>, b: Seq<Seq<char>>)
    ensures
        named_parts(a + b) == named_parts(a) + named_parts(b),
    decreases b.len(),
{
    if b.len() == 0 {
        assert(a + b =~= a);
        assert(named_parts(a) + named_parts(b) =~= named_parts(a));
    } else {
        assert((a + b).drop_last() =~= a + b.drop_last());
        named_parts_of_both(a, b.drop_last());
        assert(named_parts(a + b) =~= named_parts(a) + named_parts(b));
    }
}

/// One more separator at the end of a directory changes nothing about what lies in its parts.
pub proof fn trailing_separators_change_nothing(dir: Seq<char>, name: Seq<char>, path: Seq<char>)
    requires
        dir.len() > 0,
    ensures
        lies_in(path, join_path(dir.push('/'), name)) == lies_in(path, join_path(dir, name)),
{
    reveal_strlit("/");
    assert("/"@ =~= seq!['/']);
    let longer = join_path(dir.push('/'), name);
    let plain = join_path(dir, name);
    if dir.last() != '/' {
        assert(longer =~= plain);
    } else {
        let start = dir.drop_last();
        let rest = seq!['/'] + name;
        let nothing: Seq<char> = seq![];
        assert(longer =~= start + seq!['/'] + rest);
        assert(plain =~= start + seq!['/'] + name);
        assert(rest =~= nothing + seq!['/'] + name);
        split_of_joined(start, rest);
        split_of_joined(start, name);
        split_of_joined(nothing, name);
        named_parts_of_both(split(start, '/'), split(rest, '/'));
        named_parts_of_both(split(start, '/'), split(name, '/'));
        named_parts_of_both(split(nothing, '/'), split(name, '/'));
        assert(split(nothing, '/') =~= seq![nothing]);
        assert(named_parts(seq![nothing].drop_last()) =~= seq![]);
        assert(named_parts(seq![nothing]) =~= seq![]);
        assert(named_parts(split(rest, '/')) =~= named_parts(split(name, '/')));
        assert(longer[0] == dir[0] && plain[0] == dir[0]);
        assert(split(start, '/').len() > 0);
        assert(path_head(longer) =~= path_head(plain));
        assert(components(longer) =~= components(plain));
    }
}

} // verus!
