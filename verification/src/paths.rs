//! Unix paths as text: joining, and the name that a path ends in.

use crate::text::{chars_of, slice_text};
use vstd::prelude::*;
use vstd::string::*;

verus! {

/// `rel` seen from `base`: an absolute `rel` stands for itself, any other is put behind
/// `base` with one slash between the two.
pub open spec fn joined(base: Seq<char>, rel: Seq<char>) -> Seq<char> {
    if rel.len() > 0 && rel[0] == '/' {
        rel
    } else if base.len() == 0 || base.last() == '/' {
        base + rel
    } else {
        base + seq!['/'] + rel
    }
}

/// Where the last segment of `s` starts: behind its last slash.
pub open spec fn last_segment(s: Seq<char>) -> int
    decreases s.len(),
{
    if s.len() == 0 || s.last() == '/' {
        s.len() as int
    } else {
        last_segment(s.drop_last())
    }
}

/// The name that a path ends in. Empty segments and single dots are passed over; a path
/// that ends in two dots, or has nothing else to end in, has no name.
pub open spec fn base_name(s: Seq<char>) -> Option<Seq<char>>
    decreases s.len(),
{
    let start = last_segment(s);
    let segment = s.skip(start);
    if segment.len() == 0 || segment == seq!['.'] {
        if 0 < start <= s.len() {
            base_name(s.take(start - 1))
        } else {
            None
        }
    } else if segment == seq!['.', '.'] {
        None
    } else {
        Some(segment)
    }
}

proof fn lemma_last_segment(s: Seq<char>)
    ensures
        0 <= last_segment(s) <= s.len(),
        last_segment(s) > 0 ==> s[last_segment(s) - 1] == '/',
        forall|j: int| last_segment(s) <= j < s.len() ==> s[j] != '/',
    decreases s.len(),
{
    if s.len() > 0 && s.last() != '/' {
        let front = s.drop_last();
        lemma_last_segment(front);
        assert forall|j: int| last_segment(s) <= j < s.len() implies s[j] != '/' by {
            if j < front.len() {
                assert(front[j] == s[j]);
            }
        }
    }
}

proof fn lemma_last_segment_is(s: Seq<char>, i: int)
    requires
        0 <= i <= s.len(),
        i > 0 ==> s[i - 1] == '/',
        forall|j: int| i <= j < s.len() ==> s[j] != '/',
    ensures
        last_segment(s) == i,
{
    lemma_last_segment(s);
}

/// Joins two paths.
pub fn join(base: &str, rel: &str) -> (r: String)
    ensures
        r@ == joined(base@, rel@),
{
    let rel_chars = chars_of(rel);
    if rel_chars.len() > 0 && rel_chars[0] == '/' {
        return rel.to_owned();
    }
    let base_chars = chars_of(base);
    let mut r = base.to_owned();
    if base_chars.len() > 0 && base_chars[base_chars.len() - 1] != '/' {
        proof {
            reveal_strlit("/");
            assert("/"@ =~= seq!['/']);
        }
        r.append("/");
    }
    r.append(rel);
    r
}

/// Finds the name that a path ends in.
pub fn file_name(s: &str) -> (r: Option<String>)
    ensures
        match r {
            Some(name) => base_name(s@) == Some(name@),
            None => base_name(s@) is None,
        },
{
    let cs = chars_of(s);
    let mut end: usize = cs.len();
    assert(s@.take(end as int) =~= s@);
    loop
        invariant
            cs@ == s@,
            end <= s@.len(),
            base_name(s@) == base_name(s@.take(end as int)),
        decreases end,
    {
        let mut start: usize = end;
        while start > 0 && cs[start - 1] != '/'
            invariant
                start <= end <= cs@.len(),
                forall|j: int| start <= j < end ==> cs@[j] != '/',
            decreases start,
        {
            start = start - 1;
        }
        let ghost head = s@.take(end as int);
        let ghost segment = head.skip(start as int);
        proof {
            lemma_last_segment_is(head, start as int);
            assert(segment =~= s@.subrange(start as int, end as int));
        }
        let length: usize = end - start;
        let dot = length == 1 && cs[start] == '.';
        proof {
            let one = seq!['.'];
            assert(one[0] == '.');
            assert(length == 1 ==> segment[0] == cs@[start as int]);
            assert(dot ==> segment =~= one);
        }
        if length == 0 || dot {
            if start == 0 {
                return None;
            }
            assert(head.take(start - 1) =~= s@.take(start - 1));
            end = start - 1;
        } else {
            let dots = length == 2 && cs[start] == '.' && cs[start + 1] == '.';
            proof {
                let two = seq!['.', '.'];
                assert(two[0] == '.' && two[1] == '.');
                assert(length == 2 ==> segment[0] == cs@[start as int] && segment[1] == cs@[start
                    + 1]);
                assert(dots ==> segment =~= two);
            }
            if dots {
                return None;
            }
            return Some(slice_text(s, start, end));
        }
    }
}

/// A path's name holds no slash and is neither empty nor a run of one or two dots.
pub proof fn base_name_is_one_segment(s: Seq<char>)
    ensures
        match base_name(s) {
            Some(name) => {
                &&& name.len() > 0
                &&& name != seq!['.']
                &&& name != seq!['.', '.']
                &&& !name.contains('/')
            },
            None => true,
        },
    decreases s.len(),
{
    lemma_last_segment(s);
    let start = last_segment(s);
    let segment = s.skip(start);
    if segment.len() == 0 || segment == seq!['.'] {
        if start > 0 {
            base_name_is_one_segment(s.take(start - 1));
        }
    }
}

/// What is joined to a directory ends in the name that was joined, where that name is a
/// single segment.
pub proof fn joined_ends_in_its_name(base: Seq<char>, name: Seq<char>)
    requires
        name.len() > 0,
        !name.contains('/'),
        name != seq!['.'],
        name != seq!['.', '.'],
    ensures
        base_name(joined(base, name)) == Some(name),
{
    let path = joined(base, name);
    assert(name.contains(name[0]));
    let start = path.len() - name.len();
    assert forall|j: int| start <= j < path.len() implies path[j] != '/' by {
        assert(path[j] == name[j - start]);
        assert(name.contains(name[j - start]));
    }
    lemma_last_segment_is(path, start);
    assert(path.skip(start) =~= name);
}

/// Two names joined to one directory give two paths.
pub proof fn joined_keeps_names_apart(base: Seq<char>, a: Seq<char>, b: Seq<char>)
    requires
        !(a.len() > 0 && a[0] == '/'),
        !(b.len() > 0 && b[0] == '/'),
        joined(base, a) == joined(base, b),
    ensures
        a == b,
{
    let head = if base.len() == 0 || base.last() == '/' {
        base
    } else {
        base + seq!['/']
    };
    assert(joined(base, a) =~= head + a);
    assert(joined(base, b) =~= head + b);
    assert((head + a).skip(head.len() as int) =~= a);
    assert((head + b).skip(head.len() as int) =~= b);
}

/// A path is put behind a directory with exactly one slash between the two; one that starts
/// with a slash stands for itself.
pub proof fn paths_are_joined_by_one_slash(base: Seq<char>, rel: Seq<char>)
    ensures
        rel.len() > 0 && rel[0] == '/' ==> joined(base, rel) == rel,
        !(rel.len() > 0 && rel[0] == '/') && base.len() > 0 && base.last() != '/' ==> joined(
            base,
            rel,
        ) == base + "/"@ + rel,
        !(rel.len() > 0 && rel[0] == '/') ==> joined(base + "/"@, rel) == base + "/"@ + rel,
        !(rel.len() > 0 && rel[0] == '/') ==> joined(Seq::empty(), rel) == rel,
{
    reveal_strlit("/");
    assert("/"@ =~= seq!['/']);
    assert(Seq::<char>::empty() + rel =~= rel);
    assert((base + "/"@).last() == '/');
}

/// The name of a path is what stands behind its last slash; a slash, or a slash and a dot,
/// behind it change nothing, and a path that goes up has no name.
pub proof fn names_stand_behind_the_last_slash(dir: Seq<char>, name: Seq<char>)
    requires
        name.len() > 0,
        !name.contains('/'),
        name != seq!['.'],
        name != seq!['.', '.'],
    ensures
        base_name(name) == Some(name),
        base_name(dir + "/"@ + name) == Some(name),
        base_name(dir + "/"@) == base_name(dir),
        base_name(dir + "/."@) == base_name(dir),
        base_name(dir + "/.."@) is None,
        base_name(Seq::empty()) is None,
        base_name("."@) is None,
        base_name(".."@) is None,
{
    lemma_dots_name_nothing();
    reveal_strlit("/");
    reveal_strlit("/.");
    reveal_strlit("/..");
    assert(name.contains(name[0]));
    assert(joined(Seq::empty(), name) =~= name);
    joined_ends_in_its_name(Seq::empty(), name);
    let base = dir + "/"@;
    assert(base.last() == '/');
    assert(joined(base, name) =~= dir + "/"@ + name);
    joined_ends_in_its_name(base, name);
    let n = dir.len() as int;
    lemma_last_segment_is(base, n + 1);
    assert(base.skip(n + 1) =~= Seq::empty());
    assert(base.take(n) =~= dir);
    let dot = dir + "/."@;
    assert(dot[n] == '/' && dot[n + 1] == '.');
    lemma_last_segment_is(dot, n + 1);
    assert(dot.skip(n + 1) =~= seq!['.']);
    assert(dot.take(n) =~= dir);
    let up = dir + "/.."@;
    assert(up[n] == '/' && up[n + 1] == '.' && up[n + 2] == '.');
    lemma_last_segment_is(up, n + 1);
    assert(up.skip(n + 1) =~= seq!['.', '.']);
    let one = seq!['.'];
    let two = seq!['.', '.'];
    assert(one.len() != two.len());
}

proof fn lemma_dots_name_nothing()
    ensures
        base_name("."@) is None,
        base_name(".."@) is None,
{
    reveal_strlit(".");
    reveal_strlit("..");
    let one = "."@;
    let two = ".."@;
    lemma_last_segment(one);
    lemma_last_segment(two);
    assert(last_segment(one) == 0);
    assert(last_segment(two) == 0);
    assert(one.skip(0) =~= seq!['.']);
    assert(two.skip(0) =~= seq!['.', '.']);
}

} // verus!
