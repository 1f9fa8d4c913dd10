use vstd::prelude::*;

verus! {

/// A path separator: `/`, or `\` as written on Windows.
pub open spec fn is_sep(c: char) -> bool {
    c == '/' || c == '\\'
}

/// `name` appended to `base`, with one `/` between them unless `base` is empty
/// or already ends in a separator; an empty `name` leaves `base` as it is.
pub open spec fn joined(base: Seq<char>, name: Seq<char>) -> Seq<char> {
    if name.len() == 0 {
        base
    } else if base.len() == 0 {
        name
    } else if is_sep(base.last()) {
        base + name
    } else {
        base + seq!['/'] + name
    }
}

pub fn is_separator(c: char) -> (r: bool)
    ensures
        r == is_sep(c),
{
    c == '/' || c == '\\'
}

/// Joins a child name onto a directory path.
pub fn join(base: &str, name: &str) -> (r: String)
    ensures
        r@ == joined(base@, name@),
{
    let nl = name.unicode_len();
    let bl = base.unicode_len();
    if nl == 0 {
        return base.to_string();
    }
    if bl == 0 {
        return name.to_string();
    }
    let mut r = base.to_string();
    if !is_separator(base.get_char(bl - 1)) {
        proof {
            reveal_strlit("/");
        }
        r.append("/");
        assert(r@ == base@ + seq!['/']);
    }
    r.append(name);
    r
}

/// `p` without the separators that end it.
pub open spec fn trim_end_seps(p: Seq<char>) -> Seq<char>
    decreases p.len(),
{
    if p.len() > 0 && is_sep(p.last()) {
        trim_end_seps(p.drop_last())
    } else {
        p
    }
}

/// `p` without the separators that start it.
pub open spec fn trim_start_seps(p: Seq<char>) -> Seq<char>
    decreases p.len(),
{
    if p.len() > 0 && is_sep(p[0]) {
        trim_start_seps(p.skip(1))
    } else {
        p
    }
}

/// What follows the last separator of `p` (all of `p` if it has none).
pub open spec fn last_segment(p: Seq<char>) -> Seq<char>
    decreases p.len(),
{
    if p.len() == 0 || is_sep(p.last()) {
        Seq::empty()
    } else {
        last_segment(p.drop_last()).push(p.last())
    }
}

/// The final name of a path, trailing separators ignored; none where that
/// name is empty, `.` or `..`.
pub open spec fn base_of(p: Seq<char>) -> Option<Seq<char>> {
    let s = last_segment(trim_end_seps(p));
    if s.len() == 0 || s == seq!['.'] || s == seq!['.', '.'] {
        None
    } else {
        Some(s)
    }
}

/// The part of `entry` below the directory `root`: `entry` must begin with
/// `root`, and a separator must follow there unless `root` is empty, ends in a
/// separator, or is all of `entry`. The separators that start the remainder
/// are dropped.
pub open spec fn relative_of(root: Seq<char>, entry: Seq<char>) -> Option<Seq<char>> {
    if root.len() <= entry.len() && entry.take(root.len() as int) == root {
        let rest = entry.skip(root.len() as int);
        if rest.len() == 0 || root.len() == 0 || is_sep(root.last()) || is_sep(rest[0]) {
            Some(trim_start_seps(rest))
        } else {
            None
        }
    } else {
        None
    }
}

proof fn lemma_trim_end_index(p: Seq<char>, e: int)
    requires
        0 <= e <= p.len(),
        forall|k: int| e <= k < p.len() ==> is_sep(#[trigger] p[k]),
        e == 0 || !is_sep(p[e - 1]),
    ensures
        trim_end_seps(p) == p.take(e),
    decreases p.len(),
{
    if p.len() > e {
        assert(p.drop_last().take(e) == p.take(e));
        lemma_trim_end_index(p.drop_last(), e);
    } else {
        assert(p.take(e) == p);
    }
}

proof fn lemma_last_segment_index(p: Seq<char>, st: int)
    requires
        0 <= st <= p.len(),
        forall|k: int| st <= k < p.len() ==> !is_sep(#[trigger] p[k]),
        st == 0 || is_sep(p[st - 1]),
    ensures
        last_segment(p) == p.subrange(st, p.len() as int),
    decreases p.len(),
{
    if p.len() > st {
        lemma_last_segment_index(p.drop_last(), st);
        assert(p.drop_last().subrange(st, p.len() - 1).push(p.last()) == p.subrange(st, p.len() as int));
    }
}

proof fn lemma_trim_start_index(p: Seq<char>, b: int)
    requires
        0 <= b <= p.len(),
        forall|k: int| 0 <= k < b ==> is_sep(#[trigger] p[k]),
        b == p.len() || !is_sep(p[b]),
    ensures
        trim_start_seps(p) == p.skip(b),
    decreases b,
{
    if b > 0 {
        assert forall|k: int| 0 <= k < b - 1 implies is_sep(#[trigger] p.skip(1)[k]) by {
            assert(is_sep(p[k + 1]));
        }
        lemma_trim_start_index(p.skip(1), b - 1);
        assert(p.skip(1).skip(b - 1) == p.skip(b));
    } else {
        assert(p.skip(0) == p);
    }
}

/// The final name of a path, as `base_of` gives it.
pub fn base_name(p: &str) -> (r: Option<String>)
    ensures
        r matches Some(s) ==> base_of(p@) == Some(s@),
        r is None ==> base_of(p@) is None,
{
    let n = p.unicode_len();
    let mut e: usize = n;
    while e > 0 && is_separator(p.get_char(e - 1))
        invariant
            e <= n == p@.len(),
            forall|k: int| e <= k < n ==> is_sep(#[trigger] p@[k]),
        decreases e,
    {
        e = e - 1;
    }
    let mut st: usize = e;
    while st > 0 && !is_separator(p.get_char(st - 1))
        invariant
            st <= e <= n == p@.len(),
            forall|k: int| st <= k < e ==> !is_sep(#[trigger] p@[k]),
        decreases st,
    {
        st = st - 1;
    }
    proof {
        lemma_trim_end_index(p@, e as int);
        lemma_last_segment_index(p@.take(e as int), st as int);
        assert(p@.take(e as int).subrange(st as int, e as int) == p@.subrange(st as int, e as int));
    }
    let s = p.substring_char(st, e);
    let l = e - st;
    if l == 0 {
        return None;
    }
    if l == 1 && s.get_char(0) == '.' {
        assert(s@ == seq!['.']);
        return None;
    }
    if l == 2 && s.get_char(0) == '.' && s.get_char(1) == '.' {
        assert(s@ == seq!['.', '.']);
        return None;
    }
    assert(s@ != seq!['.']) by {
        if l == 1 {
            assert(s@[0] != seq!['.'][0]);
        } else {
            assert(s@.len() != seq!['.'].len());
        }
    }
    assert(s@ != seq!['.', '.']) by {
        if l == 2 {
            if s@[0] != '.' {
                assert(s@[0] != seq!['.', '.'][0]);
            } else {
                assert(s@[1] != seq!['.', '.'][1]);
            }
        } else {
            assert(s@.len() != seq!['.', '.'].len());
        }
    }
    Some(s.to_string())
}

/// The part of `entry` below the directory `root`, as `relative_of` gives it.
pub fn relative_part(root: &str, entry: &str) -> (r: Option<String>)
    ensures
        r matches Some(s) ==> relative_of(root@, entry@) == Some(s@),
        r is None ==> relative_of(root@, entry@) is None,
{
    let rl = root.unicode_len();
    let el = entry.unicode_len();
    if rl > el {
        return None;
    }
    let mut i: usize = 0;
    while i < rl
        invariant
            i <= rl <= el,
            rl == root@.len(),
            el == entry@.len(),
            forall|k: int| 0 <= k < i ==> entry@[k] == root@[k],
        decreases rl - i,
    {
        if entry.get_char(i) != root.get_char(i) {
            assert(entry@.take(rl as int)[i as int] != root@[i as int]);
            return None;
        }
        i = i + 1;
    }
    assert(entry@.take(rl as int) == root@);
    let rest = entry.substring_char(rl, el);
    assert(rest@ == entry@.skip(rl as int));
    let boundary = rl == el || rl == 0 || is_separator(root.get_char(rl - 1))
        || is_separator(entry.get_char(rl));
    if !boundary {
        return None;
    }
    let n = el - rl;
    let mut b: usize = 0;
    while b < n && is_separator(rest.get_char(b))
        invariant
            b <= n == rest@.len(),
            forall|k: int| 0 <= k < b ==> is_sep(#[trigger] rest@[k]),
        decreases n - b,
    {
        b = b + 1;
    }
    proof {
        lemma_trim_start_index(rest@, b as int);
    }
    Some(rest.substring_char(b, n).to_string())
}

/// A name joined onto a root is found below that root again, as itself.
pub proof fn lemma_relative_of_joined(root: Seq<char>, name: Seq<char>)
    requires
        name.len() > 0,
        !is_sep(name[0]),
    ensures
        relative_of(root, joined(root, name)) == Some(name),
{
    let j = joined(root, name);
    assert(trim_start_seps(name) == name);
    if root.len() == 0 {
        assert(j.take(0) == root);
        assert(j.skip(0) == name);
    } else if is_sep(root.last()) {
        assert(j.take(root.len() as int) == root);
        assert(j.skip(root.len() as int) == name);
    } else {
        let rest = seq!['/'] + name;
        assert(j.take(root.len() as int) == root);
        assert(j.skip(root.len() as int) == rest);
        assert(rest.skip(1) == name);
        assert(trim_start_seps(rest) == trim_start_seps(rest.skip(1)));
    }
}

/// Joining two names one after the other is joining them with a `/` between.
pub proof fn lemma_joined_twice(root: Seq<char>, a: Seq<char>, b: Seq<char>)
    requires
        a.len() > 0,
        b.len() > 0,
        !is_sep(a.last()),
    ensures
        joined(joined(root, a), b) == joined(root, a + seq!['/'] + b),
{
    let ab = a + seq!['/'] + b;
    assert(ab.len() > 0);
    let ja = joined(root, a);
    if root.len() == 0 {
        assert(ja == a);
    } else if is_sep(root.last()) {
        assert(ja.last() == a.last());
        assert(joined(ja, b) == root + ab);
    } else {
        assert(ja.last() == a.last());
        assert(joined(ja, b) == root + seq!['/'] + ab);
    }
}

} // verus!
