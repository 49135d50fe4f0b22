//! Character-level helpers on strings, with their specifications.

use vstd::prelude::*;

verus! {

/// Appends one character to a string: `String::push`.
#[verifier::external_body]
pub(crate) fn push_char(s: &mut String, c: char)
    ensures
        final(s)@ == old(s)@.push(c),
{
    s.push(c);
}

/// The views of a sequence of strings.
pub open spec fn views(v: Seq<String>) -> Seq<Seq<char>> {
    v.map_values(|t: String| t@)
}

/// Whether `c` is white space as `char::is_whitespace` has it (the Unicode
/// property `White_Space`).
pub open spec fn is_whitespace(c: char) -> bool {
    let u = c as u32;
    ||| 9 <= u <= 13
    ||| u == 32
    ||| u == 0x85
    ||| u == 0xa0
    ||| u == 0x1680
    ||| 0x2000 <= u <= 0x200a
    ||| u == 0x2028
    ||| u == 0x2029
    ||| u == 0x202f
    ||| u == 0x205f
    ||| u == 0x3000
}

/// The maximal runs of characters of `s` that are not white space, in
/// order: what `str::split_whitespace` yields.
pub open spec fn tokens(s: Seq<char>) -> Seq<Seq<char>>
    decreases s.len(),
{
    if s.len() == 0 {
        Seq::empty()
    } else {
        let t = tokens(s.drop_last());
        let c = s.last();
        if is_whitespace(c) {
            t
        } else if s.len() >= 2 && !is_whitespace(s[s.len() - 2]) {
            t.update(t.len() - 1, t.last().push(c))
        } else {
            t.push(seq![c])
        }
    }
}

/// `parts` joined, with `sep` between each two: what `join` on a slice of
/// strings gives.
pub open spec fn join(parts: Seq<Seq<char>>, sep: Seq<char>) -> Seq<char>
    decreases parts.len(),
{
    if parts.len() == 0 {
        Seq::empty()
    } else if parts.len() == 1 {
        parts[0]
    } else {
        join(parts.drop_last(), sep) + sep + parts.last()
    }
}

/// Whether `s` begins with `prefix`.
pub open spec fn starts_with(s: Seq<char>, prefix: Seq<char>) -> bool {
    prefix.len() <= s.len() && s.take(prefix.len() as int) == prefix
}

/// Whether `s` ends with `suffix`.
pub open spec fn ends_with(s: Seq<char>, suffix: Seq<char>) -> bool {
    suffix.len() <= s.len() && s.skip(s.len() - suffix.len()) == suffix
}

/// The last position of `c` in `s`, if `c` occurs in it.
pub open spec fn last_index_of(s: Seq<char>, c: char) -> Option<int>
    decreases s.len(),
{
    if s.len() == 0 {
        None
    } else if s.last() == c {
        Some(s.len() - 1)
    } else {
        last_index_of(s.drop_last(), c)
    }
}

/// `s` begins with `prefix` exactly when `s` is `prefix` followed by the
/// rest of `s`: a text that merely contains `prefix` further on does not
/// begin with it.
pub proof fn lemma_starts_with_concat(s: Seq<char>, prefix: Seq<char>)
    ensures
        starts_with(s, prefix) <==> exists|rest: Seq<char>| #[trigger] (prefix + rest) == s,
{
    if starts_with(s, prefix) {
        let rest = s.skip(prefix.len() as int);
        assert(prefix + rest =~= s);
    }
    if exists|rest: Seq<char>| #[trigger] (prefix + rest) == s {
        let rest = choose|rest: Seq<char>| #[trigger] (prefix + rest) == s;
        assert(s.take(prefix.len() as int) =~= prefix);
    }
}

/// `s` ends with `suffix` exactly when `s` is some text followed by
/// `suffix`.
pub proof fn lemma_ends_with_concat(s: Seq<char>, suffix: Seq<char>)
    ensures
        ends_with(s, suffix) <==> exists|front: Seq<char>| #[trigger] (front + suffix) == s,
{
    if ends_with(s, suffix) {
        let front = s.take(s.len() - suffix.len());
        assert(front + suffix =~= s);
    }
    if exists|front: Seq<char>| #[trigger] (front + suffix) == s {
        let front = choose|front: Seq<char>| #[trigger] (front + suffix) == s;
        assert(s.skip(s.len() - suffix.len()) =~= suffix);
    }
}

/// The characters of `s`, in order.
pub fn chars_of(s: &str) -> (v: Vec<char>)
    ensures
        v@ == s@,
{
    let mut v: Vec<char> = Vec::new();
    for c in it: s.chars()
        invariant
            v@ == it.seq().take(it.index()),
    {
        v.push(c);
    }
    v
}

/// The string of the characters `cs`.
pub fn string_of(cs: &[char]) -> (s: String)
    ensures
        s@ == cs@,
{
    let mut s = String::new();
    let mut i: usize = 0;
    while i < cs.len()
        invariant
            i <= cs@.len(),
            s@ == cs@.take(i as int),
        decreases cs@.len() - i,
    {
        push_char(&mut s, cs[i]);
        i = i + 1;
        proof {
            assert(s@ =~= cs@.take(i as int));
        }
    }
    proof {
        assert(cs@.take(cs@.len() as int) =~= cs@);
    }
    s
}

/// The string of the characters of `cs` from `from` to `to`.
pub fn substring(cs: &Vec<char>, from: usize, to: usize) -> (s: String)
    requires
        from <= to <= cs@.len(),
    ensures
        s@ == cs@.subrange(from as int, to as int),
{
    let mut s = String::new();
    let mut i: usize = from;
    while i < to
        invariant
            from <= i <= to <= cs@.len(),
            s@ == cs@.subrange(from as int, i as int),
        decreases to - i,
    {
        push_char(&mut s, cs[i]);
        i = i + 1;
        proof {
            assert(s@ =~= cs@.subrange(from as int, i as int));
        }
    }
    s
}

/// Whether `c` is white space, as `char::is_whitespace`.
pub fn is_whitespace_char(c: char) -> (b: bool)
    ensures
        b == is_whitespace(c),
{
    let u = c as u32;
    (9 <= u && u <= 13) || u == 32 || u == 0x85 || u == 0xa0 || u == 0x1680 || (0x2000 <= u && u
        <= 0x200a) || u == 0x2028 || u == 0x2029 || u == 0x202f || u == 0x205f || u == 0x3000
}

/// The tokens of `s` separated by white space, as `str::split_whitespace`
/// yields them.
pub fn split_tokens(s: &str) -> (v: Vec<String>)
    ensures
        views(v@) == tokens(s@),
{
    let cs = chars_of(s);
    let mut out: Vec<String> = Vec::new();
    let mut cur = String::new();
    let mut i: usize = 0;
    while i < cs.len()
        invariant
            i <= cs@.len(),
            cur@.len() > 0 <==> (i > 0 && !is_whitespace(cs@[i - 1])),
            cur@.len() > 0 ==> views(out@).push(cur@) == tokens(cs@.take(i as int)),
            cur@.len() == 0 ==> views(out@) == tokens(cs@.take(i as int)),
        decreases cs@.len() - i,
    {
        let c = cs[i];
        let ghost pre = cs@.take(i as int);
        let ghost next = cs@.take(i + 1);
        assert(next.drop_last() =~= pre);
        assert(next.last() == c);
        if is_whitespace_char(c) {
            if !cur.as_str().is_empty() {
                let ghost ov = views(out@);
                let ghost cv = cur@;
                out.push(cur);
                cur = String::new();
                assert(views(out@) =~= ov.push(cv));
            }
        } else {
            if !cur.as_str().is_empty() {
                let ghost ov = views(out@);
                let ghost cv = cur@;
                proof {
                    assert(next[next.len() - 2] == cs@[i - 1]);
                    let t = tokens(pre);
                    assert(t == ov.push(cv));
                    assert(t.last() == cv);
                    assert(t.len() - 1 == ov.len());
                    assert(tokens(next) == t.update(t.len() - 1, t.last().push(c)));
                    assert(tokens(next) =~= ov.push(cv.push(c)));
                }
                push_char(&mut cur, c);
                assert(views(out@).push(cur@) =~= tokens(next));
            } else {
                proof {
                    if i > 0 {
                        assert(next[next.len() - 2] == cs@[i - 1]);
                    }
                    assert(tokens(next) == tokens(pre).push(seq![c]));
                }
                push_char(&mut cur, c);
                assert(cur@ =~= seq![c]);
                assert(views(out@).push(cur@) =~= tokens(next));
            }
        }
        i = i + 1;
    }
    assert(cs@.take(cs@.len() as int) =~= cs@);
    if !cur.as_str().is_empty() {
        let ghost ov = views(out@);
        let ghost cv = cur@;
        out.push(cur);
        assert(views(out@) =~= ov.push(cv));
    }
    out
}

/// The strings `parts` joined with `sep` between each two.
pub fn join_strings(parts: &Vec<String>, sep: &str) -> (s: String)
    ensures
        s@ == join(views(parts@), sep@),
{
    let mut s = String::new();
    let mut i: usize = 0;
    while i < parts.len()
        invariant
            i <= parts@.len(),
            s@ == join(views(parts@).take(i as int), sep@),
        decreases parts@.len() - i,
    {
        let ghost before = views(parts@).take(i as int);
        let ghost after = views(parts@).take(i + 1);
        assert(after.drop_last() =~= before);
        assert(after.last() == parts@[i as int]@);
        if i > 0 {
            s.append(sep);
        }
        s.append(parts[i].as_str());
        i = i + 1;
        proof {
            if i == 1 {
                assert(s@ =~= join(after, sep@));
            } else {
                assert(s@ =~= join(after, sep@));
            }
        }
    }
    assert(views(parts@).take(parts@.len() as int) =~= views(parts@));
    s
}

/// Whether `s` begins with `prefix`, as `str::starts_with`.
pub fn has_prefix(s: &str, prefix: &str) -> (b: bool)
    ensures
        b == starts_with(s@, prefix@),
        b <==> exists|rest: Seq<char>| #[trigger] (prefix@ + rest) == s@,
{
    proof {
        lemma_starts_with_concat(s@, prefix@);
    }
    let cs = chars_of(s);
    let ps = chars_of(prefix);
    if ps.len() > cs.len() {
        return false;
    }
    let mut i: usize = 0;
    while i < ps.len()
        invariant
            cs@ == s@,
            ps@ == prefix@,
            ps@.len() <= cs@.len(),
            i <= ps@.len(),
            forall|k: int| 0 <= k < i ==> cs@[k] == ps@[k],
        decreases ps@.len() - i,
    {
        if cs[i] != ps[i] {
            assert(cs@.take(ps@.len() as int)[i as int] == cs@[i as int]);
            assert(cs@.take(ps@.len() as int) != ps@);
            return false;
        }
        i = i + 1;
    }
    assert(cs@.take(ps@.len() as int) =~= ps@);
    true
}

/// Whether `s` ends with `suffix`, as `str::ends_with`.
pub fn has_suffix(s: &str, suffix: &str) -> (b: bool)
    ensures
        b == ends_with(s@, suffix@),
        b <==> exists|front: Seq<char>| #[trigger] (front + suffix@) == s@,
{
    proof {
        lemma_ends_with_concat(s@, suffix@);
    }
    let cs = chars_of(s);
    let ps = chars_of(suffix);
    if ps.len() > cs.len() {
        return false;
    }
    let n = cs.len();
    let start = n - ps.len();
    let mut i: usize = 0;
    while i < ps.len()
        invariant
            cs@ == s@,
            ps@ == suffix@,
            ps@.len() <= cs@.len(),
            start == cs@.len() - ps@.len(),
            start + ps@.len() == n,
            n == cs@.len(),
            i <= ps@.len(),
            forall|k: int| 0 <= k < i ==> cs@[start + k] == ps@[k],
        decreases ps@.len() - i,
    {
        if cs[start + i] != ps[i] {
            assert(cs@.skip(start as int)[i as int] == cs@[start + i]);
            assert(cs@.skip(start as int) != ps@);
            return false;
        }
        i = i + 1;
    }
    assert(cs@.skip(start as int) =~= ps@);
    true
}

/// The last position of `c` in `cs`, as `str::rfind` with a character
/// finds it (counted in characters).
pub fn rfind_char(cs: &Vec<char>, c: char) -> (r: Option<usize>)
    ensures
        r matches Some(i) ==> last_index_of(cs@, c) == Some(i as int) && i < cs@.len(),
        r is None ==> last_index_of(cs@, c) is None,
{
    let mut i: usize = cs.len();
    assert(cs@.take(cs@.len() as int) =~= cs@);
    while i > 0
        invariant
            i <= cs@.len(),
            last_index_of(cs@, c) == last_index_of(cs@.take(i as int), c),
        decreases i,
    {
        let ghost pre = cs@.take(i as int);
        assert(pre.drop_last() =~= cs@.take(i - 1));
        assert(pre.last() == cs@[i - 1]);
        if cs[i - 1] == c {
            return Some(i - 1);
        }
        i = i - 1;
    }
    None
}

} // verus!
