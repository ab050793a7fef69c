use vstd::prelude::*;

verus! {

/// The views of a sequence of strings.
pub open spec fn views(v: Seq<String>) -> Seq<Seq<char>> {
    v.map_values(|x: String| x@)
}

/// `s` without its leading occurrences of `c`.
pub open spec fn trim_start(s: Seq<char>, c: char) -> Seq<char>
    decreases s.len(),
{
    if s.len() > 0 && s[0] == c {
        trim_start(s.subrange(1, s.len() as int), c)
    } else {
        s
    }
}

/// `s` without its trailing occurrences of `c`.
pub open spec fn trim_end(s: Seq<char>, c: char) -> Seq<char>
    decreases s.len(),
{
    if s.len() > 0 && s.last() == c {
        trim_end(s.drop_last(), c)
    } else {
        s
    }
}

/// `s` without its leading and trailing occurrences of `c`.
pub open spec fn trim_char(s: Seq<char>, c: char) -> Seq<char> {
    trim_end(trim_start(s, c), c)
}

/// The pieces of `s` between occurrences of `c`, in order; an empty `s`
/// gives one empty piece, and two adjacent separators an empty piece.
pub open spec fn split_on(s: Seq<char>, c: char) -> Seq<Seq<char>>
    decreases s.len(),
{
    if s.len() == 0 {
        seq![Seq::empty()]
    } else {
        let pre = split_on(s.drop_last(), c);
        if s.last() == c {
            pre.push(Seq::empty())
        } else {
            pre.update(pre.len() - 1, pre.last().push(s.last()))
        }
    }
}

/// `i` is the position of the first `c` in `s`.
pub open spec fn is_first_index(s: Seq<char>, c: char, i: int) -> bool {
    0 <= i < s.len() && s[i] == c && forall|j: int| 0 <= j < i ==> s[j] != c
}

/// `s` cut at its first `c` into what stands before and what stands after.
pub open spec fn split_once(s: Seq<char>, c: char) -> Option<(Seq<char>, Seq<char>)> {
    if exists|i: int| is_first_index(s, c, i) {
        let i = choose|i: int| is_first_index(s, c, i);
        Some((s.subrange(0, i), s.subrange(i + 1, s.len() as int)))
    } else {
        None
    }
}

/// `s` begins with `p`.
pub open spec fn has_prefix(s: Seq<char>, p: Seq<char>) -> bool {
    p.len() <= s.len() && s.subrange(0, p.len() as int) == p
}

pub proof fn lemma_split_on_nonempty(s: Seq<char>, c: char)
    ensures
        split_on(s, c).len() >= 1,
    decreases s.len(),
{
    if s.len() > 0 {
        lemma_split_on_nonempty(s.drop_last(), c);
    }
}

proof fn lemma_first_index_unique(s: Seq<char>, c: char, i: int, j: int)
    requires
        is_first_index(s, c, i),
        is_first_index(s, c, j),
    ensures
        i == j,
{
    if i < j {
        assert(s[i] != c);
    } else if j < i {
        assert(s[j] != c);
    }
}

/// Character-wise equality of two strings.
pub fn str_eq(a: &str, b: &str) -> (r: bool)
    ensures
        r == (a@ == b@),
{
    let n = a.unicode_len();
    if n != b.unicode_len() {
        return false;
    }
    let mut i: usize = 0;
    while i < n
        invariant
            n == a@.len(),
            n == b@.len(),
            0 <= i <= n,
            forall|j: int| 0 <= j < i ==> a@[j] == b@[j],
        decreases n - i,
    {
        if a.get_char(i) != b.get_char(i) {
            return false;
        }
        i += 1;
    }
    assert(a@ =~= b@);
    true
}

/// Whether `s` begins with `p`.
pub fn starts_with(s: &str, p: &str) -> (r: bool)
    ensures
        r == has_prefix(s@, p@),
{
    let n = s.unicode_len();
    let m = p.unicode_len();
    if m > n {
        return false;
    }
    let mut i: usize = 0;
    while i < m
        invariant
            n == s@.len(),
            m == p@.len(),
            m <= n,
            0 <= i <= m,
            forall|j: int| 0 <= j < i ==> s@[j] == p@[j],
        decreases m - i,
    {
        if s.get_char(i) != p.get_char(i) {
            assert(s@.subrange(0, m as int)[i as int] != p@[i as int]);
            return false;
        }
        i += 1;
    }
    assert(s@.subrange(0, m as int) =~= p@);
    true
}

/// `s` with its leading and trailing occurrences of `c` removed.
pub fn trim_matches<'a>(s: &'a str, c: char) -> (r: &'a str)
    ensures
        r@ == trim_char(s@, c),
{
    let n = s.unicode_len();
    let mut i: usize = 0;
    assert(s@.subrange(0, n as int) =~= s@);
    while i < n && s.get_char(i) == c
        invariant
            n == s@.len(),
            0 <= i <= n,
            trim_start(s@, c) == trim_start(s@.subrange(i as int, n as int), c),
        decreases n - i,
    {
        proof {
            let t = s@.subrange(i as int, n as int);
            assert(t.subrange(1, t.len() as int) =~= s@.subrange(i + 1, n as int));
        }
        i += 1;
    }
    let ghost head = s@.subrange(i as int, n as int);
    assert(trim_start(head, c) == head);
    let mut j: usize = n;
    while j > i && s.get_char(j - 1) == c
        invariant
            n == s@.len(),
            0 <= i <= j <= n,
            head == s@.subrange(i as int, n as int),
            trim_end(head, c) == trim_end(s@.subrange(i as int, j as int), c),
        decreases j,
    {
        proof {
            let t = s@.subrange(i as int, j as int);
            assert(t.drop_last() =~= s@.subrange(i as int, j - 1));
        }
        j -= 1;
    }
    let r = s.substring_char(i, j);
    assert(trim_end(s@.subrange(i as int, j as int), c) == s@.subrange(i as int, j as int));
    r
}

/// The pieces of `s` between occurrences of `c`.
pub fn split_on_char(s: &str, c: char) -> (r: Vec<String>)
    ensures
        views(r@) == split_on(s@, c),
{
    let n = s.unicode_len();
    let mut out: Vec<String> = Vec::new();
    let mut start: usize = 0;
    let mut i: usize = 0;
    proof {
        assert(views(out@) =~= Seq::<Seq<char>>::empty());
        assert(s@.subrange(0, 0) =~= Seq::<char>::empty());
        assert(views(out@).push(s@.subrange(0, 0)) =~= split_on(s@.subrange(0, 0), c));
    }
    while i < n
        invariant
            n == s@.len(),
            0 <= start <= i <= n,
            views(out@).push(s@.subrange(start as int, i as int)) == split_on(
                s@.subrange(0, i as int),
                c,
            ),
        decreases n - i,
    {
        let ch = s.get_char(i);
        proof {
            let t = s@.subrange(0, i + 1);
            assert(t.drop_last() =~= s@.subrange(0, i as int));
            assert(t.last() == ch);
            lemma_split_on_nonempty(t.drop_last(), c);
        }
        if ch == c {
            let piece = String::from_str(s.substring_char(start, i));
            let ghost before = views(out@);
            out.push(piece);
            proof {
                assert(views(out@) =~= before.push(piece@));
                assert(s@.subrange(i + 1, i + 1) =~= Seq::<char>::empty());
            }
            start = i + 1;
        } else {
            proof {
                assert(s@.subrange(start as int, i + 1) =~= s@.subrange(start as int, i as int).push(ch));
                let pre = views(out@).push(s@.subrange(start as int, i as int));
                assert(pre.update(pre.len() - 1, pre.last().push(ch)) =~= views(out@).push(
                    s@.subrange(start as int, i + 1),
                ));
            }
        }
        i += 1;
    }
    let last = String::from_str(s.substring_char(start, n));
    let ghost before = views(out@);
    out.push(last);
    proof {
        assert(views(out@) =~= before.push(last@));
        assert(s@.subrange(0, n as int) =~= s@);
    }
    out
}

/// The position of the first `c` in `s`, if any.
pub fn find_char(s: &str, c: char) -> (r: Option<usize>)
    ensures
        match r {
            Some(i) => is_first_index(s@, c, i as int),
            None => forall|j: int| 0 <= j < s@.len() ==> s@[j] != c,
        },
{
    let n = s.unicode_len();
    let mut i: usize = 0;
    while i < n
        invariant
            n == s@.len(),
            0 <= i <= n,
            forall|j: int| 0 <= j < i ==> s@[j] != c,
        decreases n - i,
    {
        if s.get_char(i) == c {
            return Some(i);
        }
        i += 1;
    }
    None
}

/// `s` cut at its first `c`.
pub fn split_once_char<'a>(s: &'a str, c: char) -> (r: Option<(&'a str, &'a str)>)
    ensures
        match r {
            Some((a, b)) => split_once(s@, c) == Some((a@, b@)),
            None => split_once(s@, c) is None,
        },
{
    match find_char(s, c) {
        Some(i) => {
            let n = s.unicode_len();
            let a = s.substring_char(0, i);
            let b = s.substring_char(i + 1, n);
            proof {
                assert(exists|k: int| is_first_index(s@, c, k));
                let k = choose|k: int| is_first_index(s@, c, k);
                lemma_first_index_unique(s@, c, i as int, k);
            }
            Some((a, b))
        },
        None => {
            assert(!exists|k: int| is_first_index(s@, c, k));
            None
        },
    }
}

} // verus!
