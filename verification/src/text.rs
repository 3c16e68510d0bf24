//! Character-level helpers: whitespace, trimming, and building strings.
use vstd::prelude::*;

verus! {

/// Unicode `White_Space`, the set that `char::is_whitespace` and
/// `str::trim` use.
pub open spec fn is_white_space(c: char) -> bool {
    let u = c as u32;
    ||| 9 <= u <= 13
    ||| u == 32
    ||| u == 0x85
    ||| u == 0xa0
    ||| u == 0x1680
    ||| 0x2000 <= u <= 0x200a
    ||| u == 0x2028
    ||| u == 0x2029
    ||| u == 0x202f
    ||| u == 0x205f
    ||| u == 0x3000
}

/// Whether `c` is Unicode whitespace.
pub fn is_whitespace(c: char) -> (res: bool)
    ensures
        res == is_white_space(c),
{
    let u = c as u32;
    (9 <= u && u <= 13) || u == 32 || u == 0x85 || u == 0xa0 || u == 0x1680 || (0x2000 <= u && u
        <= 0x200a) || u == 0x2028 || u == 0x2029 || u == 0x202f || u == 0x205f || u == 0x3000
}

/// `s` without its leading whitespace.
pub open spec fn trim_start(s: Seq<char>) -> Seq<char>
    decreases s.len(),
{
    if s.len() > 0 && is_white_space(s[0]) {
        trim_start(s.drop_first())
    } else {
        s
    }
}

/// `s` without its trailing whitespace.
pub open spec fn trim_end(s: Seq<char>) -> Seq<char>
    decreases s.len(),
{
    if s.len() > 0 && is_white_space(s.last()) {
        trim_end(s.drop_last())
    } else {
        s
    }
}

/// `s` without leading and trailing whitespace, as `str::trim` gives it.
pub open spec fn trim(s: Seq<char>) -> Seq<char> {
    trim_end(trim_start(s))
}

proof fn lemma_trim_start_concat(s: Seq<char>, t: Seq<char>)
    ensures
        trim_start(s + t) == if trim_start(s).len() > 0 {
            trim_start(s) + t
        } else {
            trim_start(t)
        },
    decreases s.len(),
{
    if s.len() == 0 {
        assert(s + t =~= t);
    } else {
        assert((s + t)[0] == s[0]);
        if is_white_space(s[0]) {
            assert((s + t).drop_first() =~= s.drop_first() + t);
            lemma_trim_start_concat(s.drop_first(), t);
        }
    }
}

/// The whitespace characters of Unicode (tab, line feed, vertical tab,
/// form feed, carriage return, space, next line, no-break space, Ogham
/// space mark, the spaces from en quad to hair space, line and paragraph
/// separators, narrow no-break space, medium mathematical space and
/// ideographic space) are trimmed as `str::trim` trims them: one of them
/// before or after a text does not change what the text trims to.
pub proof fn lemma_trim_ignores_whitespace(s: Seq<char>, c: char)
    requires
        c == '\t' || c == '\n' || c == '\x0B' || c == '\x0C' || c == '\r' || c == ' '
            || c == '\u{85}' || c == '\u{a0}' || c == '\u{1680}' || ('\u{2000}' <= c
            <= '\u{200a}') || c == '\u{2028}' || c == '\u{2029}' || c == '\u{202f}'
            || c == '\u{205f}' || c == '\u{3000}',
    ensures
        is_white_space(c),
        trim(seq![c] + s) == trim(s),
        trim(s + seq![c]) == trim(s),
{
    let cs = seq![c];
    assert((cs + s)[0] == c);
    assert((cs + s).drop_first() =~= s);
    assert(trim_start(cs + s) == trim_start(s));
    lemma_trim_start_concat(s, cs);
    assert(cs.drop_first() =~= Seq::<char>::empty());
    assert(trim_start(Seq::<char>::empty()) == Seq::<char>::empty());
    assert(cs[0] == c);
    assert(trim_start(cs) == trim_start(cs.drop_first()));
    assert(trim_start(cs) =~= Seq::<char>::empty());
    if trim_start(s).len() > 0 {
        let x = trim_start(s);
        assert((x + cs).drop_last() =~= x);
        assert((x + cs).last() == c);
    } else {
        assert(trim_start(s) =~= Seq::<char>::empty());
    }
}

/// Bounds of the trimmed part of `w`: `w[start..end]` is `trim(w)`.
pub fn trimmed_bounds(w: &Vec<char>) -> (res: (usize, usize))
    ensures
        res.0 <= res.1 <= w.len(),
        w@.subrange(res.0 as int, res.1 as int) == trim(w@),
{
    let n = w.len();
    let mut i: usize = 0;
    assert(w@.skip(0) =~= w@);
    while i < n && is_whitespace(w[i])
        invariant
            0 <= i <= n,
            n == w.len(),
            trim_start(w@) == trim_start(w@.skip(i as int)),
        decreases n - i,
    {
        assert(w@.skip(i as int).drop_first() =~= w@.skip(i + 1));
        i = i + 1;
    }
    if i < n {
        assert(!is_white_space(w@.skip(i as int)[0]));
    } else {
        assert(w@.skip(i as int) =~= Seq::<char>::empty());
    }
    assert(trim_start(w@) == w@.subrange(i as int, n as int));
    let mut j: usize = n;
    while j > i && is_whitespace(w[j - 1])
        invariant
            i <= j <= n,
            n == w.len(),
            trim(w@) == trim_end(w@.subrange(i as int, j as int)),
        decreases j,
    {
        assert(w@.subrange(i as int, j as int).drop_last() =~= w@.subrange(i as int, j - 1));
        j = j - 1;
    }
    if j > i {
        assert(w@.subrange(i as int, j as int).last() == w@[j - 1]);
    } else {
        assert(w@.subrange(i as int, j as int) =~= Seq::<char>::empty());
    }
    (i, j)
}

/// Appends one character to a string (`String::push`).
#[verifier::external_body]
pub(crate) fn push_char(s: &mut String, c: char)
    ensures
        final(s)@ == old(s)@.push(c),
{
    s.push(c);
}

/// The characters of `s`, in order.
pub fn chars_of(s: &str) -> (res: Vec<char>)
    ensures
        res@ == s@,
{
    let mut res: Vec<char> = Vec::new();
    for c in it: s.chars()
        invariant
            res.len() == it.index(),
            forall|j: int| 0 <= j < res.len() ==> res@[j] == it.seq()[j],
    {
        res.push(c);
    }
    assert(res@ =~= s@);
    res
}

/// The string made of `w[start..end]`.
pub fn string_of(w: &Vec<char>, start: usize, end: usize) -> (res: String)
    requires
        start <= end <= w.len(),
    ensures
        res@ == w@.subrange(start as int, end as int),
{
    let mut res = String::new();
    let mut k = start;
    while k < end
        invariant
            start <= k <= end <= w.len(),
            res@ == w@.subrange(start as int, k as int),
        decreases end - k,
    {
        push_char(&mut res, w[k]);
        assert(w@.subrange(start as int, k + 1) =~= w@.subrange(start as int, k as int).push(w@[k as int]));
        k = k + 1;
    }
    res
}

} // verus!
