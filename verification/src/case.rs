//! Case conversion of ASCII identifiers.
use vstd::prelude::*;
use crate::text::{chars_of, push_char};

verus! {

pub open spec fn is_ascii_char(c: char) -> bool {
    (c as u32) < 128
}

pub open spec fn all_ascii(s: Seq<char>) -> bool {
    forall|i: int| 0 <= i < s.len() ==> is_ascii_char(#[trigger] s[i])
}

pub open spec fn is_upper(c: char) -> bool {
    'A' <= c <= 'Z'
}

pub open spec fn is_lower(c: char) -> bool {
    'a' <= c <= 'z'
}

pub open spec fn to_lower(c: char) -> char {
    if is_upper(c) {
        ((c as u32) + 32) as char
    } else {
        c
    }
}

pub open spec fn to_upper(c: char) -> char {
    if is_lower(c) {
        ((c as u32) - 32) as char
    } else {
        c
    }
}

fn lower_char(c: char) -> (res: char)
    ensures
        res == to_lower(c),
{
    if 'A' <= c && c <= 'Z' {
        ((c as u8) + 32) as char
    } else {
        c
    }
}

fn upper_char(c: char) -> (res: char)
    ensures
        res == to_upper(c),
{
    if 'a' <= c && c <= 'z' {
        ((c as u8) - 32) as char
    } else {
        c
    }
}

/// Snake case of the rest `s` of an identifier, when the current word
/// already has `n` characters: a word of more than one character ends
/// before an uppercase letter (which gets a `_` before it) or before a `_`;
/// letters are lowercased.
pub open spec fn snake_from(s: Seq<char>, n: nat) -> Seq<char>
    decreases s.len(),
{
    if s.len() == 0 {
        Seq::empty()
    } else {
        let c = s[0];
        if (is_upper(c) || c == '_') && n > 1 {
            if c != '_' {
                seq!['_', to_lower(c)] + snake_from(s.drop_first(), 1)
            } else {
                seq![to_lower(c)] + snake_from(s.drop_first(), 1)
            }
        } else {
            seq![to_lower(c)] + snake_from(s.drop_first(), n + 1)
        }
    }
}

proof fn lemma_snake_from_lowercase(s: Seq<char>, n: nat)
    ensures
        forall|i: int| 0 <= i < snake_from(s, n).len() ==> !is_upper(#[trigger] snake_from(s, n)[i]),
    decreases s.len(),
{
    if s.len() > 0 {
        let c = s[0];
        let rest = s.drop_first();
        lemma_snake_from_lowercase(rest, 1);
        lemma_snake_from_lowercase(rest, n + 1);
        let l = to_lower(c);
        assert(!is_upper(l)) by {
            if is_upper(c) {
                assert(l as u32 == c as u32 + 32);
            }
        }
        let out = snake_from(s, n);
        let (prefix, tail) = if (is_upper(c) || c == '_') && n > 1 {
            if c != '_' {
                (seq!['_', l], snake_from(rest, 1))
            } else {
                (seq![l], snake_from(rest, 1))
            }
        } else {
            (seq![l], snake_from(rest, n + 1))
        };
        assert(out == prefix + tail);
        assert forall|i: int| 0 <= i < out.len() implies !is_upper(#[trigger] out[i]) by {
            if i < prefix.len() {
                assert(out[i] == prefix[i]);
            } else {
                assert(out[i] == tail[i - prefix.len()]);
            }
        }
    }
}

/// The snake case of a camel- or Pascal-case identifier.
pub open spec fn snake_case(s: Seq<char>) -> Seq<char> {
    snake_from(s, 0)
}

/// Converts an ASCII camel- or Pascal-case identifier to snake case.
pub fn ascii_camel_or_pascal_to_snake_case(s: &str) -> (res: String)
    requires
        all_ascii(s@),
    ensures
        res@ == snake_case(s@),
        forall|i: int| 0 <= i < res@.len() ==> !is_upper(#[trigger] res@[i]),
{
    proof {
        lemma_snake_from_lowercase(s@, 0);
    }
    let chars = chars_of(s);
    let mut res = String::new();
    let mut n: usize = 0;
    let mut i: usize = 0;
    assert(chars@.skip(0) =~= chars@);
    assert(res@ + snake_from(chars@, 0) =~= snake_from(chars@, 0));
    while i < chars.len()
        invariant
            i <= chars.len(),
            chars@ == s@,
            n <= i,
            snake_case(s@) == res@ + snake_from(chars@.skip(i as int), n as nat),
        decreases chars.len() - i,
    {
        let c = chars[i];
        let ghost rest = chars@.skip(i as int);
        assert(rest[0] == c);
        assert(rest.drop_first() =~= chars@.skip(i + 1));
        let ghost before = res@;
        if (('A' <= c && c <= 'Z') || c == '_') && n > 1 {
            if c != '_' {
                push_char(&mut res, '_');
            }
            let l = lower_char(c);
            push_char(&mut res, l);
            n = 1;
            if c != '_' {
                assert(before + (seq!['_', to_lower(c)] + snake_from(chars@.skip(i + 1), 1)) =~= res@
                    + snake_from(chars@.skip(i + 1), 1));
            } else {
                assert(before + (seq![to_lower(c)] + snake_from(chars@.skip(i + 1), 1)) =~= res@
                    + snake_from(chars@.skip(i + 1), 1));
            }
        } else {
            let l = lower_char(c);
            push_char(&mut res, l);
            assert(before + (seq![to_lower(c)] + snake_from(chars@.skip(i + 1), (n + 1) as nat))
                =~= res@ + snake_from(chars@.skip(i + 1), (n + 1) as nat));
            n = n + 1;
        }
        i = i + 1;
    }
    assert(chars@.skip(i as int) =~= Seq::<char>::empty());
    assert(res@ + Seq::<char>::empty() =~= res@);
    res
}

/// `s` with every letter lowercased.
pub open spec fn lowercase(s: Seq<char>) -> Seq<char> {
    Seq::new(s.len(), |i: int| to_lower(s[i]))
}

/// `s` without its `_` characters.
pub open spec fn strip_underscores(s: Seq<char>) -> Seq<char>
    decreases s.len(),
{
    if s.len() == 0 {
        Seq::empty()
    } else {
        (if s[0] == '_' {
            Seq::empty()
        } else {
            seq![s[0]]
        }) + strip_underscores(s.drop_first())
    }
}

pub open spec fn has_no_upper(s: Seq<char>) -> bool {
    forall|i: int| 0 <= i < s.len() ==> !is_upper(#[trigger] s[i])
}

proof fn lemma_strip_concat(a: Seq<char>, b: Seq<char>)
    ensures
        strip_underscores(a + b) == strip_underscores(a) + strip_underscores(b),
    decreases a.len(),
{
    if a.len() == 0 {
        assert(a + b =~= b);
        assert(strip_underscores(a) + strip_underscores(b) =~= strip_underscores(b));
    } else {
        assert((a + b).drop_first() =~= a.drop_first() + b);
        assert((a + b)[0] == a[0]);
        lemma_strip_concat(a.drop_first(), b);
        let head = if a[0] == '_' {
            Seq::<char>::empty()
        } else {
            seq![a[0]]
        };
        assert(head + (strip_underscores(a.drop_first()) + strip_underscores(b)) =~= (head
            + strip_underscores(a.drop_first())) + strip_underscores(b));
    }
}

proof fn lemma_snake_from_unchanged(s: Seq<char>, n: nat)
    requires
        has_no_upper(s),
    ensures
        snake_from(s, n) == s,
    decreases s.len(),
{
    if s.len() > 0 {
        let rest = s.drop_first();
        assert(has_no_upper(rest)) by {
            assert forall|i: int| 0 <= i < rest.len() implies !is_upper(#[trigger] rest[i]) by {
                assert(rest[i] == s[i + 1]);
            }
        }
        assert(!is_upper(s[0]));
        lemma_snake_from_unchanged(rest, 1);
        lemma_snake_from_unchanged(rest, n + 1);
        assert(seq![s[0]] + rest =~= s);
    }
}

proof fn lemma_snake_from_strip(s: Seq<char>, n: nat)
    ensures
        strip_underscores(snake_from(s, n)) == strip_underscores(lowercase(s)),
    decreases s.len(),
{
    if s.len() == 0 {
        assert(lowercase(s) =~= Seq::<char>::empty());
    } else {
        let c = s[0];
        let rest = s.drop_first();
        let l = to_lower(c);
        assert(lowercase(s) =~= seq![l] + lowercase(rest));
        lemma_strip_concat(seq![l], lowercase(rest));
        lemma_snake_from_strip(rest, 1);
        lemma_snake_from_strip(rest, n + 1);
        if (is_upper(c) || c == '_') && n > 1 && c != '_' {
            lemma_strip_concat(seq!['_', l], snake_from(rest, 1));
            assert(l != '_') by {
                assert(l as u32 == c as u32 + 32);
            }
            assert(seq!['_', l].drop_first() =~= seq![l]);
            assert(seq![l].drop_first() =~= Seq::<char>::empty());
            assert(strip_underscores(seq!['_', l]) =~= strip_underscores(seq![l]));
        } else if (is_upper(c) || c == '_') && n > 1 {
            lemma_strip_concat(seq![l], snake_from(rest, 1));
        } else {
            lemma_strip_concat(seq![l], snake_from(rest, n + 1));
        }
    }
}

/// Snake case only lowercases letters and inserts `_`: an identifier
/// without uppercase letters comes back unchanged, converting twice is
/// converting once, and without its `_` the result is the lowercased
/// identifier without its `_`.
pub proof fn lemma_snake_case_laws(s: Seq<char>)
    ensures
        has_no_upper(s) ==> snake_case(s) == s,
        snake_case(snake_case(s)) == snake_case(s),
        strip_underscores(snake_case(s)) == strip_underscores(lowercase(s)),
{
    if has_no_upper(s) {
        lemma_snake_from_unchanged(s, 0);
    }
    lemma_snake_from_lowercase(s, 0);
    lemma_snake_from_unchanged(snake_case(s), 0);
    lemma_snake_from_strip(s, 0);
}

/// Pascal case of the rest `s` of an identifier, when the current word
/// already has `n` characters: a word of more than one character ends
/// before an uppercase letter or a `_`; `_` is dropped and the first
/// character of each word is uppercased.
pub open spec fn pascal_from(s: Seq<char>, n: nat) -> Seq<char>
    decreases s.len(),
{
    if s.len() == 0 {
        Seq::empty()
    } else {
        let c = s[0];
        let n1: nat = if (is_upper(c) || c == '_') && n > 1 {
            0
        } else {
            n
        };
        if c == '_' {
            pascal_from(s.drop_first(), n1)
        } else {
            seq![if n1 == 0 { to_upper(c) } else { c }] + pascal_from(s.drop_first(), n1 + 1)
        }
    }
}

/// Length of the last word of the rest `s` of an identifier, as
/// [`pascal_from`] cuts it.
pub open spec fn pascal_last_word_len(s: Seq<char>, n: nat) -> nat
    decreases s.len(),
{
    if s.len() == 0 {
        n
    } else {
        let c = s[0];
        let n1: nat = if (is_upper(c) || c == '_') && n > 1 {
            0
        } else {
            n
        };
        if c == '_' {
            pascal_last_word_len(s.drop_first(), n1)
        } else {
            pascal_last_word_len(s.drop_first(), n1 + 1)
        }
    }
}

proof fn lemma_pascal_from_no_underscore(s: Seq<char>, n: nat)
    ensures
        forall|i: int| 0 <= i < pascal_from(s, n).len() ==> #[trigger] pascal_from(s, n)[i] != '_',
    decreases s.len(),
{
    if s.len() > 0 {
        let c = s[0];
        let rest = s.drop_first();
        let n1: nat = if (is_upper(c) || c == '_') && n > 1 {
            0
        } else {
            n
        };
        lemma_pascal_from_no_underscore(rest, n1);
        lemma_pascal_from_no_underscore(rest, n1 + 1);
        if c != '_' {
            let u = to_upper(c);
            assert(u != '_') by {
                if is_lower(c) {
                    assert(u as u32 == c as u32 - 32);
                }
            }
            let o = if n1 == 0 {
                u
            } else {
                c
            };
            let out = pascal_from(s, n);
            let tail = pascal_from(rest, n1 + 1);
            assert(out == seq![o] + tail);
            assert forall|i: int| 0 <= i < out.len() implies #[trigger] out[i] != '_' by {
                if i > 0 {
                    assert(out[i] == tail[i - 1]);
                }
            }
        } else {
            assert(pascal_from(s, n) == pascal_from(rest, n1));
        }
    }
}

/// The Pascal case of a snake-case identifier.
pub open spec fn pascal_case(s: Seq<char>) -> Seq<char> {
    pascal_from(s, 0)
}

/// Converts an ASCII snake-case identifier to Pascal case. The last word
/// must not be empty (the identifier is not empty and does not end with a
/// `_` that closes a word).
pub fn ascii_snake_to_pascal_case(s: &str) -> (res: String)
    requires
        all_ascii(s@),
        pascal_last_word_len(s@, 0) > 0,
    ensures
        res@ == pascal_case(s@),
        forall|i: int| 0 <= i < res@.len() ==> #[trigger] res@[i] != '_',
{
    proof {
        lemma_pascal_from_no_underscore(s@, 0);
    }
    let chars = chars_of(s);
    let mut res = String::new();
    let mut n: usize = 0;
    let mut i: usize = 0;
    assert(chars@.skip(0) =~= chars@);
    assert(res@ + pascal_from(chars@, 0) =~= pascal_from(chars@, 0));
    while i < chars.len()
        invariant
            i <= chars.len(),
            chars@ == s@,
            n <= i,
            pascal_case(s@) == res@ + pascal_from(chars@.skip(i as int), n as nat),
        decreases chars.len() - i,
    {
        let c = chars[i];
        let ghost rest = chars@.skip(i as int);
        assert(rest[0] == c);
        assert(rest.drop_first() =~= chars@.skip(i + 1));
        let ghost before = res@;
        if (('A' <= c && c <= 'Z') || c == '_') && n > 1 {
            n = 0;
        }
        if c != '_' {
            let out = if n == 0 {
                upper_char(c)
            } else {
                c
            };
            push_char(&mut res, out);
            assert(before + (seq![out] + pascal_from(chars@.skip(i + 1), (n + 1) as nat)) =~= res@
                + pascal_from(chars@.skip(i + 1), (n + 1) as nat));
            n = n + 1;
        }
        i = i + 1;
    }
    assert(chars@.skip(i as int) =~= Seq::<char>::empty());
    assert(res@ + Seq::<char>::empty() =~= res@);
    res
}

} // verus!
