//! Verified text manipulation over sequences of characters: splitting into
//! lines, joining lines, splitting on a token, prefix tests and whitespace
//! trimming.  Shader preprocessing is built on these.
//!
//! Exec code works on `Vec<char>`; the two conversions to and from the string
//! types are at the bottom of the file.

use vstd::prelude::*;
use vstd::string::StrSliceExecFns;

verus! {

/// The views of a sequence of character vectors.
pub open spec fn views(ls: Seq<Vec<char>>) -> Seq<Seq<char>> {
    Seq::new(ls.len(), |i: int| ls[i]@)
}

/// Index of the first occurrence of `c`, or the length if there is none.
pub open spec fn find_char(s: Seq<char>, c: char) -> int
    decreases s.len(),
{
    if s.len() == 0 {
        0
    } else if s[0] == c {
        0
    } else {
        1 + find_char(s.drop_first(), c)
    }
}

/// What [`find_char`] returns: the first position holding `c`, or the length.
pub proof fn lemma_find_char(s: Seq<char>, c: char)
    ensures
        0 <= find_char(s, c) <= s.len(),
        forall|k: int| 0 <= k < find_char(s, c) ==> s[k] != c,
        find_char(s, c) < s.len() ==> s[find_char(s, c)] == c,
    decreases s.len(),
{
    if s.len() > 0 && s[0] != c {
        lemma_find_char(s.drop_first(), c);
        assert forall|k: int| 0 <= k < find_char(s, c) implies s[k] != c by {
            if k > 0 {
                assert(s.drop_first()[k - 1] == s[k]);
            }
        }
    }
}

/// A position before which `c` does not occur, and which holds `c` or is the
/// end, is what [`find_char`] returns.
pub proof fn lemma_find_char_is(s: Seq<char>, c: char, i: int)
    requires
        0 <= i <= s.len(),
        forall|k: int| 0 <= k < i ==> s[k] != c,
        i < s.len() ==> s[i] == c,
    ensures
        find_char(s, c) == i,
{
    lemma_find_char(s, c);
}

/// The lines of `s`, split on the newline character.  A text of `n` newlines
/// has `n + 1` lines; the newlines themselves belong to no line.
pub open spec fn split_lines(s: Seq<char>) -> Seq<Seq<char>>
    decreases s.len(),
{
    let i = find_char(s, '\n');
    if 0 <= i && i < s.len() {
        seq![s.subrange(0, i)] + split_lines(s.skip(i + 1))
    } else {
        seq![s]
    }
}

/// The given lines, joined by single newline characters.
pub open spec fn join_lines(ls: Seq<Seq<char>>) -> Seq<char>
    decreases ls.len(),
{
    if ls.len() == 0 {
        Seq::empty()
    } else if ls.len() == 1 {
        ls[0]
    } else {
        ls[0] + seq!['\n'] + join_lines(ls.drop_first())
    }
}

/// There is always at least one line.
pub proof fn lemma_split_lines_nonempty(s: Seq<char>)
    ensures
        split_lines(s).len() >= 1,
{
}

/// Joining the lines of a text gives the text back.
pub proof fn lemma_join_split_lines(s: Seq<char>)
    ensures
        join_lines(split_lines(s)) == s,
    decreases s.len(),
{
    lemma_find_char(s, '\n');
    let i = find_char(s, '\n');
    if 0 <= i && i < s.len() {
        lemma_join_split_lines(s.skip(i + 1));
        lemma_split_lines_nonempty(s.skip(i + 1));
        let ls = split_lines(s);
        assert(ls.drop_first() =~= split_lines(s.skip(i + 1)));
        assert(ls[0] == s.subrange(0, i));
        assert(s.subrange(0, i) + seq!['\n'] + s.skip(i + 1) =~= s);
    }
}

/// Whether `tok` occurs in `s` starting at position `i`.
pub open spec fn token_at(s: Seq<char>, tok: Seq<char>, i: int) -> bool {
    0 <= i && i + tok.len() <= s.len() && s.subrange(i, i + tok.len()) == tok
}

/// Start of the first occurrence of `tok`, or the length of `s` if there is
/// none.
pub open spec fn find_token(s: Seq<char>, tok: Seq<char>) -> int
    recommends
        tok.len() > 0,
    decreases s.len(),
{
    if tok.is_prefix_of(s) {
        0
    } else if s.len() == 0 {
        0
    } else {
        1 + find_token(s.drop_first(), tok)
    }
}

/// What [`find_token`] returns: the first occurrence of the token, or the
/// length of `s` when the token does not occur at all.
pub proof fn lemma_find_token(s: Seq<char>, tok: Seq<char>)
    requires
        tok.len() > 0,
    ensures
        0 <= find_token(s, tok) <= s.len(),
        forall|k: int| 0 <= k < find_token(s, tok) ==> !token_at(s, tok, k),
        find_token(s, tok) < s.len() ==> token_at(s, tok, find_token(s, tok)),
        find_token(s, tok) < s.len() ==> find_token(s, tok) + tok.len() <= s.len(),
    decreases s.len(),
{
    if tok.is_prefix_of(s) {
        assert(s.subrange(0, tok.len() as int) =~= tok);
    } else if s.len() == 0 {
    } else {
        lemma_find_token(s.drop_first(), tok);
        let f = find_token(s, tok);
        assert forall|k: int| 0 <= k < f implies !token_at(s, tok, k) by {
            if k == 0 {
                if token_at(s, tok, 0) {
                    assert(tok =~= s.subrange(0, tok.len() as int));
                    assert(tok.is_prefix_of(s));
                }
            } else {
                assert(!token_at(s.drop_first(), tok, k - 1));
                if token_at(s, tok, k) {
                    assert(s.drop_first().subrange(k - 1, k - 1 + tok.len()) =~= s.subrange(
                        k,
                        k + tok.len(),
                    ));
                }
            }
        }
        if f < s.len() {
            assert(token_at(s.drop_first(), tok, f - 1));
            assert(s.subrange(f, f + tok.len()) =~= s.drop_first().subrange(
                f - 1,
                f - 1 + tok.len(),
            ));
        }
    }
}

/// A position before which the token does not occur, and at which it occurs
/// or which is the end, is what [`find_token`] returns.
pub proof fn lemma_find_token_is(s: Seq<char>, tok: Seq<char>, i: int)
    requires
        tok.len() > 0,
        0 <= i <= s.len(),
        forall|k: int| 0 <= k < i ==> !token_at(s, tok, k),
        i < s.len() ==> token_at(s, tok, i),
    ensures
        find_token(s, tok) == i,
{
    lemma_find_token(s, tok);
    let f = find_token(s, tok);
    if f < i {
        assert(token_at(s, tok, f));
    } else if i < f {
        assert(!token_at(s, tok, i));
        assert(i < s.len());
    }
}

/// The chunks of `s` around the occurrences of `tok`, in order.  The
/// occurrences themselves belong to no chunk; `n` occurrences give `n + 1`
/// chunks.
pub open spec fn split_on_token(s: Seq<char>, tok: Seq<char>) -> Seq<Seq<char>>
    recommends
        tok.len() > 0,
    decreases s.len(),
{
    let i = find_token(s, tok);
    if 0 <= i && tok.len() > 0 && i + tok.len() <= s.len() {
        seq![s.subrange(0, i)] + split_on_token(s.skip(i + tok.len()), tok)
    } else {
        seq![s]
    }
}

/// Index of the last occurrence of `c`, or minus one if there is none.
pub open spec fn find_last_char(s: Seq<char>, c: char) -> int
    decreases s.len(),
{
    if s.len() == 0 {
        -1
    } else if s[s.len() - 1] == c {
        s.len() - 1
    } else {
        find_last_char(s.drop_last(), c)
    }
}

/// A position holding `c` (or minus one, when `c` is absent) after which `c`
/// does not occur is what [`find_last_char`] returns.
pub proof fn lemma_find_last_char_is(s: Seq<char>, c: char, i: int)
    requires
        -1 <= i < s.len(),
        forall|k: int| i < k < s.len() ==> s[k] != c,
        0 <= i ==> s[i] == c,
    ensures
        find_last_char(s, c) == i,
    decreases s.len(),
{
    if s.len() > 0 && s[s.len() - 1] != c {
        assert forall|k: int| i < k < s.drop_last().len() implies s.drop_last()[k] != c by {
            assert(s.drop_last()[k] == s[k]);
        }
        if 0 <= i {
            assert(s.drop_last()[i] == s[i]);
        }
        lemma_find_last_char_is(s.drop_last(), c, i);
    }
}

/// An ASCII whitespace character.
pub open spec fn is_space(c: char) -> bool {
    c == ' ' || c == '\t' || c == '\n' || c == '\r' || c == '\u{000B}' || c == '\u{000C}'
}

/// `s` without its leading whitespace.
pub open spec fn trim_start(s: Seq<char>) -> Seq<char>
    decreases s.len(),
{
    if s.len() > 0 && is_space(s[0]) {
        trim_start(s.drop_first())
    } else {
        s
    }
}

/// Dropping any run of leading whitespace that ends at a non-space character
/// (or at the end) is what trimming does.
pub proof fn lemma_trim_start_is(s: Seq<char>, i: int)
    requires
        0 <= i <= s.len(),
        forall|k: int| 0 <= k < i ==> is_space(s[k]),
        i < s.len() ==> !is_space(s[i]),
    ensures
        trim_start(s) == s.skip(i),
    decreases i,
{
    if i == 0 {
        assert(s.skip(0) =~= s);
    } else {
        assert(is_space(s[0]));
        let t = s.drop_first();
        assert forall|k: int| 0 <= k < i - 1 implies is_space(t[k]) by {
            assert(t[k] == s[k + 1]);
        }
        lemma_trim_start_is(t, i - 1);
        assert(t.skip(i - 1) =~= s.skip(i));
    }
}

/// A copy of the characters of `v` from `a` (inclusive) to `b` (exclusive).
pub fn subrange_chars(v: &Vec<char>, a: usize, b: usize) -> (r: Vec<char>)
    requires
        a <= b <= v@.len(),
    ensures
        r@ == v@.subrange(a as int, b as int),
{
    let mut r: Vec<char> = Vec::new();
    let mut i: usize = a;
    while i < b
        invariant
            a <= i <= b <= v@.len(),
            r@ =~= v@.subrange(a as int, i as int),
        decreases b - i,
    {
        r.push(v[i]);
        i = i + 1;
    }
    r
}

/// Whether the characters of `p` open `v`.
pub fn has_prefix(v: &Vec<char>, p: &str) -> (r: bool)
    ensures
        r == p@.is_prefix_of(v@),
{
    let plen = p.unicode_len();
    if plen > v.len() {
        return false;
    }
    let mut i: usize = 0;
    while i < plen
        invariant
            plen == p@.len() <= v@.len(),
            0 <= i <= plen,
            forall|k: int| 0 <= k < i ==> p@[k] == v@[k],
        decreases plen - i,
    {
        if p.get_char(i) != v[i] {
            proof {
                if p@.is_prefix_of(v@) {
                    assert(p@[i as int] == v@.subrange(0, p@.len() as int)[i as int]);
                }
            }
            return false;
        }
        i = i + 1;
    }
    proof {
        assert(p@ =~= v@.subrange(0, p@.len() as int));
    }
    true
}

/// Whether `tok` occurs in `v` starting at `i`.
pub fn token_at_exec(v: &Vec<char>, tok: &Vec<char>, i: usize) -> (r: bool)
    requires
        i <= v@.len(),
    ensures
        r == token_at(v@, tok@, i as int),
{
    if v.len() - i < tok.len() {
        return false;
    }
    let mut k: usize = 0;
    while k < tok.len()
        invariant
            0 <= k <= tok@.len(),
            i + tok@.len() <= v@.len(),
            v@.len() <= usize::MAX,
            forall|j: int| 0 <= j < k ==> tok@[j] == v@[i + j],
        decreases tok@.len() - k,
    {
        if tok[k] != v[i + k] {
            proof {
                if token_at(v@, tok@, i as int) {
                    assert(tok@[k as int] == v@.subrange(
                        i as int,
                        i + tok@.len(),
                    )[k as int]);
                }
            }
            return false;
        }
        k = k + 1;
    }
    proof {
        assert(v@.subrange(i as int, i + tok@.len()) =~= tok@);
    }
    true
}

/// The lines of `v`, split on the newline character.
pub fn split_lines_exec(v: &Vec<char>) -> (r: Vec<Vec<char>>)
    ensures
        views(r@) == split_lines(v@),
{
    let mut out: Vec<Vec<char>> = Vec::new();
    let mut pos: usize = 0;
    let mut done: bool = false;
    proof {
        assert(v@.skip(0) =~= v@);
        assert(views(out@) =~= Seq::<Seq<char>>::empty());
        assert(views(out@) + split_lines(v@) =~= split_lines(v@));
    }
    while !done
        invariant
            0 <= pos <= v@.len(),
            !done ==> views(out@) + split_lines(v@.skip(pos as int)) == split_lines(v@),
            done ==> views(out@) == split_lines(v@),
        decreases v@.len() - pos + (if done { 0int } else { 1int }),
    {
        let ghost rest = v@.skip(pos as int);
        let mut j: usize = pos;
        while j < v.len() && v[j] != '\n'
            invariant
                pos <= j <= v@.len(),
                forall|k: int| pos <= k < j ==> v@[k] != '\n',
            decreases v@.len() - j,
        {
            j = j + 1;
        }
        proof {
            assert forall|k: int| 0 <= k < j - pos implies rest[k] != '\n' by {
                assert(rest[k] == v@[pos + k]);
            }
            if j < v@.len() {
                assert(rest[j - pos] == v@[j as int]);
            }
            lemma_find_char_is(rest, '\n', j - pos);
        }
        let line = subrange_chars(v, pos, j);
        let ghost pre = out@;
        out.push(line);
        proof {
            assert(views(out@) =~= views(pre).push(line@));
        }
        if j < v.len() {
            proof {
                assert(split_lines(rest) == seq![rest.subrange(0, j - pos)] + split_lines(
                    rest.skip(j - pos + 1),
                ));
                assert(rest.subrange(0, j - pos) =~= line@);
                assert(rest.skip(j - pos + 1) =~= v@.skip(j + 1));
                assert(views(out@) + split_lines(v@.skip(j + 1)) =~= views(pre) + split_lines(
                    rest,
                ));
            }
            pos = j + 1;
        } else {
            proof {
                assert(rest.subrange(0, j - pos) =~= rest);
                assert(split_lines(rest) == seq![rest]);
                assert(views(out@) =~= views(pre) + split_lines(rest));
            }
            done = true;
        }
    }
    out
}

/// The given lines, joined by single newline characters.
pub fn join_lines_exec(ls: &Vec<Vec<char>>) -> (r: Vec<char>)
    ensures
        r@ == join_lines(views(ls@)),
{
    let mut out: Vec<char> = Vec::new();
    if ls.len() == 0 {
        return out;
    }
    let mut i: usize = 0;
    proof {
        assert(views(ls@).skip(0) =~= views(ls@));
        assert(out@ + join_lines(views(ls@)) =~= join_lines(views(ls@)));
    }
    while i < ls.len()
        invariant
            0 <= i <= ls@.len(),
            ls@.len() > 0,
            i < ls@.len() ==> out@ + join_lines(views(ls@).skip(i as int)) == join_lines(
                views(ls@),
            ),
            i == ls@.len() ==> out@ == join_lines(views(ls@)),
        decreases ls@.len() - i,
    {
        let ghost rest = views(ls@).skip(i as int);
        out.extend_from_slice(ls[i].as_slice());
        proof {
            assert(rest[0] == ls@[i as int]@);
        }
        if i + 1 < ls.len() {
            out.push('\n');
            proof {
                assert(rest.drop_first() =~= views(ls@).skip(i as int + 1));
                assert(join_lines(rest) == rest[0] + seq!['\n'] + join_lines(rest.drop_first()));
            }
        } else {
            proof {
                assert(rest.len() == 1);
                assert(join_lines(rest) == rest[0]);
            }
        }
        i = i + 1;
    }
    out
}

/// The chunks of `v` around the occurrences of `tok`, in order.
pub fn split_on_token_exec(v: &Vec<char>, tok: &Vec<char>) -> (r: Vec<Vec<char>>)
    requires
        tok@.len() > 0,
    ensures
        views(r@) == split_on_token(v@, tok@),
{
    let mut out: Vec<Vec<char>> = Vec::new();
    let mut pos: usize = 0;
    let mut done: bool = false;
    proof {
        assert(v@.skip(0) =~= v@);
        assert(views(out@) =~= Seq::<Seq<char>>::empty());
        assert(views(out@) + split_on_token(v@, tok@) =~= split_on_token(v@, tok@));
    }
    while !done
        invariant
            0 <= pos <= v@.len(),
            tok@.len() > 0,
            !done ==> views(out@) + split_on_token(v@.skip(pos as int), tok@) == split_on_token(
                v@,
                tok@,
            ),
            done ==> views(out@) == split_on_token(v@, tok@),
        decreases v@.len() - pos + (if done { 0int } else { 1int }),
    {
        let ghost rest = v@.skip(pos as int);
        let mut j: usize = pos;
        let mut found: bool = false;
        while j < v.len() && !found
            invariant
                pos <= j <= v@.len(),
                forall|k: int| pos <= k < j ==> !token_at(v@, tok@, k),
                found ==> j < v@.len() && token_at(v@, tok@, j as int),
            decreases v@.len() - j + (if found { 0int } else { 1int }),
        {
            if token_at_exec(v, tok, j) {
                found = true;
            } else {
                j = j + 1;
            }
        }
        proof {
            assert forall|k: int| 0 <= k < j - pos implies !token_at(rest, tok@, k) by {
                if token_at(rest, tok@, k) {
                    assert(rest.subrange(k, k + tok@.len()) =~= v@.subrange(
                        pos + k,
                        pos + k + tok@.len(),
                    ));
                    assert(token_at(v@, tok@, pos + k));
                }
            }
            if found {
                assert(v@.subrange(j as int, j + tok@.len()) =~= rest.subrange(
                    j - pos,
                    j - pos + tok@.len(),
                ));
                assert(token_at(rest, tok@, j - pos));
            }
            lemma_find_token_is(rest, tok@, j - pos);
        }
        let chunk = subrange_chars(v, pos, j);
        let ghost pre = out@;
        out.push(chunk);
        proof {
            assert(views(out@) =~= views(pre).push(chunk@));
        }
        if found {
            proof {
                assert(split_on_token(rest, tok@) == seq![rest.subrange(0, j - pos)]
                    + split_on_token(rest.skip(j - pos + tok@.len()), tok@));
                assert(rest.subrange(0, j - pos) =~= chunk@);
                assert(rest.skip(j - pos + tok@.len()) =~= v@.skip(j + tok@.len()));
                assert(views(out@) + split_on_token(v@.skip(j + tok@.len() as int), tok@)
                    =~= views(pre) + split_on_token(rest, tok@));
            }
            pos = j + tok.len();
        } else {
            proof {
                assert(rest.subrange(0, j - pos) =~= rest);
                assert(split_on_token(rest, tok@) == seq![rest]);
                assert(views(out@) =~= views(pre) + split_on_token(rest, tok@));
            }
            done = true;
        }
    }
    out
}

/// Index of the first character of `v` that is not whitespace, or the length
/// if all of it is.
pub fn trim_start_idx(v: &Vec<char>) -> (r: usize)
    ensures
        r <= v@.len(),
        trim_start(v@) == v@.skip(r as int),
        forall|k: int| 0 <= k < r ==> is_space(v@[k]),
        r < v@.len() ==> !is_space(v@[r as int]),
{
    let mut i: usize = 0;
    while i < v.len() && (v[i] == ' ' || v[i] == '\t' || v[i] == '\n' || v[i] == '\r' || v[i]
        == '\u{000B}' || v[i] == '\u{000C}')
        invariant
            0 <= i <= v@.len(),
            forall|k: int| 0 <= k < i ==> is_space(v@[k]),
        decreases v@.len() - i,
    {
        i = i + 1;
    }
    proof {
        lemma_trim_start_is(v@, i as int);
    }
    i
}

/// Relies on `String::push`: it appends exactly the one given character.
#[verifier::external_body]
pub fn push_char(s: &mut String, c: char)
    ensures
        final(s)@ == old(s)@.push(c),
{
    s.push(c);
}

/// Relies on `<str as PartialEq>::eq`: string slices compare equal exactly
/// when their characters do.
#[verifier::external_body]
pub fn str_eq(a: &str, b: &str) -> (r: bool)
    ensures
        r == (a@ == b@),
{
    a == b
}

/// The characters of `s`, as a vector.
pub fn str_to_chars(s: &str) -> (r: Vec<char>)
    ensures
        r@ == s@,
{
    let n = s.unicode_len();
    let mut r: Vec<char> = Vec::new();
    let mut i: usize = 0;
    while i < n
        invariant
            n == s@.len(),
            0 <= i <= n,
            r@ =~= s@.subrange(0, i as int),
        decreases n - i,
    {
        r.push(s.get_char(i));
        i = i + 1;
    }
    proof {
        assert(s@.subrange(0, s@.len() as int) =~= s@);
    }
    r
}

/// The characters of `v`, as a string.
pub fn chars_to_string(v: &Vec<char>) -> (r: String)
    ensures
        r@ == v@,
{
    let mut r = String::new();
    let mut i: usize = 0;
    while i < v.len()
        invariant
            0 <= i <= v@.len(),
            r@ =~= v@.subrange(0, i as int),
        decreases v@.len() - i,
    {
        push_char(&mut r, v[i]);
        i = i + 1;
    }
    proof {
        assert(v@.subrange(0, v@.len() as int) =~= v@);
    }
    r
}

} // verus!
