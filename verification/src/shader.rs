//! Shader programs and shader source preprocessing.
//!
//! The preprocessing is pure text manipulation: a combined source is split
//! into its vertex and fragment stages on `#type` markers, `#define` lines
//! are injected right after the `#version` line, and `#include` lines are
//! replaced by the contents of the named files.  Reading those files, and
//! compiling the result, is the host's business: the library hands it the
//! include targets and takes the fetched contents back.

use vstd::prelude::*;
use crate::assoc::{al_find, al_lookup, al_set, al_unique, lemma_al_lookup_found};
use crate::call::GlCall;
use crate::text::{
    chars_to_string, find_char, has_prefix, join_lines, join_lines_exec,
    find_last_char, find_token, lemma_find_char_is, lemma_find_last_char_is,
    lemma_find_token_is, lemma_join_split_lines,
    split_lines, split_lines_exec, split_on_token, split_on_token_exec, str_to_chars,
    subrange_chars, token_at, trim_start, trim_start_idx, views,
};

verus! {

/// One of the two stages of a renderable program.
#[derive(Clone, Copy, Debug, PartialEq, Eq, Structural)]
pub enum Stage {
    Vertex,
    Fragment,
}

/// What can go wrong while preprocessing a shader source.
#[derive(Clone, Copy, Debug, PartialEq, Eq, Structural)]
pub enum PreprocessError {
    /// An `#include` line has nothing after the directive.
    MalformedInclude,
    /// An `#include` target could not be read.  The host does the reading,
    /// so only it reports this.
    MissingIncludeFile,
    /// The marker of the named stage was not found, or nothing follows it.
    MissingStage(Stage),
}

/// The defines to inject into each stage of a combined source.
pub struct ShaderOptions {
    pub vs_defines: Vec<String>,
    pub fs_defines: Vec<String>,
}

impl Default for ShaderOptions {
    /// No defines for either stage.
    fn default() -> (r: Self)
        ensures
            r.vs_defines@ == Seq::<String>::empty(),
            r.fs_defines@ == Seq::<String>::empty(),
    {
        ShaderOptions { vs_defines: Vec::new(), fs_defines: Vec::new() }
    }
}

/// The views of a sequence of strings.
pub open spec fn str_views(ds: Seq<String>) -> Seq<Seq<char>> {
    Seq::new(ds.len(), |i: int| ds[i]@)
}

/// The text a list of defines injects: one `#define` line per entry, in
/// order, each opened by the newline that ends the line before it.
pub open spec fn defines_block(ds: Seq<Seq<char>>) -> Seq<char>
    decreases ds.len(),
{
    if ds.len() == 0 {
        Seq::empty()
    } else {
        seq!['\n'] + "#define "@ + ds[0] + defines_block(ds.drop_first())
    }
}

/// A line after define injection: a `#version` line has the block appended,
/// every other line stays.
pub open spec fn inject_line(l: Seq<char>, block: Seq<char>) -> Seq<char> {
    if "#version"@.is_prefix_of(l) {
        l + block
    } else {
        l
    }
}

/// The source after define injection: every `#version` line is followed by
/// the define lines; a source without one comes back unchanged.
pub open spec fn spec_inject_defines(src: Seq<char>, ds: Seq<Seq<char>>) -> Seq<char> {
    join_lines(
        Seq::new(
            split_lines(src).len(),
            |i: int| inject_line(split_lines(src)[i], defines_block(ds)),
        ),
    )
}

/// Law: injecting an empty list of defines changes nothing.
pub proof fn lemma_inject_defines_identity(src: Seq<char>)
    ensures
        spec_inject_defines(src, Seq::empty()) == src,
{
    let ls = split_lines(src);
    assert(defines_block(Seq::empty()) == Seq::<char>::empty());
    assert forall|i: int| 0 <= i < ls.len() implies inject_line(
        ls[i],
        defines_block(Seq::empty()),
    ) == ls[i] by {
        assert(ls[i] + Seq::<char>::empty() =~= ls[i]);
    }
    assert(Seq::new(ls.len(), |i: int| inject_line(ls[i], defines_block(Seq::empty()))) =~= ls);
    lemma_join_split_lines(src);
}

/// A chunk names a stage when its text, after leading whitespace, opens with
/// the marker word.
pub open spec fn chunk_is_stage(c: Seq<char>, marker: Seq<char>) -> bool {
    marker.is_prefix_of(trim_start(c))
}

/// Index of the first chunk naming the stage, or the number of chunks if
/// none does.
pub open spec fn find_stage_chunk(chunks: Seq<Seq<char>>, marker: Seq<char>) -> int
    decreases chunks.len(),
{
    if chunks.len() == 0 {
        0
    } else if chunk_is_stage(chunks[0], marker) {
        0
    } else {
        1 + find_stage_chunk(chunks.drop_first(), marker)
    }
}

/// What [`find_stage_chunk`] returns: the first chunk naming the stage, or
/// the number of chunks.
pub proof fn lemma_find_stage_chunk(chunks: Seq<Seq<char>>, marker: Seq<char>)
    ensures
        0 <= find_stage_chunk(chunks, marker) <= chunks.len(),
        forall|k: int| 0 <= k < find_stage_chunk(chunks, marker) ==> !chunk_is_stage(
            chunks[k],
            marker,
        ),
        find_stage_chunk(chunks, marker) < chunks.len() ==> chunk_is_stage(
            chunks[find_stage_chunk(chunks, marker)],
            marker,
        ),
    decreases chunks.len(),
{
    if chunks.len() > 0 && !chunk_is_stage(chunks[0], marker) {
        lemma_find_stage_chunk(chunks.drop_first(), marker);
        assert forall|k: int| 0 <= k < find_stage_chunk(chunks, marker) implies !chunk_is_stage(
            chunks[k],
            marker,
        ) by {
            if k > 0 {
                assert(chunks.drop_first()[k - 1] == chunks[k]);
            }
        }
    }
}

/// A position before which no chunk names the stage, and whose chunk names it
/// or which is the end, is what [`find_stage_chunk`] returns.
pub proof fn lemma_find_stage_chunk_is(chunks: Seq<Seq<char>>, marker: Seq<char>, i: int)
    requires
        0 <= i <= chunks.len(),
        forall|k: int| 0 <= k < i ==> !chunk_is_stage(chunks[k], marker),
        i < chunks.len() ==> chunk_is_stage(chunks[i], marker),
    ensures
        find_stage_chunk(chunks, marker) == i,
{
    lemma_find_stage_chunk(chunks, marker);
}

/// Whether anything follows the chunk's first newline, that is, whether the
/// chunk has a newline at all.
pub open spec fn chunk_has_text(c: Seq<char>) -> bool {
    0 <= find_char(c, '\n') < c.len()
}

/// The text of a stage chunk: everything after the chunk's first newline,
/// which ends the marker line.
pub open spec fn stage_text(c: Seq<char>) -> Seq<char> {
    c.skip(find_char(c, '\n') + 1)
}

/// The two stage texts of a combined source: the source is split on the
/// `#type` token; the first chunk opening (after whitespace) with `vertex`
/// holds the vertex stage after its first newline, and the first chunk
/// opening with `fragment` holds the fragment stage likewise.  The two
/// searches are independent, so the stages may stand in either order.  A
/// stage whose marked chunk is missing, or holds nothing after the marker
/// line, is reported missing.
pub open spec fn spec_split_stages(src: Seq<char>) -> Result<
    (Seq<char>, Seq<char>),
    PreprocessError,
> {
    let chunks = split_on_token(src, "#type"@);
    let vi = find_stage_chunk(chunks, "vertex"@);
    let fi = find_stage_chunk(chunks, "fragment"@);
    if vi == chunks.len() || !chunk_has_text(chunks[vi]) {
        Err(PreprocessError::MissingStage(Stage::Vertex))
    } else if fi == chunks.len() || !chunk_has_text(chunks[fi]) {
        Err(PreprocessError::MissingStage(Stage::Fragment))
    } else {
        Ok((stage_text(chunks[vi]), stage_text(chunks[fi])))
    }
}

/// Index of the first chunk naming the stage, or the number of chunks if
/// none does.
fn find_stage(chunks: &Vec<Vec<char>>, marker: &str) -> (r: usize)
    ensures
        r <= chunks@.len(),
        r == find_stage_chunk(views(chunks@), marker@),
        r < chunks@.len() ==> chunk_is_stage(chunks@[r as int]@, marker@),
{
    let ghost cv = views(chunks@);
    let mut i: usize = 0;
    while i < chunks.len()
        invariant
            0 <= i <= chunks@.len(),
            cv == views(chunks@),
            forall|k: int| 0 <= k < i ==> !chunk_is_stage(chunks@[k]@, marker@),
        decreases chunks@.len() - i,
    {
        let t = trim_start_idx(&chunks[i]);
        let suffix = subrange_chars(&chunks[i], t, chunks[i].len());
        proof {
            assert(suffix@ =~= chunks@[i as int]@.skip(t as int));
        }
        if has_prefix(&suffix, marker) {
            proof {
                assert forall|k: int| 0 <= k < i implies !chunk_is_stage(cv[k], marker@) by {
                    assert(cv[k] == chunks@[k]@);
                }
                assert(cv[i as int] == chunks@[i as int]@);
                lemma_find_stage_chunk_is(cv, marker@, i as int);
            }
            return i;
        }
        i = i + 1;
    }
    proof {
        assert forall|k: int| 0 <= k < chunks@.len() implies !chunk_is_stage(cv[k], marker@) by {
            assert(cv[k] == chunks@[k]@);
        }
        lemma_find_stage_chunk_is(cv, marker@, chunks@.len() as int);
    }
    i
}

/// Index of the first newline of `v`, or its length if it has none.
fn first_newline(v: &Vec<char>) -> (r: usize)
    ensures
        r == find_char(v@, '\n'),
        r <= v@.len(),
{
    let mut i: usize = 0;
    while i < v.len() && v[i] != '\n'
        invariant
            0 <= i <= v@.len(),
            forall|k: int| 0 <= k < i ==> v@[k] != '\n',
        decreases v@.len() - i,
    {
        i = i + 1;
    }
    proof {
        lemma_find_char_is(v@, '\n', i as int);
    }
    i
}

/// Splits a combined source into its vertex and fragment stage texts on the
/// `#type vertex` and `#type fragment` marker lines.
pub fn split_stages(src: &str) -> (r: Result<(String, String), PreprocessError>)
    ensures
        r is Ok ==> spec_split_stages(src@) == Ok::<(Seq<char>, Seq<char>), PreprocessError>(
            (r->Ok_0.0@, r->Ok_0.1@),
        ),
        r is Err ==> spec_split_stages(src@) == Err::<(Seq<char>, Seq<char>), PreprocessError>(
            r->Err_0,
        ),
{
    let sv = str_to_chars(src);
    let tok = str_to_chars("#type");
    proof {
        reveal_strlit("#type");
    }
    let chunks = split_on_token_exec(&sv, &tok);
    let ghost cv = split_on_token(src@, "#type"@);
    proof {
        assert(views(chunks@) == cv);
    }
    let vi = find_stage(&chunks, "vertex");
    let fi = find_stage(&chunks, "fragment");
    proof {
        assert(find_stage_chunk(cv, "vertex"@) == vi as int);
        assert(find_stage_chunk(cv, "fragment"@) == fi as int);
    }
    if vi == chunks.len() {
        return Err(PreprocessError::MissingStage(Stage::Vertex));
    }
    let nl = first_newline(&chunks[vi]);
    proof {
        assert(chunks@[vi as int]@ == cv[vi as int]);
    }
    if nl == chunks[vi].len() {
        return Err(PreprocessError::MissingStage(Stage::Vertex));
    }
    let vtext = subrange_chars(&chunks[vi], nl + 1, chunks[vi].len());
    proof {
        assert(vtext@ =~= stage_text(cv[vi as int]));
    }
    if fi == chunks.len() {
        return Err(PreprocessError::MissingStage(Stage::Fragment));
    }
    proof {
        assert(chunks@[fi as int]@ == cv[fi as int]);
    }
    let nl2 = first_newline(&chunks[fi]);
    if nl2 == chunks[fi].len() {
        return Err(PreprocessError::MissingStage(Stage::Fragment));
    }
    let ftext = subrange_chars(&chunks[fi], nl2 + 1, chunks[fi].len());
    proof {
        assert(ftext@ =~= stage_text(cv[fi as int]));
    }
    Ok((chars_to_string(&vtext), chars_to_string(&ftext)))
}

/// A combined source holding the two stage texts under their markers.
pub open spec fn spec_combine(vs: Seq<char>, fs: Seq<char>) -> Seq<char> {
    "#type vertex\n"@ + vs + "#type fragment\n"@ + fs
}

/// Forms a combined source holding the two stage texts under their markers.
pub fn combine(vertex: &str, fragment: &str) -> (r: String)
    ensures
        r@ == spec_combine(vertex@, fragment@),
{
    let mut out: Vec<char> = Vec::new();
    let head = str_to_chars("#type vertex\n");
    out.extend_from_slice(head.as_slice());
    let vs = str_to_chars(vertex);
    out.extend_from_slice(vs.as_slice());
    let mid = str_to_chars("#type fragment\n");
    out.extend_from_slice(mid.as_slice());
    let fs = str_to_chars(fragment);
    out.extend_from_slice(fs.as_slice());
    proof {
        assert(out@ =~= spec_combine(vertex@, fragment@));
    }
    chars_to_string(&out)
}

/// An occurrence of the `#type` token opens with a hash.
proof fn lemma_type_token_at(s: Seq<char>, p: int)
    requires
        token_at(s, "#type"@, p),
    ensures
        s[p] == '#',
{
    reveal_strlit("#type");
    assert(s.subrange(p, p + 5)[0] == s[p]);
}

/// In `a + "#type" + b` the first occurrence of the `#type` token stands
/// exactly at the end of `a`, provided `a` holds no occurrence of its own.
proof fn lemma_find_token_at_marker(a: Seq<char>, b: Seq<char>)
    requires
        forall|k: int| !token_at(a, "#type"@, k),
    ensures
        find_token(a + "#type"@ + b, "#type"@) == a.len(),
{
    reveal_strlit("#type");
    let tok = "#type"@;
    let s = a + tok + b;
    assert(s.subrange(a.len() as int, a.len() as int + 5) =~= tok);
    assert(token_at(s, tok, a.len() as int));
    assert forall|p: int| 0 <= p < a.len() implies !token_at(s, tok, p) by {
        if token_at(s, tok, p) {
            if p + 5 <= a.len() {
                assert(s.subrange(p, p + 5) =~= a.subrange(p, p + 5));
                assert(token_at(a, tok, p));
            } else {
                let d = a.len() - p;
                assert(1 <= d < 5);
                assert(s.subrange(p, p + 5)[d] == s[p + d]);
                assert(s[a.len() as int] == tok[0]);
                assert(tok[d] == '#');
            }
        }
    }
    lemma_find_token_is(s, tok, a.len() as int);
}

/// `a + b` holds no `#type` token when `a` holds no hash at all and `b`
/// holds no occurrence.
proof fn lemma_no_token_in_concat(a: Seq<char>, b: Seq<char>)
    requires
        forall|k: int| 0 <= k < a.len() ==> a[k] != '#',
        forall|k: int| !token_at(b, "#type"@, k),
    ensures
        forall|p: int| !token_at(a + b, "#type"@, p),
{
    reveal_strlit("#type");
    let tok = "#type"@;
    let s = a + b;
    assert forall|p: int| !token_at(s, tok, p) by {
        if token_at(s, tok, p) {
            lemma_type_token_at(s, p);
            if p < a.len() {
                assert(s[p] == a[p]);
            } else {
                assert(s.subrange(p, p + 5) =~= b.subrange(p - a.len(), p - a.len() + 5));
                assert(token_at(b, tok, p - a.len()));
            }
        }
    }
}

/// Law: splitting a combined source yields the two stage texts back, for any
/// stage texts that hold no occurrence of the `#type` marker token.
pub proof fn lemma_split_combine_round_trip(vs: Seq<char>, fs: Seq<char>)
    requires
        forall|k: int| !token_at(vs, "#type"@, k),
        forall|k: int| !token_at(fs, "#type"@, k),
    ensures
        spec_split_stages(spec_combine(vs, fs)) == Ok::<(Seq<char>, Seq<char>), PreprocessError>(
            (vs, fs),
        ),
{
    reveal_strlit("#type");
    reveal_strlit("#type vertex\n");
    reveal_strlit("#type fragment\n");
    reveal_strlit(" vertex\n");
    reveal_strlit(" fragment\n");
    reveal_strlit("vertex");
    reveal_strlit("fragment");
    let tok = "#type"@;
    let src = spec_combine(vs, fs);
    let c1 = " vertex\n"@ + vs;
    let c2 = " fragment\n"@ + fs;
    assert("#type vertex\n"@ =~= tok + " vertex\n"@);
    assert("#type fragment\n"@ =~= tok + " fragment\n"@);
    // The chunks around the two token occurrences are "", the vertex chunk
    // and the fragment chunk.
    assert(src.subrange(0, 5) =~= tok);
    assert(tok.is_prefix_of(src));
    assert(find_token(src, tok) == 0);
    assert(src.skip(5) =~= c1 + tok + c2);
    assert forall|k: int| !token_at(c1, tok, k) by {
        if token_at(c1, tok, k) {
            lemma_type_token_at(c1, k);
            if k < 8 {
                assert(c1[k] == " vertex\n"@[k]);
            } else {
                assert(c1.subrange(k, k + 5) =~= vs.subrange(k - 8, k - 8 + 5));
                assert(token_at(vs, tok, k - 8));
            }
        }
    }
    lemma_find_token_at_marker(c1, c2);
    assert(split_on_token(src.skip(5), tok) == seq![(c1 + tok + c2).subrange(0, c1.len() as int)]
        + split_on_token((c1 + tok + c2).skip(c1.len() as int + 5), tok));
    assert((c1 + tok + c2).subrange(0, c1.len() as int) =~= c1);
    assert((c1 + tok + c2).skip(c1.len() as int + 5) =~= c2);
    assert forall|k: int| !token_at(c2, tok, k) by {
        if token_at(c2, tok, k) {
            lemma_type_token_at(c2, k);
            if k < 10 {
                assert(c2[k] == " fragment\n"@[k]);
            } else {
                assert(c2.subrange(k, k + 5) =~= fs.subrange(k - 10, k - 10 + 5));
                assert(token_at(fs, tok, k - 10));
            }
        }
    }
    lemma_find_token_is(c2, tok, c2.len() as int);
    assert(split_on_token(c2, tok) == seq![c2]);
    let chunks = split_on_token(src, tok);
    assert(src.subrange(0, 0) =~= Seq::<char>::empty());
    assert(chunks =~= seq![Seq::<char>::empty(), c1, c2]);
    // The vertex chunk is the second chunk, and its text is the vertex stage.
    assert(!chunk_is_stage(chunks[0], "vertex"@));
    crate::text::lemma_trim_start_is(c1, 1);
    assert(c1.skip(1).subrange(0, 6) =~= "vertex"@);
    assert(chunk_is_stage(c1, "vertex"@));
    assert(chunks.drop_first() =~= seq![c1, c2]);
    assert(find_stage_chunk(seq![c1, c2], "vertex"@) == 0);
    assert(find_stage_chunk(chunks, "vertex"@) == 1);
    assert forall|k: int| 0 <= k < 7 implies c1[k] != '\n' by {
        assert(c1[k] == " vertex\n"@[k]);
    }
    lemma_find_char_is(c1, '\n', 7);
    assert(chunk_has_text(c1));
    assert(stage_text(c1) =~= vs);
    // The fragment chunk is the third chunk, found independently of the
    // vertex chunk, and its text is the fragment stage.
    crate::text::lemma_trim_start_is(c2, 1);
    assert(c2.skip(1).subrange(0, 8) =~= "fragment"@);
    assert(chunk_is_stage(c2, "fragment"@));
    assert(!chunk_is_stage(chunks[0], "fragment"@));
    assert(c1.skip(1)[0] == c1[1]);
    assert(c1[1] == " vertex\n"@[1]);
    assert(!chunk_is_stage(c1, "fragment"@)) by {
        if "fragment"@.is_prefix_of(trim_start(c1)) {
            assert("fragment"@[0] == trim_start(c1).subrange(0, 8)[0]);
        }
    }
    lemma_find_stage_chunk_is(chunks, "fragment"@, 2);
    assert forall|k: int| 0 <= k < 9 implies c2[k] != '\n' by {
        assert(c2[k] == " fragment\n"@[k]);
    }
    lemma_find_char_is(c2, '\n', 9);
    assert(chunk_has_text(c2));
    assert(stage_text(c2) =~= fs);
}

/// The directory part of a slash-joined path: everything before the last
/// slash, or empty when the path has none.
pub open spec fn spec_path_base(p: Seq<char>) -> Seq<char> {
    if find_last_char(p, '/') >= 0 {
        p.subrange(0, find_last_char(p, '/'))
    } else {
        Seq::empty()
    }
}

/// The directory part of a slash-joined path: everything before the last
/// slash, or empty when the path has none.  Include targets are resolved
/// relative to it.
pub fn path_base(p: &str) -> (r: String)
    ensures
        r@ == spec_path_base(p@),
{
    let pv = str_to_chars(p);
    let mut i: usize = pv.len();
    while i > 0 && pv[i - 1] != '/'
        invariant
            0 <= i <= pv@.len(),
            forall|k: int| i <= k < pv@.len() ==> pv@[k] != '/',
        decreases i,
    {
        i = i - 1;
    }
    if i == 0 {
        proof {
            lemma_find_last_char_is(pv@, '/', -1);
        }
        String::new()
    } else {
        let base = subrange_chars(&pv, 0, i - 1);
        proof {
            lemma_find_last_char_is(pv@, '/', i as int - 1);
        }
        chars_to_string(&base)
    }
}

/// Whether a line is an `#include` directive.
pub open spec fn is_include_line(l: Seq<char>) -> bool {
    "#include"@.is_prefix_of(l)
}

/// The space-separated fields of a line.  Like the directive syntax itself,
/// this splits on single spaces, so a run of spaces makes empty fields.
pub open spec fn line_fields(l: Seq<char>) -> Seq<Seq<char>> {
    split_on_token(l, seq![' '])
}

/// Whether an `#include` line carries a target: anything after a first space.
pub open spec fn line_has_target(l: Seq<char>) -> bool {
    line_fields(l).len() >= 2
}

/// The target of an `#include` line: its second space-separated field.
pub open spec fn line_target(l: Seq<char>) -> Seq<char> {
    line_fields(l)[1]
}

/// How many of the lines are `#include` directives.
pub open spec fn count_includes(ls: Seq<Seq<char>>) -> int
    decreases ls.len(),
{
    if ls.len() == 0 {
        0
    } else {
        (if is_include_line(ls[0]) {
            1int
        } else {
            0int
        }) + count_includes(ls.drop_first())
    }
}

/// No line sequence has a negative number of `#include` lines.
pub proof fn lemma_count_includes_nonneg(ls: Seq<Seq<char>>)
    ensures
        count_includes(ls) >= 0,
    decreases ls.len(),
{
    if ls.len() > 0 {
        lemma_count_includes_nonneg(ls.drop_first());
    }
}

/// The targets of the `#include` lines, in line order, or the error of the
/// first such line that carries no target.
pub open spec fn spec_include_targets(ls: Seq<Seq<char>>) -> Result<
    Seq<Seq<char>>,
    PreprocessError,
>
    decreases ls.len(),
{
    if ls.len() == 0 {
        Ok(Seq::empty())
    } else if is_include_line(ls[0]) {
        if !line_has_target(ls[0]) {
            Err(PreprocessError::MalformedInclude)
        } else {
            match spec_include_targets(ls.drop_first()) {
                Ok(ts) => Ok(seq![line_target(ls[0])] + ts),
                Err(e) => Err(e),
            }
        }
    } else {
        spec_include_targets(ls.drop_first())
    }
}

/// When the extraction succeeds, it yields exactly one target per
/// `#include` line, so its result fits [`substitute_includes`].
pub proof fn lemma_include_targets_count(ls: Seq<Seq<char>>)
    requires
        spec_include_targets(ls) is Ok,
    ensures
        spec_include_targets(ls)->Ok_0.len() == count_includes(ls),
    decreases ls.len(),
{
    if ls.len() > 0 {
        lemma_include_targets_count(ls.drop_first());
    }
}

/// The lines after include substitution: each `#include` line is replaced,
/// whole, by the next of the given contents; every other line stays.
pub open spec fn spec_substitute(ls: Seq<Seq<char>>, cs: Seq<Seq<char>>) -> Seq<Seq<char>>
    decreases ls.len(),
{
    if ls.len() == 0 {
        Seq::empty()
    } else if is_include_line(ls[0]) && cs.len() > 0 {
        seq![cs[0]] + spec_substitute(ls.drop_first(), cs.drop_first())
    } else if is_include_line(ls[0]) {
        seq![ls[0]] + spec_substitute(ls.drop_first(), cs)
    } else {
        seq![ls[0]] + spec_substitute(ls.drop_first(), cs)
    }
}

/// The second space-separated field of `v`, if it has one.
fn second_field(v: &Vec<char>) -> (r: Option<Vec<char>>)
    ensures
        r is Some <==> line_has_target(v@),
        r is Some ==> r->Some_0@ == line_target(v@),
{
    let ghost sp = seq![' '];
    proof {
        assert(sp.len() == 1);
    }
    let mut i: usize = 0;
    while i < v.len() && v[i] != ' '
        invariant
            0 <= i <= v@.len(),
            forall|k: int| 0 <= k < i ==> v@[k] != ' ',
        decreases v@.len() - i,
    {
        i = i + 1;
    }
    proof {
        assert forall|k: int| 0 <= k < i implies !token_at(v@, sp, k) by {
            if token_at(v@, sp, k) {
                assert(v@.subrange(k, k + 1)[0] == v@[k]);
            }
        }
        if i < v@.len() {
            assert(v@.subrange(i as int, i as int + 1) =~= sp);
        }
        lemma_find_token_is(v@, sp, i as int);
    }
    if i == v.len() {
        proof {
            assert(line_fields(v@) == seq![v@]);
        }
        return None;
    }
    let ghost rest = v@.skip(i as int + 1);
    proof {
        assert(line_fields(v@) == seq![v@.subrange(0, i as int)] + split_on_token(rest, sp));
        assert(line_fields(v@)[1] == split_on_token(rest, sp)[0]);
    }
    let mut j: usize = i + 1;
    while j < v.len() && v[j] != ' '
        invariant
            i + 1 <= j <= v@.len(),
            forall|k: int| i + 1 <= k < j ==> v@[k] != ' ',
        decreases v@.len() - j,
    {
        j = j + 1;
    }
    proof {
        assert forall|k: int| 0 <= k < j - (i + 1) implies !token_at(rest, sp, k) by {
            if token_at(rest, sp, k) {
                assert(rest.subrange(k, k + 1)[0] == rest[k]);
                assert(rest[k] == v@[i + 1 + k]);
            }
        }
        if j < v@.len() {
            assert(rest[j - (i + 1)] == v@[j as int]);
            assert(rest.subrange(j - (i + 1), j - (i + 1) + 1) =~= sp);
        }
        lemma_find_token_is(rest, sp, j - (i + 1));
        if j - (i + 1) < rest.len() {
            assert(split_on_token(rest, sp)[0] == rest.subrange(0, j - (i + 1)));
        } else {
            assert(split_on_token(rest, sp) == seq![rest]);
            assert(rest =~= rest.subrange(0, j - (i + 1)));
        }
    }
    let field = subrange_chars(v, i + 1, j);
    proof {
        assert(field@ =~= rest.subrange(0, j - (i + 1)));
    }
    Some(field)
}

/// The targets of the `#include` lines of `src`, in order: each names the
/// file whose contents stand in for its line.  An `#include` line with
/// nothing after the directive is malformed.
pub fn include_targets(src: &str) -> (r: Result<Vec<String>, PreprocessError>)
    ensures
        r is Ok ==> spec_include_targets(split_lines(src@)) == Ok::<
            Seq<Seq<char>>,
            PreprocessError,
        >(str_views(r->Ok_0@)),
        r is Err ==> spec_include_targets(split_lines(src@)) == Err::<
            Seq<Seq<char>>,
            PreprocessError,
        >(r->Err_0),
{
    let sv = str_to_chars(src);
    let lines = split_lines_exec(&sv);
    let ghost lsv = split_lines(src@);
    let mut ts: Vec<String> = Vec::new();
    let mut i: usize = 0;
    proof {
        assert(lsv.skip(0) =~= lsv);
        assert(str_views(ts@) =~= Seq::<Seq<char>>::empty());
        if spec_include_targets(lsv) is Ok {
            assert(str_views(ts@) + spec_include_targets(lsv)->Ok_0 =~= spec_include_targets(
                lsv,
            )->Ok_0);
        }
    }
    while i < lines.len()
        invariant
            0 <= i <= lines@.len(),
            views(lines@) == lsv,
            lsv == split_lines(src@),
            spec_include_targets(lsv.skip(i as int)) is Ok ==> spec_include_targets(lsv)
                == Ok::<Seq<Seq<char>>, PreprocessError>(
                str_views(ts@) + spec_include_targets(lsv.skip(i as int))->Ok_0,
            ),
            spec_include_targets(lsv.skip(i as int)) is Err ==> spec_include_targets(lsv)
                == spec_include_targets(lsv.skip(i as int)),
        decreases lines@.len() - i,
    {
        let ghost rest = lsv.skip(i as int);
        proof {
            assert(rest[0] == lsv[i as int]);
            assert(rest.drop_first() =~= lsv.skip(i as int + 1));
        }
        if has_prefix(&lines[i], "#include") {
            let field = second_field(&lines[i]);
            match field {
                None => {
                    proof {
                        assert(spec_include_targets(rest) == Err::<
                            Seq<Seq<char>>,
                            PreprocessError,
                        >(PreprocessError::MalformedInclude));
                    }
                    return Err(PreprocessError::MalformedInclude);
                },
                Some(f) => {
                    let ghost pre = ts@;
                    ts.push(chars_to_string(&f));
                    proof {
                        assert(str_views(ts@) =~= str_views(pre).push(line_target(lsv[i as int])));
                        if spec_include_targets(rest.drop_first()) is Ok {
                            assert(spec_include_targets(rest)->Ok_0 == seq![
                                line_target(rest[0]),
                            ] + spec_include_targets(rest.drop_first())->Ok_0);
                            assert(str_views(pre) + spec_include_targets(rest)->Ok_0 =~= str_views(
                                ts@,
                            ) + spec_include_targets(rest.drop_first())->Ok_0);
                        } else {
                            assert(spec_include_targets(rest) == spec_include_targets(
                                rest.drop_first(),
                            ));
                        }
                    }
                },
            }
        } else {
            proof {
                assert(spec_include_targets(rest) == spec_include_targets(rest.drop_first()));
            }
        }
        i = i + 1;
    }
    proof {
        assert(lsv.skip(lsv.len() as int) =~= Seq::<Seq<char>>::empty());
        assert(spec_include_targets(lsv.skip(lsv.len() as int)) == Ok::<
            Seq<Seq<char>>,
            PreprocessError,
        >(Seq::<Seq<char>>::empty()));
        assert(str_views(ts@) + Seq::<Seq<char>>::empty() =~= str_views(ts@));
    }
    Ok(ts)
}

/// Replaces each `#include` line of `src`, whole, by the matching entry of
/// `contents`, in line order: the host fetches the file each target names and
/// hands the contents back in the order [`include_targets`] gave them.
pub fn substitute_includes(src: &str, contents: &Vec<String>) -> (r: String)
    requires
        count_includes(split_lines(src@)) == contents@.len(),
    ensures
        r@ == join_lines(spec_substitute(split_lines(src@), str_views(contents@))),
{
    let sv = str_to_chars(src);
    let lines = split_lines_exec(&sv);
    let ghost lsv = split_lines(src@);
    let ghost csv = str_views(contents@);
    let mut out: Vec<Vec<char>> = Vec::new();
    let clen = contents.len();
    let mut i: usize = 0;
    let mut j: usize = 0;
    proof {
        assert(lsv.skip(0) =~= lsv);
        assert(csv.skip(0) =~= csv);
        assert(views(out@) + spec_substitute(lsv, csv) =~= spec_substitute(lsv, csv));
    }
    while i < lines.len()
        invariant
            0 <= i <= lines@.len(),
            0 <= j <= clen,
            clen == contents@.len(),
            views(lines@) == lsv,
            csv == str_views(contents@),
            count_includes(lsv.skip(i as int)) == csv.len() - j,
            views(out@) + spec_substitute(lsv.skip(i as int), csv.skip(j as int))
                == spec_substitute(lsv, csv),
        decreases lines@.len() - i,
    {
        let ghost rest = lsv.skip(i as int);
        let ghost crest = csv.skip(j as int);
        proof {
            assert(rest[0] == lsv[i as int]);
            assert(rest.drop_first() =~= lsv.skip(i as int + 1));
            lemma_count_includes_nonneg(rest.drop_first());
        }
        let ghost pre = out@;
        if has_prefix(&lines[i], "#include") {
            proof {
                assert(crest.len() > 0);
                assert(crest[0] == csv[j as int]);
                assert(crest.drop_first() =~= csv.skip(j as int + 1));
            }
            let cv = str_to_chars(contents[j].as_str());
            out.push(cv);
            j = j + 1;
            proof {
                assert(views(out@) =~= views(pre).push(crest[0]));
                assert(views(out@) + spec_substitute(rest.drop_first(), crest.drop_first())
                    =~= views(pre) + spec_substitute(rest, crest));
            }
        } else {
            let cv = subrange_chars(&lines[i], 0, lines[i].len());
            proof {
                assert(cv@ =~= rest[0]);
            }
            out.push(cv);
            proof {
                assert(views(out@) =~= views(pre).push(rest[0]));
                assert(views(out@) + spec_substitute(rest.drop_first(), crest) =~= views(pre)
                    + spec_substitute(rest, crest));
            }
        }
        i = i + 1;
    }
    proof {
        assert(lsv.skip(lsv.len() as int) =~= Seq::<Seq<char>>::empty());
        assert(views(out@) + Seq::<Seq<char>>::empty() =~= views(out@));
    }
    let joined = join_lines_exec(&out);
    chars_to_string(&joined)
}

/// One driver program: its handle and the uniform locations already resolved,
/// each under the uniform's name.
#[derive(Debug)]
pub struct ShaderProgram {
    pub id: u32,
    pub loc_cache: Vec<(String, i32)>,
}

impl ShaderProgram {
    /// The cached names are pairwise distinct.
    pub open spec fn wf(self) -> bool {
        al_unique(self.loc_cache@)
    }

    /// Wraps a program handle the host obtained from the driver, with an
    /// empty location cache.
    pub fn new(id: u32) -> (r: ShaderProgram)
        ensures
            r.id == id,
            r.loc_cache@ == Seq::<(String, i32)>::empty(),
            r.wf(),
    {
        ShaderProgram { id, loc_cache: Vec::new() }
    }

    /// The call that makes this program current.
    pub fn bind(&self) -> (r: GlCall)
        ensures
            r == (GlCall::UseProgram { program: self.id }),
    {
        GlCall::UseProgram { program: self.id }
    }

    /// The location cached under `name`, if the driver was already asked.
    pub fn cached_location(&self, name: &str) -> (r: Option<i32>)
        requires
            self.wf(),
        ensures
            r == al_lookup(self.loc_cache@, name@),
    {
        let found = al_find(&self.loc_cache, name);
        match found {
            Some(i) => {
                proof {
                    lemma_al_lookup_found(self.loc_cache@, name@, i as int);
                }
                Some(self.loc_cache[i].1)
            },
            None => None,
        }
    }

    /// Records what the driver answered for `name`.  The failure answer
    /// (minus one) is never cached, so the driver is asked again next time;
    /// a real location is stored under the name.
    pub fn note_location(&mut self, name: &str, loc: i32)
        requires
            old(self).wf(),
        ensures
            final(self).wf(),
            final(self).id == old(self).id,
            loc == -1 ==> final(self).loc_cache@ == old(self).loc_cache@,
            loc != -1 ==> al_lookup(final(self).loc_cache@, name@) == Some(loc),
            loc != -1 ==> forall|o: Seq<char>| o != name@ ==> al_lookup(
                final(self).loc_cache@,
                o,
            ) == al_lookup(old(self).loc_cache@, o),
    {
        if loc != -1 {
            al_set(&mut self.loc_cache, name, loc);
        }
    }

    /// Injects the given defines right after the `#version` line of `src`.
    /// A source without a `#version` line comes back unchanged.
    pub fn add_defines(src: &str, defines: &[String]) -> (r: String)
        ensures
            r@ == spec_inject_defines(src@, str_views(defines@)),
    {
        let ghost dsv = str_views(defines@);
        let mut block: Vec<char> = Vec::new();
        let prefix = str_to_chars("#define ");
        let mut i: usize = 0;
        proof {
            assert(dsv.skip(0) =~= dsv);
            assert(block@ + defines_block(dsv) =~= defines_block(dsv));
        }
        while i < defines.len()
            invariant
                0 <= i <= defines@.len(),
                prefix@ == "#define "@,
                block@ + defines_block(dsv.skip(i as int)) == defines_block(dsv),
                dsv == str_views(defines@),
            decreases defines@.len() - i,
        {
            let ghost rest = dsv.skip(i as int);
            block.push('\n');
            block.extend_from_slice(prefix.as_slice());
            let dv = str_to_chars(defines[i].as_str());
            block.extend_from_slice(dv.as_slice());
            proof {
                assert(rest[0] == dsv[i as int]);
                assert(rest.drop_first() =~= dsv.skip(i as int + 1));
                assert(defines_block(rest) == seq!['\n'] + "#define "@ + rest[0] + defines_block(
                    rest.drop_first(),
                ));
            }
            i = i + 1;
        }
        proof {
            assert(dsv.skip(dsv.len() as int) =~= Seq::<Seq<char>>::empty());
            assert(block@ =~= defines_block(dsv));
        }
        let sv = str_to_chars(src);
        let lines = split_lines_exec(&sv);
        let ghost lsv = split_lines(src@);
        let mut out: Vec<Vec<char>> = Vec::new();
        let mut j: usize = 0;
        while j < lines.len()
            invariant
                0 <= j <= lines@.len(),
                views(lines@) == lsv,
                block@ == defines_block(dsv),
                views(out@) =~= Seq::new(j as nat, |k: int| inject_line(lsv[k], defines_block(dsv))),
            decreases lines@.len() - j,
        {
            let ghost pre = out@;
            if has_prefix(&lines[j], "#version") {
                let mut nl = subrange_chars(&lines[j], 0, lines[j].len());
                nl.extend_from_slice(block.as_slice());
                proof {
                    assert(lines@[j as int]@.subrange(0, lines@[j as int]@.len() as int) =~= lsv[
                        j as int
                    ]);
                    assert(nl@ =~= inject_line(lsv[j as int], defines_block(dsv)));
                }
                out.push(nl);
            } else {
                let nl = subrange_chars(&lines[j], 0, lines[j].len());
                proof {
                    assert(nl@ =~= lsv[j as int]);
                    assert(nl@ =~= inject_line(lsv[j as int], defines_block(dsv)));
                }
                out.push(nl);
            }
            proof {
                assert(views(out@) =~= views(pre).push(
                    inject_line(lsv[j as int], defines_block(dsv)),
                ));
                assert(views(out@) =~= Seq::new(
                    j as nat + 1,
                    |k: int| inject_line(lsv[k], defines_block(dsv)),
                ));
            }
            j = j + 1;
        }
        let joined = join_lines_exec(&out);
        let r = chars_to_string(&joined);
        proof {
            assert(Seq::new(lsv.len(), |k: int| inject_line(lsv[k], defines_block(dsv))) =~= views(
                out@,
            ));
        }
        r
    }
}

} // verus!
