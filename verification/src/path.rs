//! Path templates.  A route is declared with parameters written `:name`;
//! a document names them `{name}`.

use crate::text::{
    join, lemma_join_of_segments, lemma_segments_of_join, lemma_segments_slash_free, segments,
    slash_free, slice_to_string, split_segments, texts,
};
use vstd::prelude::*;
use vstd::string::*;

verus! {

/// A segment written `:name` becomes `{name}`; any other segment stays.
pub open spec fn brace_segment(seg: Seq<char>) -> Seq<char> {
    if seg.len() > 0 && seg[0] == ':' {
        seq!['{'] + seg.drop_first() + seq!['}']
    } else {
        seg
    }
}

/// The path template of a document for a path as routes declare it: each
/// segment rewritten by [`brace_segment`].
pub open spec fn openapi_path(path: Seq<char>) -> Seq<char> {
    join(segments(path).map_values(|seg: Seq<char>| brace_segment(seg)))
}

/// A segment of the form `{name}`.
pub open spec fn is_placeholder(seg: Seq<char>) -> bool {
    seg.len() >= 2 && seg[0] == '{' && seg.last() == '}'
}

/// What stands between the braces of a placeholder.
pub open spec fn placeholder_name(seg: Seq<char>) -> Seq<char> {
    seg.subrange(1, seg.len() - 1)
}

/// The names of the placeholders of a path template, from left to right.
pub open spec fn path_parameters(path: Seq<char>) -> Seq<Seq<char>> {
    segments(path).filter(|seg: Seq<char>| is_placeholder(seg)).map_values(
        |seg: Seq<char>| placeholder_name(seg),
    )
}

/// Rewrites the `:name` segments of a path to `{name}`.
pub fn axum_path_to_openapi(path: &str) -> (r: String)
    ensures
        r@ == openapi_path(path@),
{
    let segs = split_segments(path);
    let ghost mapped = segments(path@).map_values(|seg: Seq<char>| brace_segment(seg));
    let mut out = String::new();
    let mut i: usize = 0;
    proof {
        reveal_strlit("/");
        reveal_strlit("{");
        reveal_strlit("}");
        lemma_segments_slash_free(path@);
    }
    while i < segs.len()
        invariant
            i <= segs.len(),
            texts(segs@) == segments(path@),
            mapped == segments(path@).map_values(|seg: Seq<char>| brace_segment(seg)),
            out@ == join(mapped.take(i as int)),
            "/"@ == seq!['/'],
            "{"@ == seq!['{'],
            "}"@ == seq!['}'],
        decreases segs.len() - i,
    {
        let ghost before = out@;
        if i > 0 {
            out.append("/");
        }
        let seg: &str = segs[i].as_str();
        let n: usize = seg.unicode_len();
        proof {
            assert(seg@ == texts(segs@)[i as int]);
            assert(mapped[i as int] == brace_segment(seg@));
        }
        if n > 0 && seg.get_char(0) == ':' {
            out.append("{");
            out.append(seg.substring_char(1, n));
            out.append("}");
            assert(seg@.subrange(1, n as int) =~= seg@.drop_first());
        } else {
            out.append(seg);
        }
        proof {
            let next = mapped.take(i + 1);
            assert(next.drop_last() =~= mapped.take(i as int));
            assert(next.last() == mapped[i as int]);
            if i == 0 {
                assert(before =~= Seq::<char>::empty());
                assert(out@ =~= mapped[0]);
            } else {
                assert(out@ =~= before + seq!['/'] + mapped[i as int]);
            }
        }
        i += 1;
    }
    proof {
        assert(mapped.take(i as int) =~= mapped);
    }
    out
}

/// The names of the placeholders of a path template, from left to right.
pub fn path_params(path: &str) -> (r: Vec<String>)
    ensures
        texts(r@) == path_parameters(path@),
{
    let segs = split_segments(path);
    let ghost pred = |seg: Seq<char>| is_placeholder(seg);
    let ghost name = |seg: Seq<char>| placeholder_name(seg);
    let mut out: Vec<String> = Vec::new();
    let mut i: usize = 0;
    proof {
        reveal(Seq::filter);
        assert(segments(path@).take(0).filter(pred) =~= Seq::empty());
    }
    while i < segs.len()
        invariant
            i <= segs.len(),
            texts(segs@) == segments(path@),
            pred == |seg: Seq<char>| is_placeholder(seg),
            name == |seg: Seq<char>| placeholder_name(seg),
            texts(out@) == segments(path@).take(i as int).filter(pred).map_values(name),
        decreases segs.len() - i,
    {
        let seg: &str = segs[i].as_str();
        let n: usize = seg.unicode_len();
        let ghost before = texts(out@);
        proof {
            reveal(Seq::filter);
            assert(seg@ == texts(segs@)[i as int]);
            let next = segments(path@).take(i + 1);
            assert(next.drop_last() =~= segments(path@).take(i as int));
            assert(next.last() == seg@);
        }
        if n >= 2 && seg.get_char(0) == '{' && seg.get_char(n - 1) == '}' {
            out.push(slice_to_string(seg, 1, n - 1));
            proof {
                assert(texts(out@) =~= before.push(placeholder_name(seg@)));
                assert(segments(path@).take(i + 1).filter(pred).map_values(name) =~= before.push(
                    placeholder_name(seg@),
                ));
            }
        }
        i += 1;
    }
    proof {
        assert(segments(path@).take(i as int) =~= segments(path@));
    }
    out
}

/// A rewritten segment is not rewritten again.
pub proof fn lemma_brace_segment_idempotent(seg: Seq<char>)
    ensures
        brace_segment(brace_segment(seg)) == brace_segment(seg),
        slash_free(seg) ==> slash_free(brace_segment(seg)),
{
}

/// Rewriting a path a second time changes nothing.
pub proof fn lemma_openapi_path_idempotent(path: Seq<char>)
    ensures
        openapi_path(openapi_path(path)) == openapi_path(path),
{
    let f = |seg: Seq<char>| brace_segment(seg);
    let mapped = segments(path).map_values(f);
    lemma_segments_slash_free(path);
    assert forall|i: int| 0 <= i < mapped.len() implies slash_free(#[trigger] mapped[i]) by {
        lemma_brace_segment_idempotent(segments(path)[i]);
    }
    lemma_segments_of_join(mapped);
    assert forall|i: int| 0 <= i < mapped.len() implies #[trigger] mapped.map_values(f)[i]
        == mapped[i] by {
        lemma_brace_segment_idempotent(segments(path)[i]);
    }
    assert(mapped.map_values(f) =~= mapped);
}

/// A segment that is already a placeholder is left as it is, and a path
/// without `:name` segments is its own template.
pub proof fn lemma_openapi_path_keeps_placeholders(path: Seq<char>)
    ensures
        forall|i: int|
            0 <= i < segments(path).len() && is_placeholder(#[trigger] segments(path)[i])
                ==> segments(openapi_path(path))[i] == segments(path)[i],
        (forall|i: int|
            0 <= i < segments(path).len() ==> brace_segment(#[trigger] segments(path)[i])
                == segments(path)[i]) ==> openapi_path(path) == path,
{
    let f = |seg: Seq<char>| brace_segment(seg);
    let mapped = segments(path).map_values(f);
    lemma_segments_slash_free(path);
    assert forall|i: int| 0 <= i < mapped.len() implies slash_free(#[trigger] mapped[i]) by {
        lemma_brace_segment_idempotent(segments(path)[i]);
    }
    lemma_segments_of_join(mapped);
    if forall|i: int|
        0 <= i < segments(path).len() ==> brace_segment(#[trigger] segments(path)[i]) == segments(
            path,
        )[i] {
        assert(mapped =~= segments(path));
        lemma_join_of_segments(path);
    }
}

} // verus!
