//! Route templates: `:name` and `{name}` placeholder segments.

use vstd::prelude::*;

verus! {

/// The separator between path segments.
pub open spec fn is_sep(c: char) -> bool {
    c == '/'
}

/// The pieces of `s` between separators, as `str::split('/')` yields them:
/// always at least one piece, and an empty piece after a trailing separator.
pub open spec fn segments(s: Seq<char>) -> Seq<Seq<char>>
    decreases s.len(),
{
    if s.len() == 0 {
        seq![Seq::<char>::empty()]
    } else {
        let prev = segments(s.drop_last());
        if is_sep(s.last()) {
            prev.push(Seq::<char>::empty())
        } else {
            prev.update(prev.len() - 1, prev.last().push(s.last()))
        }
    }
}

/// `segs` joined with one separator between neighbours.
pub open spec fn join_segments(segs: Seq<Seq<char>>) -> Seq<char>
    decreases segs.len(),
{
    if segs.len() == 0 {
        Seq::<char>::empty()
    } else if segs.len() == 1 {
        segs[0]
    } else {
        join_segments(segs.drop_last()) + seq!['/'] + segs.last()
    }
}

/// A segment in colon syntax, `:name`, is rewritten to `{name}`; any other
/// segment stays as it is.
pub open spec fn canonical_segment(seg: Seq<char>) -> Seq<char> {
    if seg.len() > 0 && seg[0] == ':' {
        seq!['{'] + seg.drop_first() + seq!['}']
    } else {
        seg
    }
}

/// The canonical form of a route template.
pub open spec fn canonical_route(s: Seq<char>) -> Seq<char> {
    join_segments(segments(s).map_values(|seg: Seq<char>| canonical_segment(seg)))
}

/// A segment that both starts with `{` and ends with `}`.
pub open spec fn is_placeholder(seg: Seq<char>) -> bool {
    seg.len() > 0 && seg[0] == '{' && seg.last() == '}'
}

/// `s` without any leading `c`.
pub open spec fn trim_start(s: Seq<char>, c: char) -> Seq<char>
    decreases s.len(),
{
    if s.len() > 0 && s[0] == c {
        trim_start(s.drop_first(), c)
    } else {
        s
    }
}

/// `s` without any trailing `c`.
pub open spec fn trim_end(s: Seq<char>, c: char) -> Seq<char>
    decreases s.len(),
{
    if s.len() > 0 && s.last() == c {
        trim_end(s.drop_last(), c)
    } else {
        s
    }
}

/// The name inside a placeholder segment: its braces trimmed from both ends.
pub open spec fn placeholder_name(seg: Seq<char>) -> Seq<char> {
    trim_end(trim_start(seg, '{'), '}')
}

/// The names of the placeholder segments among `segs`, left to right.
pub open spec fn placeholder_names(segs: Seq<Seq<char>>) -> Seq<Seq<char>>
    decreases segs.len(),
{
    if segs.len() == 0 {
        Seq::<Seq<char>>::empty()
    } else if is_placeholder(segs.last()) {
        placeholder_names(segs.drop_last()).push(placeholder_name(segs.last()))
    } else {
        placeholder_names(segs.drop_last())
    }
}

/// The views of a sequence of strings.
pub open spec fn string_views(v: Seq<String>) -> Seq<Seq<char>> {
    v.map_values(|s: String| s@)
}

/// Splits `s` at every separator.
pub fn split_segments(s: &str) -> (r: Vec<String>)
    ensures
        string_views(r@) == segments(s@),
{
    let n = s.unicode_len();
    let mut out: Vec<String> = Vec::new();
    let mut start: usize = 0;
    let mut i: usize = 0;
    assert(s@.subrange(0, 0) =~= Seq::<char>::empty());
    assert(string_views(out@).push(s@.subrange(0, 0)) =~= seq![Seq::<char>::empty()]);
    while i < n
        invariant
            n == s@.len(),
            start <= i <= n,
            segments(s@.subrange(0, i as int)) == string_views(out@).push(
                s@.subrange(start as int, i as int),
            ),
        decreases n - i,
    {
        let c = s.get_char(i);
        proof {
            let p = s@.subrange(0, i as int + 1);
            assert(p.drop_last() =~= s@.subrange(0, i as int));
        }
        if c == '/' {
            let seg = String::from_str(s.substring_char(start, i));
            let ghost before = out@;
            out.push(seg);
            assert(s@.subrange(i as int + 1, i as int + 1) =~= Seq::<char>::empty());
            assert(string_views(out@) =~= string_views(before).push(seg@));
            start = i + 1;
        } else {
            assert(s@.subrange(start as int, i as int + 1) =~= s@.subrange(
                start as int,
                i as int,
            ).push(c));
        }
        i = i + 1;
    }
    let last = String::from_str(s.substring_char(start, n));
    let ghost before = out@;
    out.push(last);
    assert(string_views(out@) =~= string_views(before).push(last@));
    assert(s@.subrange(0, n as int) =~= s@);
    assert(string_views(out@) =~= segments(s@));
    out
}

/// The canonical form of one segment.
fn canonical_segment_of(seg: &String) -> (r: String)
    ensures
        r@ == canonical_segment(seg@),
{
    let text = seg.as_str();
    let n = text.unicode_len();
    if n > 0 && text.get_char(0) == ':' {
        let mut out = String::from_str("{");
        out.append(text.substring_char(1, n));
        out.append("}");
        proof {
            reveal_strlit("{");
            reveal_strlit("}");
            assert(seg@.drop_first() =~= seg@.subrange(1, n as int));
        }
        out
    } else {
        seg.clone()
    }
}

/// Rewrites every `:name` segment of `route` to `{name}`, leaving the other
/// segments, braced placeholders included, as they are.
pub fn transform_route(route: &str) -> (r: String)
    ensures
        r@ == canonical_route(route@),
{
    let segs = split_segments(route);
    let ghost mapped = segments(route@).map_values(|seg: Seq<char>| canonical_segment(seg));
    let mut out = String::new();
    let mut k: usize = 0;
    while k < segs.len()
        invariant
            string_views(segs@) == segments(route@),
            mapped == segments(route@).map_values(|seg: Seq<char>| canonical_segment(seg)),
            k <= segs@.len(),
            out@ == join_segments(mapped.take(k as int)),
        decreases segs@.len() - k,
    {
        let piece = canonical_segment_of(&segs[k]);
        proof {
            assert(segs@[k as int]@ == string_views(segs@)[k as int]);
            assert(mapped.take(k as int + 1).drop_last() =~= mapped.take(k as int));
        }
        if k > 0 {
            out.append("/");
            proof {
                reveal_strlit("/");
            }
        } else {
            assert(mapped.take(1) =~= seq![mapped[0]]);
        }
        out.append(piece.as_str());
        k = k + 1;
    }
    proof {
        assert(mapped.take(segs@.len() as int) =~= mapped);
    }
    out
}

/// `seg` with its leading `{` and trailing `}` trimmed.
fn placeholder_name_of(seg: &String) -> (r: String)
    ensures
        r@ == placeholder_name(seg@),
{
    let text = seg.as_str();
    let n = text.unicode_len();
    let mut a: usize = 0;
    assert(seg@.subrange(0, n as int) =~= seg@);
    while a < n && text.get_char(a) == '{'
        invariant
            text@ == seg@,
            n == seg@.len(),
            a <= n,
            trim_start(seg@, '{') == trim_start(seg@.subrange(a as int, n as int), '{'),
        decreases n - a,
    {
        assert(seg@.subrange(a as int, n as int).drop_first() =~= seg@.subrange(
            a as int + 1,
            n as int,
        ));
        a = a + 1;
    }
    let mut b: usize = n;
    while b > a && text.get_char(b - 1) == '}'
        invariant
            text@ == seg@,
            n == seg@.len(),
            a <= b <= n,
            trim_start(seg@, '{') == seg@.subrange(a as int, n as int),
            trim_end(seg@.subrange(a as int, n as int), '}') == trim_end(
                seg@.subrange(a as int, b as int),
                '}',
            ),
        decreases b - a,
    {
        assert(seg@.subrange(a as int, b as int).drop_last() =~= seg@.subrange(
            a as int,
            b as int - 1,
        ));
        b = b - 1;
    }
    String::from_str(text.substring_char(a, b))
}

/// Whether `seg` starts with `{` and ends with `}`.
fn is_placeholder_segment(seg: &String) -> (r: bool)
    ensures
        r == is_placeholder(seg@),
{
    let text = seg.as_str();
    let n = text.unicode_len();
    n > 0 && text.get_char(0) == '{' && text.get_char(n - 1) == '}'
}

/// The placeholder names of `input`, left to right: the segments that start
/// with `{` and end with `}`, braces trimmed.  Names are neither checked nor
/// deduplicated.
pub fn extract_params(input: &str) -> (r: Vec<String>)
    ensures
        string_views(r@) == placeholder_names(segments(input@)),
{
    let segs = split_segments(input);
    let ghost all = segments(input@);
    let mut out: Vec<String> = Vec::new();
    let mut k: usize = 0;
    while k < segs.len()
        invariant
            string_views(segs@) == all,
            k <= segs@.len(),
            string_views(out@) == placeholder_names(all.take(k as int)),
        decreases segs@.len() - k,
    {
        proof {
            assert(segs@[k as int]@ == all[k as int]);
            assert(all.take(k as int + 1).drop_last() =~= all.take(k as int));
        }
        if is_placeholder_segment(&segs[k]) {
            let name = placeholder_name_of(&segs[k]);
            let ghost before = out@;
            out.push(name);
            assert(string_views(out@) =~= string_views(before).push(name@));
        }
        k = k + 1;
    }
    proof {
        assert(all.take(segs@.len() as int) =~= all);
    }
    out
}

/// Whether `s` holds no separator.
pub open spec fn has_no_sep(s: Seq<char>) -> bool {
    forall|i: int| 0 <= i < s.len() ==> !is_sep(#[trigger] s[i])
}

proof fn lemma_segments_shape(s: Seq<char>)
    ensures
        segments(s).len() >= 1,
        forall|k: int| 0 <= k < segments(s).len() ==> has_no_sep(#[trigger] segments(s)[k]),
    decreases s.len(),
{
    if s.len() > 0 {
        lemma_segments_shape(s.drop_last());
    }
}

proof fn lemma_segments_append_plain(p: Seq<char>, y: Seq<char>)
    requires
        has_no_sep(y),
    ensures
        segments(p + y) == segments(p).update(
            segments(p).len() - 1,
            segments(p).last() + y,
        ),
    decreases y.len(),
{
    lemma_segments_shape(p);
    if y.len() == 0 {
        assert(p + y =~= p);
        assert(segments(p).last() + y =~= segments(p).last());
        assert(segments(p).update(segments(p).len() - 1, segments(p).last()) =~= segments(p));
    } else {
        let z = y.drop_last();
        assert(has_no_sep(z)) by {
            assert forall|i: int| 0 <= i < z.len() implies !is_sep(#[trigger] z[i]) by {
                assert(z[i] == y[i]);
            }
        }
        lemma_segments_append_plain(p, z);
        assert((p + y).drop_last() =~= p + z);
        assert((p + y).last() == y.last());
        assert(!is_sep(y[y.len() - 1]));
        assert((segments(p).last() + z).push(y.last()) =~= segments(p).last() + y);
        assert(segments(p + y) =~= segments(p).update(
            segments(p).len() - 1,
            segments(p).last() + y,
        ));
    }
}

proof fn lemma_segments_of_join(segs: Seq<Seq<char>>)
    requires
        segs.len() >= 1,
        forall|k: int| 0 <= k < segs.len() ==> has_no_sep(#[trigger] segs[k]),
    ensures
        segments(join_segments(segs)) == segs,
    decreases segs.len(),
{
    if segs.len() == 1 {
        lemma_segments_append_plain(Seq::<char>::empty(), segs[0]);
        assert(Seq::<char>::empty() + segs[0] =~= segs[0]);
        assert(segments(Seq::<char>::empty()) == seq![Seq::<char>::empty()]);
        assert(segments(segs[0]) =~= segs);
    } else {
        let init = segs.drop_last();
        lemma_segments_of_join(init);
        let j = join_segments(init);
        let js = j + seq!['/'];
        assert(js.drop_last() =~= j);
        assert(segments(js) == init.push(Seq::<char>::empty()));
        lemma_segments_append_plain(js, segs.last());
        assert(join_segments(segs) =~= js + segs.last());
        assert(Seq::<char>::empty() + segs.last() =~= segs.last());
        assert(segments(join_segments(segs)) =~= segs);
    }
}

/// Rewriting a route template twice gives what rewriting it once gives.
pub proof fn lemma_transform_route_idempotent(route: Seq<char>)
    ensures
        canonical_route(canonical_route(route)) == canonical_route(route),
{
    let m = segments(route).map_values(|seg: Seq<char>| canonical_segment(seg));
    lemma_segments_shape(route);
    assert forall|k: int| 0 <= k < m.len() implies has_no_sep(#[trigger] m[k]) by {
        let seg = segments(route)[k];
        assert(has_no_sep(seg));
        if seg.len() > 0 && seg[0] == ':' {
            let t = seq!['{'] + seg.drop_first() + seq!['}'];
            assert forall|i: int| 0 <= i < t.len() implies !is_sep(#[trigger] t[i]) by {
                if 0 < i < t.len() - 1 {
                    assert(t[i] == seg[i]);
                }
            }
        }
    }
    lemma_segments_of_join(m);
    assert(m.map_values(|seg: Seq<char>| canonical_segment(seg)) =~= m);
}

} // verus!
