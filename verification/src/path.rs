use vstd::prelude::*;
use vstd::string::{StrSliceExecFns, StringExecFns};

use crate::strutil::str_eq;

verus! {

/// The segments of `s` split on `/`: a path with `n` separators yields
/// `n + 1` segments, empty segments included.
pub open spec fn split_path(s: Seq<char>) -> Seq<Seq<char>>
    decreases s.len(),
{
    if s.len() == 0 {
        seq![Seq::<char>::empty()]
    } else if s[0] == '/' {
        seq![Seq::<char>::empty()] + split_path(s.subrange(1, s.len() as int))
    } else {
        let rest = split_path(s.subrange(1, s.len() as int));
        seq![seq![s[0]] + rest[0]] + rest.subrange(1, rest.len() as int)
    }
}

pub proof fn lemma_split_path_len(s: Seq<char>)
    ensures
        split_path(s).len() >= 1,
    decreases s.len(),
{
    if s.len() == 0 {
    } else if s[0] == '/' {
        lemma_split_path_len(s.subrange(1, s.len() as int));
    } else {
        lemma_split_path_len(s.subrange(1, s.len() as int));
    }
}

/// Splitting a string whose first separator stands at `k` (or that holds
/// none) peels off exactly its first segment.
pub proof fn lemma_split_path_first(s: Seq<char>, k: int)
    requires
        0 <= k <= s.len(),
        forall|j: int| 0 <= j < k ==> s[j] != '/',
        k == s.len() || s[k] == '/',
    ensures
        k == s.len() ==> split_path(s) == seq![s],
        k < s.len() ==> split_path(s) == seq![s.subrange(0, k)] + split_path(
            s.subrange(k + 1, s.len() as int),
        ),
    decreases s.len(),
{
    if s.len() == 0 {
        assert(s =~= Seq::<char>::empty());
        assert(split_path(s) =~= seq![s]);
    } else if s[0] == '/' {
        assert(k == 0);
        assert(s.subrange(0, 0) =~= Seq::<char>::empty());
        assert(split_path(s) =~= seq![s.subrange(0, k)] + split_path(
            s.subrange(k + 1, s.len() as int),
        ));
    } else {
        assert(k >= 1);
        let tail = s.subrange(1, s.len() as int);
        lemma_split_path_first(tail, k - 1);
        lemma_split_path_len(tail);
        let rest = split_path(tail);
        if k == s.len() {
            assert(rest == seq![tail]);
            assert(seq![s[0]] + rest[0] =~= s);
            assert(rest.subrange(1, rest.len() as int) =~= Seq::<Seq<char>>::empty());
            assert(split_path(s) =~= seq![s]);
        } else {
            let first_tail = tail.subrange(0, k - 1);
            let after = tail.subrange(k, tail.len() as int);
            assert(rest == seq![first_tail] + split_path(after));
            lemma_split_path_len(after);
            assert(rest[0] == first_tail);
            assert(seq![s[0]] + first_tail =~= s.subrange(0, k));
            assert(rest.subrange(1, rest.len() as int) =~= split_path(after));
            assert(after =~= s.subrange(k + 1, s.len() as int));
            assert(split_path(s) =~= seq![s.subrange(0, k)] + split_path(
                s.subrange(k + 1, s.len() as int),
            ));
        }
    }
}

/// Split a path into its `/`-separated segments.
pub fn split_segments(s: &str) -> (r: Vec<String>)
    ensures
        r.deep_view() == split_path(s@),
{
    let n = s.unicode_len();
    let mut segs: Vec<String> = Vec::new();
    let mut start: usize = 0;
    let mut i: usize = 0;
    proof {
        assert(s@.subrange(0, n as int) =~= s@);
    }
    while i < n
        invariant
            n == s@.len(),
            0 <= start <= i <= n,
            forall|j: int| start <= j < i ==> s@[j] != '/',
            split_path(s@) == segs.deep_view() + split_path(s@.subrange(start as int, n as int)),
        decreases n - i,
    {
        if s.get_char(i) == '/' {
            let seg = s.substring_char(start, i);
            let ghost pending = s@.subrange(start as int, n as int);
            proof {
                assert(forall|j: int| 0 <= j < i - start ==> pending[j] != '/');
                lemma_split_path_first(pending, i - start);
                assert(pending.subrange(0, i - start) =~= s@.subrange(start as int, i as int));
                assert(pending.subrange(i - start + 1, pending.len() as int) =~= s@.subrange(
                    i + 1,
                    n as int,
                ));
            }
            segs.push(seg.to_owned());
            proof {
                assert(segs.deep_view() =~= segs.deep_view().subrange(
                    0,
                    segs.len() - 1,
                ).push(seg@));
                assert(split_path(s@) == segs.deep_view() + split_path(
                    s@.subrange(i + 1, n as int),
                ));
            }
            start = i + 1;
        }
        i += 1;
    }
    let seg = s.substring_char(start, n);
    let ghost pending = s@.subrange(start as int, n as int);
    proof {
        lemma_split_path_first(pending, n - start);
        assert(pending =~= seg@);
    }
    segs.push(seg.to_owned());
    proof {
        assert(segs.deep_view() =~= segs.deep_view().subrange(0, segs.len() - 1).push(seg@));
    }
    segs
}

/// Lexical normalization over segments, left to right: empty and `.`
/// segments vanish, `..` removes the segment before it (and at the root it
/// vanishes), anything else is kept.
pub open spec fn normalize_segments(segs: Seq<Seq<char>>) -> Seq<Seq<char>>
    decreases segs.len(),
{
    if segs.len() == 0 {
        Seq::<Seq<char>>::empty()
    } else {
        let prefix = normalize_segments(segs.drop_last());
        let last = segs.last();
        if last.len() == 0 || last == "."@ {
            prefix
        } else if last == ".."@ {
            if prefix.len() > 0 {
                prefix.drop_last()
            } else {
                prefix
            }
        } else {
            prefix.push(last)
        }
    }
}

/// Normalize a segment list.
pub fn normalize(segs: &Vec<String>) -> (r: Vec<String>)
    ensures
        r.deep_view() == normalize_segments(segs.deep_view()),
{
    let mut out: Vec<String> = Vec::new();
    let mut i: usize = 0;
    proof {
        assert(segs.deep_view().subrange(0, 0) =~= Seq::<Seq<char>>::empty());
    }
    while i < segs.len()
        invariant
            0 <= i <= segs.len(),
            segs.deep_view().len() == segs.len(),
            out.deep_view() == normalize_segments(segs.deep_view().subrange(0, i as int)),
        decreases segs.len() - i,
    {
        let ghost prefix = segs.deep_view().subrange(0, i as int);
        let ghost prefix1 = segs.deep_view().subrange(0, i + 1);
        proof {
            assert(prefix1.drop_last() =~= prefix);
            assert(prefix1.last() == segs.deep_view()[i as int]);
        }
        let seg = &segs[i];
        if seg.unicode_len() == 0 {
        } else if str_eq(seg.as_str(), ".") {
        } else if str_eq(seg.as_str(), "..") {
            if out.len() > 0 {
                out.pop();
                proof {
                    assert(out.deep_view() =~= normalize_segments(prefix).drop_last());
                }
            }
        } else {
            out.push(seg.clone());
            proof {
                assert(out.deep_view() =~= normalize_segments(prefix).push(seg@));
            }
        }
        i += 1;
    }
    proof {
        assert(segs.deep_view().subrange(0, segs.len() as int) =~= segs.deep_view());
    }
    out
}

/// Render a normalized segment list as an absolute path: `/` for the empty
/// list, otherwise `/` before each segment.
pub open spec fn render_segments(segs: Seq<Seq<char>>) -> Seq<char>
    decreases segs.len(),
{
    if segs.len() == 0 {
        "/"@
    } else if segs.len() == 1 {
        "/"@ + segs[0]
    } else {
        render_segments(segs.drop_last()) + "/"@ + segs.last()
    }
}

/// Render a segment list as an absolute path string.
pub fn render(segs: &Vec<String>) -> (r: String)
    ensures
        r@ == render_segments(segs.deep_view()),
{
    let mut out = String::new();
    if segs.len() == 0 {
        out.append("/");
        proof {
            assert(out@ =~= "/"@);
        }
        return out;
    }
    let mut i: usize = 0;
    while i < segs.len()
        invariant
            0 <= i <= segs.len(),
            segs.len() >= 1,
            segs.deep_view().len() == segs.len(),
            out@ == render_segments(segs.deep_view().subrange(0, i as int)) || (i == 0 && out@
                == Seq::<char>::empty()),
            i == 0 ==> out@ == Seq::<char>::empty(),
        decreases segs.len() - i,
    {
        let ghost prefix = segs.deep_view().subrange(0, i as int);
        let ghost prefix1 = segs.deep_view().subrange(0, i + 1);
        proof {
            assert(prefix1.drop_last() =~= prefix);
            assert(prefix1.last() == segs.deep_view()[i as int]);
        }
        out.append("/");
        out.append(segs[i].as_str());
        proof {
            if i == 0 {
                assert(out@ =~= "/"@ + segs.deep_view()[0]);
                assert(prefix1.len() == 1);
                assert(prefix1[0] == segs.deep_view()[0]);
            } else {
                assert(out@ =~= render_segments(prefix) + "/"@ + prefix1.last());
            }
        }
        i += 1;
    }
    proof {
        assert(segs.deep_view().subrange(0, segs.len() as int) =~= segs.deep_view());
    }
    out
}

/// Lexical normalization of a whole path string.
pub open spec fn spec_normalize_path(p: Seq<char>) -> Seq<char> {
    render_segments(normalize_segments(split_path(p)))
}

/// Joining a base path and a suffix is pure path arithmetic: split both,
/// normalize the combined segments, render the result absolute.
pub open spec fn spec_join(base: Seq<char>, rel: Seq<char>) -> Seq<char> {
    render_segments(normalize_segments(split_path(base) + split_path(rel)))
}

/// Normalize a path string: no residual `.`, `..` or empty segments.
pub fn normalize_path(p: &str) -> (r: String)
    ensures
        r@ == spec_normalize_path(p@),
{
    let segs = split_segments(p);
    let norm = normalize(&segs);
    render(&norm)
}

/// A segment that can appear in a normalized path: non-empty, not `.` or
/// `..`, and free of separators.
pub open spec fn is_plain_segment(s: Seq<char>) -> bool {
    &&& s.len() > 0
    &&& s != "."@
    &&& s != ".."@
    &&& forall|i: int| 0 <= i < s.len() ==> s[i] != '/'
}

/// Splitting never yields a segment with a separator inside.
proof fn lemma_split_path_separator_free(s: Seq<char>)
    ensures
        forall|k: int, i: int|
            0 <= k < split_path(s).len() && 0 <= i < split_path(s)[k].len()
                ==> #[trigger] split_path(s)[k][i] != '/',
    decreases s.len(),
{
    if s.len() == 0 {
    } else if s[0] == '/' {
        let rest = split_path(s.subrange(1, s.len() as int));
        lemma_split_path_separator_free(s.subrange(1, s.len() as int));
        assert forall|k: int, i: int|
            0 <= k < split_path(s).len() && 0 <= i < split_path(s)[k].len() implies #[trigger] split_path(
            s,
        )[k][i] != '/' by {
            if k > 0 {
                assert(split_path(s)[k] == rest[k - 1]);
                assert(rest[k - 1][i] != '/');
            }
        }
    } else {
        let tail = s.subrange(1, s.len() as int);
        let rest = split_path(tail);
        lemma_split_path_separator_free(tail);
        lemma_split_path_len(tail);
        assert forall|k: int, i: int|
            0 <= k < split_path(s).len() && 0 <= i < split_path(s)[k].len() implies #[trigger] split_path(
            s,
        )[k][i] != '/' by {
            if k == 0 {
                assert(split_path(s)[0] == seq![s[0]] + rest[0]);
                if i == 0 {
                    assert(split_path(s)[0][0] == s[0]);
                } else {
                    assert(split_path(s)[0][i] == rest[0][i - 1]);
                    assert(rest[0][i - 1] != '/');
                }
            } else {
                assert(split_path(s)[k] == rest.subrange(1, rest.len() as int)[k - 1]);
                assert(rest.subrange(1, rest.len() as int)[k - 1] == rest[k]);
                assert(rest[k][i] != '/');
            }
        }
    }
}

/// Normalizing separator-free segments leaves only plain segments.
proof fn lemma_normalize_segments_plain(segs: Seq<Seq<char>>)
    requires
        forall|k: int, i: int|
            0 <= k < segs.len() && 0 <= i < segs[k].len() ==> #[trigger] segs[k][i] != '/',
    ensures
        forall|k: int|
            0 <= k < normalize_segments(segs).len() ==> is_plain_segment(
                #[trigger] normalize_segments(segs)[k],
            ),
    decreases segs.len(),
{
    if segs.len() > 0 {
        assert forall|k: int, i: int|
            0 <= k < segs.drop_last().len() && 0 <= i < segs.drop_last()[k].len()
                implies #[trigger] segs.drop_last()[k][i] != '/' by {
            assert(segs.drop_last()[k] == segs[k]);
            assert(segs[k][i] != '/');
        }
        lemma_normalize_segments_plain(segs.drop_last());
        let prefix = normalize_segments(segs.drop_last());
        let last = segs.last();
        assert forall|i: int| 0 <= i < last.len() implies last[i] != '/' by {
            assert(segs[segs.len() - 1][i] != '/');
        }
        assert forall|k: int|
            0 <= k < normalize_segments(segs).len() implies is_plain_segment(
            #[trigger] normalize_segments(segs)[k],
        ) by {
            if last.len() == 0 || last == "."@ {
                assert(normalize_segments(segs)[k] == prefix[k]);
            } else if last == ".."@ {
                assert(normalize_segments(segs)[k] == prefix.drop_last()[k]);
                assert(prefix.drop_last()[k] == prefix[k]);
            } else {
                if k < prefix.len() {
                    assert(normalize_segments(segs)[k] == prefix[k]);
                } else {
                    assert(normalize_segments(segs)[k] == last);
                    assert(is_plain_segment(last));
                }
            }
        }
    }
}

/// Plain segments are a fixed point of normalization.
proof fn lemma_normalize_segments_fixed(segs: Seq<Seq<char>>)
    requires
        forall|k: int| 0 <= k < segs.len() ==> is_plain_segment(#[trigger] segs[k]),
    ensures
        normalize_segments(segs) == segs,
    decreases segs.len(),
{
    if segs.len() > 0 {
        lemma_normalize_segments_fixed(segs.drop_last());
        assert(normalize_segments(segs) =~= segs);
    }
}

/// A leading empty segment vanishes under normalization.
proof fn lemma_normalize_leading_empty(segs: Seq<Seq<char>>)
    ensures
        normalize_segments(seq![Seq::<char>::empty()] + segs) == normalize_segments(segs),
    decreases segs.len(),
{
    let extended = seq![Seq::<char>::empty()] + segs;
    if segs.len() == 0 {
        assert(extended.drop_last() =~= segs);
        assert(extended.last().len() == 0);
        assert(normalize_segments(extended) =~= normalize_segments(segs));
    } else {
        lemma_normalize_leading_empty(segs.drop_last());
        assert(extended.drop_last() =~= seq![Seq::<char>::empty()] + segs.drop_last());
        assert(extended.last() == segs.last());
        assert(normalize_segments(extended) =~= normalize_segments(segs));
    }
}

/// Appending a separator and a separator-free segment appends exactly one
/// segment to the split.
proof fn lemma_split_path_append(s: Seq<char>, seg: Seq<char>)
    requires
        forall|i: int| 0 <= i < seg.len() ==> seg[i] != '/',
    ensures
        split_path(s + seq!['/'] + seg) == split_path(s) + seq![seg],
    decreases s.len(),
{
    let whole = s + seq!['/'] + seg;
    if s.len() == 0 {
        assert(whole[0] == '/');
        assert(whole.subrange(1, whole.len() as int) =~= seg);
        lemma_split_path_first(seg, seg.len() as int);
        assert(split_path(whole) =~= split_path(s) + seq![seg]);
    } else {
        let tail = whole.subrange(1, whole.len() as int);
        assert(tail =~= s.subrange(1, s.len() as int) + seq!['/'] + seg);
        lemma_split_path_append(s.subrange(1, s.len() as int), seg);
        lemma_split_path_len(s.subrange(1, s.len() as int));
        if s[0] == '/' {
            assert(whole[0] == '/');
            assert(split_path(whole) =~= split_path(s) + seq![seg]);
        } else {
            assert(whole[0] == s[0]);
            let rest_s = split_path(s.subrange(1, s.len() as int));
            let rest_w = split_path(tail);
            assert(rest_w == rest_s + seq![seg]);
            assert(rest_w[0] == rest_s[0]);
            assert(rest_w.subrange(1, rest_w.len() as int) =~= rest_s.subrange(
                1,
                rest_s.len() as int,
            ) + seq![seg]);
            assert(split_path(whole) =~= split_path(s) + seq![seg]);
        }
    }
}

/// Splitting a rendered non-empty segment list yields one leading empty
/// segment and then the segments themselves.
proof fn lemma_split_render(segs: Seq<Seq<char>>)
    requires
        segs.len() >= 1,
        forall|k: int| 0 <= k < segs.len() ==> is_plain_segment(#[trigger] segs[k]),
    ensures
        split_path(render_segments(segs)) == seq![Seq::<char>::empty()] + segs,
    decreases segs.len(),
{
    reveal_strlit("/");
    assert("/"@ =~= seq!['/']);
    if segs.len() == 1 {
        let rendered = render_segments(segs);
        assert(rendered == "/"@ + segs[0]);
        assert(rendered =~= Seq::<char>::empty() + seq!['/'] + segs[0]);
        lemma_split_path_append(Seq::<char>::empty(), segs[0]);
        assert(split_path(Seq::<char>::empty()) =~= seq![Seq::<char>::empty()]);
        assert(split_path(rendered) =~= seq![Seq::<char>::empty()] + segs);
    } else {
        lemma_split_render(segs.drop_last());
        let prefix = render_segments(segs.drop_last());
        assert(render_segments(segs) =~= prefix + seq!['/'] + segs.last());
        lemma_split_path_append(prefix, segs.last());
        assert(split_path(render_segments(segs)) =~= seq![Seq::<char>::empty()] + segs);
    }
}

/// Rendering plain segments and normalizing the result again changes
/// nothing.
proof fn lemma_render_of_plain_is_normalized(segs: Seq<Seq<char>>)
    requires
        forall|k: int| 0 <= k < segs.len() ==> is_plain_segment(#[trigger] segs[k]),
    ensures
        spec_normalize_path(render_segments(segs)) == render_segments(segs),
{
    if segs.len() == 0 {
        reveal_strlit("/");
        let rendered = render_segments(segs);
        let empty_str = Seq::<char>::empty();
        assert(rendered =~= seq!['/']);
        assert(rendered[0] == '/');
        assert(rendered.subrange(1, 1) =~= empty_str);
        reveal_with_fuel(split_path, 2);
        assert(split_path(rendered) =~= seq![empty_str, empty_str]);
        reveal_with_fuel(normalize_segments, 3);
        assert(seq![empty_str, empty_str].drop_last() =~= seq![empty_str]);
        assert(seq![empty_str].drop_last() =~= Seq::<Seq<char>>::empty());
        assert(normalize_segments(seq![empty_str, empty_str]) =~= Seq::<Seq<char>>::empty());
        assert(normalize_segments(split_path(rendered)) =~= segs);
    } else {
        lemma_split_render(segs);
        lemma_normalize_leading_empty(segs);
        lemma_normalize_segments_fixed(segs);
    }
}

/// The separator-free segments behind a join.
proof fn lemma_join_segments_plain(base: Seq<char>, rel: Seq<char>)
    ensures
        forall|k: int|
            0 <= k < normalize_segments(split_path(base) + split_path(rel)).len()
                ==> is_plain_segment(
                #[trigger] normalize_segments(split_path(base) + split_path(rel))[k],
            ),
{
    let combined = split_path(base) + split_path(rel);
    lemma_split_path_separator_free(base);
    lemma_split_path_separator_free(rel);
    assert forall|k: int, i: int|
        0 <= k < combined.len() && 0 <= i < combined[k].len() implies #[trigger] combined[k][i]
        != '/' by {
        if k < split_path(base).len() {
            assert(combined[k] == split_path(base)[k]);
            assert(split_path(base)[k][i] != '/');
        } else {
            assert(combined[k] == split_path(rel)[k - split_path(base).len()]);
            assert(split_path(rel)[k - split_path(base).len()][i] != '/');
        }
    }
    lemma_normalize_segments_plain(combined);
}

/// The candidate-path invariant, first half: what the joiner produces is
/// already normalized — normalizing it again changes nothing.
pub proof fn lemma_join_is_normalized(base: Seq<char>, rel: Seq<char>)
    ensures
        spec_normalize_path(spec_join(base, rel)) == spec_join(base, rel),
{
    lemma_join_segments_plain(base, rel);
    lemma_render_of_plain_is_normalized(normalize_segments(split_path(base) + split_path(rel)));
}

/// Normalization is idempotent, so an absolute specifier's candidate is
/// normalized as well.
pub proof fn lemma_normalize_path_idempotent(p: Seq<char>)
    ensures
        spec_normalize_path(spec_normalize_path(p)) == spec_normalize_path(p),
{
    lemma_split_path_separator_free(p);
    lemma_normalize_segments_plain(split_path(p));
    lemma_render_of_plain_is_normalized(normalize_segments(split_path(p)));
}

/// The candidate-path invariant, second half: what the joiner produces is
/// absolute — it always begins with the separator.
pub proof fn lemma_join_is_absolute(base: Seq<char>, rel: Seq<char>)
    ensures
        spec_join(base, rel).len() >= 1,
        spec_join(base, rel)[0] == '/',
{
    lemma_render_starts_with_separator(normalize_segments(split_path(base) + split_path(rel)));
}

/// A normalized path is absolute too.
pub proof fn lemma_normalize_path_absolute(p: Seq<char>)
    ensures
        spec_normalize_path(p).len() >= 1,
        spec_normalize_path(p)[0] == '/',
{
    lemma_render_starts_with_separator(normalize_segments(split_path(p)));
}

proof fn lemma_render_starts_with_separator(segs: Seq<Seq<char>>)
    ensures
        render_segments(segs).len() >= 1,
        render_segments(segs)[0] == '/',
    decreases segs.len(),
{
    reveal_strlit("/");
    if segs.len() <= 1 {
    } else {
        lemma_render_starts_with_separator(segs.drop_last());
    }
}

/// Join a base directory and a relative suffix into a normalized absolute
/// candidate path, by lexical resolution alone.
pub fn join_path(base: &str, rel: &str) -> (r: String)
    ensures
        r@ == spec_join(base@, rel@),
{
    let mut segs = split_segments(base);
    let mut rel_segs = split_segments(rel);
    segs.append(&mut rel_segs);
    proof {
        assert(segs.deep_view() =~= split_path(base@) + split_path(rel@));
    }
    let norm = normalize(&segs);
    render(&norm)
}

} // verus!
