use vstd::prelude::*;
use vstd::string::*;

verus! {

/// The single-character segment `.`, a no-op in a path.
pub open spec fn dot() -> Seq<char> {
    seq!['.']
}

/// The segment `..`, which removes the previous real segment.
pub open spec fn dotdot() -> Seq<char> {
    seq!['.', '.']
}

/// The segments of `s` between `/` separators. An empty input has one empty
/// segment, and a separator at either end contributes an empty segment, so
/// the result always holds at least one segment.
pub open spec fn split_path(s: Seq<char>) -> Seq<Seq<char>>
    decreases s.len(),
{
    if s.len() == 0 {
        seq![Seq::<char>::empty()]
    } else if s[0] == '/' {
        seq![Seq::<char>::empty()] + split_path(s.drop_first())
    } else {
        let rest = split_path(s.drop_first());
        seq![seq![s[0]] + rest[0]] + rest.drop_first()
    }
}

/// Applies path components to a stack of segments, left to right: empty and
/// `.` segments are dropped, `..` removes the last stacked segment if there
/// is one (popping past the root is a no-op), and any other segment is
/// stacked.
pub open spec fn apply_components(base: Seq<Seq<char>>, comps: Seq<Seq<char>>) -> Seq<Seq<char>>
    decreases comps.len(),
{
    if comps.len() == 0 {
        base
    } else {
        let prev = apply_components(base, comps.drop_last());
        let c = comps.last();
        if c.len() == 0 || c == dot() {
            prev
        } else if c == dotdot() {
            if prev.len() > 0 {
                prev.drop_last()
            } else {
                prev
            }
        } else {
            prev.push(c)
        }
    }
}

/// The segments left after dropping empty and `.` segments and collapsing
/// `..` against the preceding real segment, never underflowing below the
/// root.
pub open spec fn collapse(segs: Seq<Seq<char>>) -> Seq<Seq<char>> {
    apply_components(Seq::empty(), segs)
}

/// The segments kept, in order, with the empty ones dropped.
pub open spec fn drop_empty(segs: Seq<Seq<char>>) -> Seq<Seq<char>>
    decreases segs.len(),
{
    if segs.len() == 0 {
        Seq::empty()
    } else {
        let prev = drop_empty(segs.drop_last());
        if segs.last().len() == 0 {
            prev
        } else {
            prev.push(segs.last())
        }
    }
}

/// The segments rejoined with `/` between them.
pub open spec fn join_segments(segs: Seq<Seq<char>>) -> Seq<char>
    decreases segs.len(),
{
    if segs.len() == 0 {
        Seq::empty()
    } else if segs.len() == 1 {
        segs[0]
    } else {
        join_segments(segs.drop_last()) + seq!['/'] + segs.last()
    }
}

/// What `normalize_path_simple` returns: the input split on `/`, empty and
/// `.` segments dropped, `..` collapsed against the preceding real segment
/// (never underflowing below the root), rejoined with `/`, with a leading `/`
/// preserved.
pub open spec fn normalize_spec(s: Seq<char>) -> Seq<char> {
    let joined = join_segments(collapse(split_path(s)));
    if s.len() > 0 && s[0] == '/' {
        seq!['/'] + joined
    } else {
        joined
    }
}

/// The characters before the first `#`, if any.
pub open spec fn strip_fragment(s: Seq<char>) -> Seq<char>
    decreases s.len(),
{
    if s.len() == 0 {
        Seq::empty()
    } else if s[0] == '#' {
        Seq::empty()
    } else {
        seq![s[0]] + strip_fragment(s.drop_first())
    }
}

/// The input without its leading `/` characters.
pub open spec fn trim_slashes(s: Seq<char>) -> Seq<char>
    decreases s.len(),
{
    if s.len() > 0 && s[0] == '/' {
        trim_slashes(s.drop_first())
    } else {
        s
    }
}

/// What `resolve_relative_path` returns: the fragment is stripped from the
/// reference; a reference starting with `/` is archive-root-absolute and is
/// returned without its leading slashes; otherwise the reference's components
/// are applied to the base directory's segments.
pub open spec fn resolve_spec(base: Seq<char>, rel: Seq<char>) -> Seq<char> {
    let r = strip_fragment(rel);
    if r.len() > 0 && r[0] == '/' {
        trim_slashes(r)
    } else {
        join_segments(apply_components(drop_empty(split_path(base)), split_path(r)))
    }
}

/// What `build_full_path` returns: an empty root directory leaves the
/// reference to be normalized on its own; otherwise root and reference are
/// joined with `/` and normalized.
pub open spec fn join_root_spec(root: Seq<char>, href: Seq<char>) -> Seq<char> {
    if root.len() == 0 {
        normalize_spec(href)
    } else {
        normalize_spec(root + seq!['/'] + href)
    }
}

/// Splitting never yields an empty list of segments.
pub proof fn lemma_split_len(s: Seq<char>)
    ensures
        split_path(s).len() >= 1,
    decreases s.len(),
{
    if s.len() > 0 {
        lemma_split_len(s.drop_first());
    }
}

/// How one appended character extends a split: a separator opens a new empty
/// segment, any other character extends the last segment.
pub proof fn lemma_split_push(s: Seq<char>, c: char)
    ensures
        c == '/' ==> split_path(s.push(c)) =~= split_path(s).push(Seq::<char>::empty()),
        c != '/' ==> split_path(s.push(c)) =~= split_path(s).drop_last().push(
            split_path(s).last().push(c),
        ),
    decreases s.len(),
{
    lemma_split_len(s);
    if s.len() == 0 {
        assert(s.push(c).drop_first() =~= s);
        if c != '/' {
            assert(seq![c] + split_path(s.push(c).drop_first())[0] =~= Seq::<char>::empty().push(
                c,
            ));
            assert(split_path(s.push(c)) =~= split_path(s).drop_last().push(
                split_path(s).last().push(c),
            ));
        }
    } else {
        let sd = s.drop_first();
        lemma_split_len(sd);
        lemma_split_push(sd, c);
        assert(s.push(c)[0] == s[0]);
        assert(s.push(c).drop_first() =~= sd.push(c));
        let r = split_path(sd);
        let rp = split_path(sd.push(c));
        if s[0] == '/' {
            if c == '/' {
                assert(seq![Seq::<char>::empty()] + r.push(Seq::<char>::empty()) =~= (
                seq![Seq::<char>::empty()] + r).push(Seq::<char>::empty()));
            } else {
                assert(seq![Seq::<char>::empty()] + rp =~= (seq![Seq::<char>::empty()]
                    + r).drop_last().push((seq![Seq::<char>::empty()] + r).last().push(c)));
            }
        } else {
            if c == '/' {
                assert(rp =~= r.push(Seq::<char>::empty()));
                assert(rp[0] =~= r[0]);
                assert(seq![seq![s[0]] + rp[0]] + rp.drop_first() =~= (seq![seq![s[0]] + r[0]]
                    + r.drop_first()).push(Seq::<char>::empty()));
            } else {
                assert(rp =~= r.drop_last().push(r.last().push(c)));
                if r.len() == 1 {
                    assert(rp[0] =~= r[0].push(c));
                    assert(seq![s[0]] + r[0].push(c) =~= (seq![s[0]] + r[0]).push(c));
                    assert(seq![seq![s[0]] + rp[0]] + rp.drop_first() =~= (seq![seq![s[0]] + r[0]]
                        + r.drop_first()).drop_last().push((seq![seq![s[0]] + r[0]]
                        + r.drop_first()).last().push(c)));
                } else {
                    assert(rp[0] =~= r[0]);
                    assert(rp.drop_first() =~= r.drop_first().drop_last().push(r.last().push(c)));
                    assert(seq![seq![s[0]] + rp[0]] + rp.drop_first() =~= (seq![seq![s[0]] + r[0]]
                        + r.drop_first()).drop_last().push((seq![seq![s[0]] + r[0]]
                        + r.drop_first()).last().push(c)));
                }
            }
        }
    }
}

/// No character of the segment is a separator.
pub open spec fn no_slash(x: Seq<char>) -> bool {
    forall|j: int| 0 <= j < x.len() ==> x[j] != '/'
}

/// A segment that survives collapsing: non-empty, not `.` or `..`, and free
/// of separators.
pub open spec fn seg_clean(x: Seq<char>) -> bool {
    x.len() > 0 && x != dot() && x != dotdot() && no_slash(x)
}

/// Every segment of the list is free of separators.
pub open spec fn all_no_slash(s: Seq<Seq<char>>) -> bool {
    forall|k: int| 0 <= k < s.len() ==> no_slash(#[trigger] s[k])
}

/// Every segment of the list is clean.
pub open spec fn all_clean(s: Seq<Seq<char>>) -> bool {
    forall|k: int| 0 <= k < s.len() ==> seg_clean(#[trigger] s[k])
}

/// Splitting yields segments free of separators.
proof fn lemma_split_all_no_slash(s: Seq<char>)
    ensures
        all_no_slash(split_path(s)),
    decreases s.len(),
{
    if s.len() == 0 {
    } else {
        lemma_split_all_no_slash(s.drop_first());
        lemma_split_len(s.drop_first());
        let r = split_path(s.drop_first());
        if s[0] == '/' {
            assert forall|k: int| 0 <= k < split_path(s).len() implies no_slash(
                #[trigger] split_path(s)[k],
            ) by {
                if k > 0 {
                    assert(split_path(s)[k] == r[k - 1]);
                }
            }
        } else {
            assert forall|k: int| 0 <= k < split_path(s).len() implies no_slash(
                #[trigger] split_path(s)[k],
            ) by {
                if k == 0 {
                    assert(split_path(s)[0] == seq![s[0]] + r[0]);
                    assert forall|j: int| 0 <= j < (seq![s[0]] + r[0]).len() implies (seq![s[0]]
                        + r[0])[j] != '/' by {
                        if j > 0 {
                            assert((seq![s[0]] + r[0])[j] == r[0][j - 1]);
                        }
                    }
                } else {
                    assert(split_path(s)[k] == r.drop_first()[k - 1]);
                    assert(r.drop_first()[k - 1] == r[k]);
                }
            }
        }
    }
}

/// A segment without separators splits to itself alone.
proof fn lemma_split_single(s: Seq<char>)
    requires
        no_slash(s),
    ensures
        split_path(s) =~= seq![s],
    decreases s.len(),
{
    if s.len() == 0 {
        assert(s =~= Seq::<char>::empty());
    } else {
        lemma_split_single(s.drop_first());
        assert(seq![s[0]] + s.drop_first() =~= s);
    }
}

/// Splitting distributes over concatenation at a separator.
proof fn lemma_split_sep_concat(a: Seq<char>, b: Seq<char>)
    ensures
        split_path(a + seq!['/'] + b) =~= split_path(a) + split_path(b),
    decreases a.len(),
{
    let s = a + seq!['/'] + b;
    if a.len() == 0 {
        assert(s[0] == '/');
        assert(s.drop_first() =~= b);
        assert(split_path(s) =~= seq![Seq::<char>::empty()] + split_path(b));
    } else {
        lemma_split_sep_concat(a.drop_first(), b);
        lemma_split_len(a.drop_first());
        lemma_split_len(b);
        assert(s[0] == a[0]);
        assert(s.drop_first() =~= a.drop_first() + seq!['/'] + b);
        let r = split_path(a.drop_first());
        let rp = split_path(a.drop_first() + seq!['/'] + b);
        if a[0] == '/' {
            assert(split_path(s) =~= seq![Seq::<char>::empty()] + rp);
            assert(seq![Seq::<char>::empty()] + (r + split_path(b)) =~= (seq![Seq::<char>::empty()]
                + r) + split_path(b));
        } else {
            assert(rp =~= r + split_path(b));
            assert(rp[0] == r[0]);
            assert(split_path(s) =~= seq![seq![s[0]] + rp[0]] + rp.drop_first());
            assert(rp.drop_first() =~= r.drop_first() + split_path(b));
            assert(seq![seq![a[0]] + r[0]] + (r.drop_first() + split_path(b)) =~= (seq![seq![a[0]]
                + r[0]] + r.drop_first()) + split_path(b));
        }
    }
}

/// Applying only clean components stacks them all.
proof fn lemma_apply_clean_append(base: Seq<Seq<char>>, comps: Seq<Seq<char>>)
    requires
        all_clean(comps),
    ensures
        apply_components(base, comps) =~= base + comps,
    decreases comps.len(),
{
    if comps.len() == 0 {
        assert(base + comps =~= base);
    } else {
        assert(all_clean(comps.drop_last())) by {
            assert(forall|k: int|
                0 <= k < comps.drop_last().len() ==> #[trigger] comps.drop_last()[k] == comps[k]);
        }
        lemma_apply_clean_append(base, comps.drop_last());
        assert(seg_clean(comps.last()));
        assert(apply_components(base, comps) =~= (base + comps.drop_last()).push(comps.last()));
        assert((base + comps.drop_last()).push(comps.last()) =~= base + comps);
    }
}

/// Applying components whose segments are free of separators to a clean
/// stack leaves a clean stack.
proof fn lemma_apply_all_clean(base: Seq<Seq<char>>, comps: Seq<Seq<char>>)
    requires
        all_clean(base),
        all_no_slash(comps),
    ensures
        all_clean(apply_components(base, comps)),
    decreases comps.len(),
{
    if comps.len() > 0 {
        assert(all_no_slash(comps.drop_last())) by {
            assert(forall|k: int|
                0 <= k < comps.drop_last().len() ==> #[trigger] comps.drop_last()[k] == comps[k]);
        }
        lemma_apply_all_clean(base, comps.drop_last());
        let prev = apply_components(base, comps.drop_last());
        let c = comps.last();
        assert(no_slash(c));
        if c.len() == 0 || c == dot() {
        } else if c == dotdot() {
            if prev.len() > 0 {
                assert(forall|k: int|
                    0 <= k < prev.drop_last().len() ==> #[trigger] prev.drop_last()[k] == prev[k]);
            }
        } else {
            assert(seg_clean(c));
            assert(forall|k: int|
                0 <= k < prev.len() ==> #[trigger] prev.push(c)[k] == prev[k]);
            assert(prev.push(c)[prev.len() as int] == c);
        }
    }
}

/// Splitting the joined form of clean segments gives them back.
proof fn lemma_split_join(c: Seq<Seq<char>>)
    requires
        c.len() >= 1,
        all_clean(c),
    ensures
        split_path(join_segments(c)) =~= c,
    decreases c.len(),
{
    if c.len() == 1 {
        assert(seg_clean(c[0]));
        lemma_split_single(c[0]);
    } else {
        assert(all_clean(c.drop_last())) by {
            assert(forall|k: int|
                0 <= k < c.drop_last().len() ==> #[trigger] c.drop_last()[k] == c[k]);
        }
        lemma_split_join(c.drop_last());
        assert(seg_clean(c.last()));
        lemma_split_single(c.last());
        lemma_split_sep_concat(join_segments(c.drop_last()), c.last());
        assert(c.drop_last() + seq![c.last()] =~= c);
    }
}

/// A joined list of segments starts with the first segment's first
/// character.
proof fn lemma_join_first(c: Seq<Seq<char>>)
    requires
        c.len() >= 1,
        c[0].len() > 0,
    ensures
        join_segments(c).len() > 0,
        join_segments(c)[0] == c[0][0],
    decreases c.len(),
{
    if c.len() > 1 {
        lemma_join_first(c.drop_last());
    }
}

/// A leading empty or `.` component is dropped by application.
proof fn lemma_apply_skip_first(base: Seq<Seq<char>>, x: Seq<char>, comps: Seq<Seq<char>>)
    requires
        x.len() == 0 || x == dot(),
    ensures
        apply_components(base, seq![x] + comps) =~= apply_components(base, comps),
    decreases comps.len(),
{
    if comps.len() == 0 {
        assert(apply_components(base, Seq::<Seq<char>>::empty()) =~= base);
        assert((seq![x] + comps) =~= seq![x]);
        assert(seq![x].drop_last() =~= Seq::<Seq<char>>::empty());
        assert(seq![x].last() == x);
        assert(apply_components(base, seq![x] + comps) =~= base);
    } else {
        lemma_apply_skip_first(base, x, comps.drop_last());
        assert((seq![x] + comps).drop_last() =~= seq![x] + comps.drop_last());
        assert((seq![x] + comps).last() == comps.last());
    }
}

/// Path normalization is idempotent: normalizing an already-normalized path
/// changes nothing.
pub proof fn lemma_normalize_idempotent(p: Seq<char>)
    ensures
        normalize_spec(normalize_spec(p)) == normalize_spec(p),
{
    let c = collapse(split_path(p));
    lemma_split_all_no_slash(p);
    assert(all_clean(Seq::<Seq<char>>::empty()));
    lemma_apply_all_clean(Seq::empty(), split_path(p));
    let n = normalize_spec(p);
    if c.len() == 0 {
        let e = Seq::<Seq<char>>::empty();
        let one = seq![Seq::<char>::empty()];
        let two = seq![Seq::<char>::empty(), Seq::<char>::empty()];
        assert(one.drop_last() =~= e);
        assert(one.last() == Seq::<char>::empty());
        assert(two.drop_last() =~= one);
        assert(two.last() == Seq::<char>::empty());
        assert(apply_components(e, e) =~= e);
        assert(apply_components(e, one) =~= e);
        assert(apply_components(e, two) =~= e);
        assert(join_segments(e) =~= Seq::<char>::empty());
        if p.len() > 0 && p[0] == '/' {
            assert(n =~= seq!['/']);
            assert(n[0] == '/');
            assert(n.drop_first() =~= Seq::<char>::empty());
            assert(split_path(Seq::<char>::empty()) =~= one);
            assert(split_path(n) =~= seq![Seq::<char>::empty()] + one);
            assert(split_path(n) =~= two);
            assert(collapse(split_path(n)) =~= e);
            assert(normalize_spec(n) =~= n);
        } else {
            assert(n =~= Seq::<char>::empty());
            assert(split_path(n) =~= one);
            assert(collapse(split_path(n)) =~= e);
            assert(normalize_spec(n) =~= n);
        }
    } else {
        assert(seg_clean(c[0]));
        lemma_join_first(c);
        lemma_split_join(c);
        lemma_apply_clean_append(Seq::empty(), c);
        if p.len() > 0 && p[0] == '/' {
            assert(n =~= seq!['/'] + join_segments(c));
            assert(n.len() > 0 && n[0] == '/');
            assert(n.drop_first() =~= join_segments(c));
            assert(split_path(n) =~= seq![Seq::<char>::empty()] + c);
            lemma_apply_skip_first(Seq::empty(), Seq::empty(), c);
            assert(collapse(split_path(n)) =~= c);
            assert(normalize_spec(n) =~= n);
        } else {
            assert(n =~= join_segments(c));
            assert(n[0] == c[0][0]);
            assert(n[0] != '/');
            assert(collapse(split_path(n)) =~= c);
            assert(normalize_spec(n) =~= n);
        }
    }
}

/// A joined path is already in normal form: hrefs stored through `join_root`
/// are resolved to root-relative form exactly once, at parse time, and
/// normalizing them again changes nothing.
pub proof fn lemma_join_root_normalized(root: Seq<char>, href: Seq<char>)
    ensures
        normalize_spec(join_root_spec(root, href)) == join_root_spec(root, href),
{
    if root.len() == 0 {
        lemma_normalize_idempotent(href);
    } else {
        lemma_normalize_idempotent(root + seq!['/'] + href);
    }
}

/// The segment slices of `s` between `/` separators, front to back.
fn split_segments<'a>(s: &'a str) -> (r: Vec<&'a str>)
    ensures
        r.deep_view() == split_path(s@),
{
    let n = s.unicode_len();
    let mut r: Vec<&'a str> = Vec::new();
    let mut start: usize = 0;
    let mut i: usize = 0;
    proof {
        assert(s@.take(0) =~= Seq::<char>::empty());
        assert(r.deep_view() + seq![s@.subrange(0, 0)] =~= split_path(s@.take(0)));
    }
    while i < n
        invariant
            n == s@.len(),
            start <= i <= n,
            r.deep_view() + seq![s@.subrange(start as int, i as int)] =~= split_path(
                s@.take(i as int),
            ),
        decreases n - i,
    {
        proof {
            assert(s@.take(i + 1) =~= s@.take(i as int).push(s@[i as int]));
            lemma_split_push(s@.take(i as int), s@[i as int]);
            lemma_split_len(s@.take(i as int));
        }
        let c = s.get_char(i);
        if c == '/' {
            let seg = s.substring_char(start, i);
            let ghost old_dv = r.deep_view();
            r.push(seg);
            proof {
                assert(r.deep_view() =~= old_dv.push(seg@));
                assert(seg@ == s@.subrange(start as int, i as int));
                assert(old_dv.push(seg@) =~= old_dv + seq![s@.subrange(start as int, i as int)]);
                assert(r.deep_view() =~= split_path(s@.take(i as int)));
                assert(s@.subrange(i + 1, i + 1) =~= Seq::<char>::empty());
                assert(r.deep_view() + seq![s@.subrange(i + 1, i + 1)] =~= split_path(
                    s@.take(i as int),
                ).push(Seq::<char>::empty()));
            }
            start = i + 1;
        } else {
            proof {
                assert(s@.subrange(start as int, i + 1) =~= s@.subrange(start as int, i as int).push(
                    s@[i as int],
                ));
                assert((r.deep_view() + seq![s@.subrange(start as int, i as int)]).drop_last()
                    =~= r.deep_view());
                assert(r.deep_view() + seq![s@.subrange(start as int, i + 1)] =~= split_path(
                    s@.take(i as int),
                ).drop_last().push(split_path(s@.take(i as int)).last().push(s@[i as int])));
            }
        }
        i += 1;
    }
    let last = s.substring_char(start, n);
    let ghost old_dv = r.deep_view();
    r.push(last);
    proof {
        assert(s@.take(n as int) =~= s@);
        assert(r.deep_view() =~= old_dv.push(last@));
        assert(r.deep_view() =~= split_path(s@));
    }
    r
}

/// Whether this segment is `.`.
fn seg_is_dot(s: &str) -> (r: bool)
    ensures
        r == (s@ == dot()),
{
    if s.unicode_len() == 1 && s.get_char(0) == '.' {
        proof {
            assert(s@ =~= dot());
        }
        true
    } else {
        proof {
            if s@ == dot() {
                assert(s@.len() == 1 && s@[0] == '.');
            }
        }
        false
    }
}

/// Whether this segment is `..`.
fn seg_is_dotdot(s: &str) -> (r: bool)
    ensures
        r == (s@ == dotdot()),
{
    if s.unicode_len() == 2 && s.get_char(0) == '.' && s.get_char(1) == '.' {
        proof {
            assert(s@ =~= dotdot());
        }
        true
    } else {
        proof {
            if s@ == dotdot() {
                assert(s@.len() == 2 && s@[0] == '.' && s@[1] == '.');
            }
        }
        false
    }
}

/// Applies the components to the stack, left to right, as `apply_components`
/// says.
fn apply_segments<'a>(stack: &mut Vec<&'a str>, segs: &Vec<&'a str>)
    ensures
        final(stack).deep_view() == apply_components(old(stack).deep_view(), segs.deep_view()),
{
    let n = segs.len();
    let mut i: usize = 0;
    proof {
        assert(segs.deep_view().take(0) =~= Seq::<Seq<char>>::empty());
    }
    while i < n
        invariant
            n == segs@.len(),
            i <= n,
            stack.deep_view() == apply_components(
                old(stack).deep_view(),
                segs.deep_view().take(i as int),
            ),
        decreases n - i,
    {
        proof {
            assert(segs.deep_view().take(i + 1).drop_last() =~= segs.deep_view().take(i as int));
            assert(segs.deep_view().take(i + 1).last() == segs@[i as int]@);
        }
        let seg = segs[i];
        if seg.is_empty() || seg_is_dot(seg) {
        } else if seg_is_dotdot(seg) {
            if stack.len() > 0 {
                let ghost old_dv = stack.deep_view();
                stack.pop();
                proof {
                    assert(stack.deep_view() =~= old_dv.drop_last());
                }
            }
        } else {
            let ghost old_dv = stack.deep_view();
            stack.push(seg);
            proof {
                assert(stack.deep_view() =~= old_dv.push(seg@));
            }
        }
        i += 1;
    }
    proof {
        assert(segs.deep_view().take(n as int) =~= segs.deep_view());
    }
}

/// Joins the segments with `/` between them, as `join_segments` says.
fn join_segments_exec(segs: &Vec<&str>) -> (r: String)
    ensures
        r@ == join_segments(segs.deep_view()),
{
    let mut out = String::new();
    let n = segs.len();
    let mut i: usize = 0;
    proof {
        reveal_strlit("/");
        assert(segs.deep_view().take(0) =~= Seq::<Seq<char>>::empty());
    }
    while i < n
        invariant
            n == segs@.len(),
            i <= n,
            out@ == join_segments(segs.deep_view().take(i as int)),
        decreases n - i,
    {
        proof {
            reveal_strlit("/");
            assert(segs.deep_view().take(i + 1).drop_last() =~= segs.deep_view().take(i as int));
            assert(segs.deep_view().take(i + 1).last() == segs@[i as int]@);
        }
        if i > 0 {
            out.append("/");
        } else {
            proof {
                assert(segs.deep_view().take(1) =~= seq![segs@[0]@]);
            }
        }
        out.append(segs[i]);
        proof {
            if i == 0 {
                assert(out@ =~= segs@[0]@);
            }
        }
        i += 1;
    }
    proof {
        assert(segs.deep_view().take(n as int) =~= segs.deep_view());
    }
    out
}

/// Normalizes a path: splits on `/`, drops empty and `.` segments, collapses
/// `..` against the preceding real segment (never underflowing below the
/// root), preserves a leading `/`, and rejoins with `/`. Total: malformed
/// input degrades to a best-effort normalized string.
pub fn normalize_path_simple(path: &str) -> (r: String)
    ensures
        r@ == normalize_spec(path@),
{
    let segs = split_segments(path);
    let mut stack: Vec<&str> = Vec::new();
    proof {
        assert(stack.deep_view() =~= Seq::<Seq<char>>::empty());
    }
    apply_segments(&mut stack, &segs);
    let joined = join_segments_exec(&stack);
    if path.unicode_len() > 0 && path.get_char(0) == '/' {
        proof {
            reveal_strlit("/");
            assert(("/")@ =~= seq!['/']);
        }
        let mut out = "/".to_owned();
        out.append(joined.as_str());
        proof {
            assert(out@ =~= seq!['/'] + join_segments(collapse(split_path(path@))));
        }
        out
    } else {
        joined
    }
}

/// `strip_fragment` is the prefix before the first `#`.
proof fn lemma_strip_fragment_take(s: Seq<char>, k: int)
    requires
        0 <= k <= s.len(),
        forall|j: int| 0 <= j < k ==> s[j] != '#',
        k < s.len() ==> s[k] == '#',
    ensures
        strip_fragment(s) =~= s.take(k),
    decreases s.len(),
{
    if s.len() == 0 {
    } else if s[0] == '#' {
        assert(s.take(0) =~= Seq::<char>::empty());
    } else {
        lemma_strip_fragment_take(s.drop_first(), k - 1);
        assert(s.take(k) =~= seq![s[0]] + s.drop_first().take(k - 1));
    }
}

/// `trim_slashes` is the suffix from the first character that is not `/`.
proof fn lemma_trim_slashes_skip(s: Seq<char>, k: int)
    requires
        0 <= k <= s.len(),
        forall|j: int| 0 <= j < k ==> s[j] == '/',
        k < s.len() ==> s[k] != '/',
    ensures
        trim_slashes(s) =~= s.skip(k),
    decreases s.len(),
{
    if s.len() > 0 && s[0] == '/' {
        lemma_trim_slashes_skip(s.drop_first(), k - 1);
        assert(s.drop_first().skip(k - 1) =~= s.skip(k));
    } else {
        assert(s.skip(0) =~= s);
    }
}

/// Resolves a relative reference against a base directory: strips any `#`
/// fragment; a reference starting with `/` is archive-root-absolute and is
/// returned without its leading slashes; otherwise the reference's components
/// are applied to the base directory, `.` as a no-op and `..` by removing the
/// previous segment (popping past the root is a no-op, never an error).
pub fn resolve_relative_path(base: &str, relative: &str) -> (r: String)
    ensures
        r@ == resolve_spec(base@, relative@),
{
    let rn = relative.unicode_len();
    let mut k: usize = 0;
    while k < rn && relative.get_char(k) != '#'
        invariant
            rn == relative@.len(),
            k <= rn,
            forall|j: int| 0 <= j < k ==> relative@[j] != '#',
        decreases rn - k,
    {
        k += 1;
    }
    let stripped = relative.substring_char(0, k);
    proof {
        lemma_strip_fragment_take(relative@, k as int);
        assert(stripped@ =~= strip_fragment(relative@));
    }
    let sn = stripped.unicode_len();
    if sn > 0 && stripped.get_char(0) == '/' {
        let mut m: usize = 0;
        while m < sn && stripped.get_char(m) == '/'
            invariant
                sn == stripped@.len(),
                m <= sn,
                forall|j: int| 0 <= j < m ==> stripped@[j] == '/',
            decreases sn - m,
        {
            m += 1;
        }
        let trimmed = stripped.substring_char(m, sn);
        proof {
            lemma_trim_slashes_skip(stripped@, m as int);
            assert(trimmed@ =~= trim_slashes(stripped@));
        }
        return trimmed.to_owned();
    }
    let base_raw = split_segments(base);
    let mut stack: Vec<&str> = Vec::new();
    let bn = base_raw.len();
    let mut i: usize = 0;
    proof {
        assert(base_raw.deep_view().take(0) =~= Seq::<Seq<char>>::empty());
    }
    while i < bn
        invariant
            bn == base_raw@.len(),
            i <= bn,
            stack.deep_view() == drop_empty(base_raw.deep_view().take(i as int)),
        decreases bn - i,
    {
        proof {
            assert(base_raw.deep_view().take(i + 1).drop_last() =~= base_raw.deep_view().take(
                i as int,
            ));
            assert(base_raw.deep_view().take(i + 1).last() == base_raw@[i as int]@);
        }
        let seg = base_raw[i];
        if !seg.is_empty() {
            let ghost old_dv = stack.deep_view();
            stack.push(seg);
            proof {
                assert(stack.deep_view() =~= old_dv.push(seg@));
            }
        }
        i += 1;
    }
    proof {
        assert(base_raw.deep_view().take(bn as int) =~= base_raw.deep_view());
    }
    let rel_segs = split_segments(stripped);
    apply_segments(&mut stack, &rel_segs);
    join_segments_exec(&stack)
}

/// The directory part of an archive path: the characters before the last
/// `/`, empty when there is none.
pub open spec fn dirname_spec(s: Seq<char>) -> Seq<char>
    decreases s.len(),
{
    if s.len() == 0 {
        Seq::empty()
    } else if s.last() == '/' {
        s.drop_last()
    } else {
        dirname_spec(s.drop_last())
    }
}

/// `dirname_spec` is the prefix before the last `/`.
proof fn lemma_dirname_take(s: Seq<char>, k: int)
    requires
        0 <= k <= s.len(),
        forall|j: int| k <= j < s.len() ==> s[j] != '/',
        k > 0 ==> s[k - 1] == '/',
    ensures
        k == 0 ==> dirname_spec(s) =~= Seq::<char>::empty(),
        k > 0 ==> dirname_spec(s) =~= s.take(k - 1),
    decreases s.len(),
{
    if s.len() == 0 {
    } else if s.last() == '/' {
        assert(k == s.len());
        assert(s.drop_last() =~= s.take(k - 1));
    } else {
        lemma_dirname_take(s.drop_last(), k);
        if k > 0 {
            assert(s.drop_last().take(k - 1) =~= s.take(k - 1));
        }
    }
}

/// The directory containing an archive path: the part before the last `/`,
/// or the empty string for a name at the archive root.
pub fn dirname(s: &str) -> (r: String)
    ensures
        r@ == dirname_spec(s@),
{
    let n = s.unicode_len();
    let mut k: usize = n;
    while k > 0 && s.get_char(k - 1) != '/'
        invariant
            n == s@.len(),
            k <= n,
            forall|j: int| k <= j < n ==> s@[j] != '/',
        decreases k,
    {
        k -= 1;
    }
    proof {
        lemma_dirname_take(s@, k as int);
    }
    if k == 0 {
        String::new()
    } else {
        s.substring_char(0, k - 1).to_owned()
    }
}

/// Joins a reference with the package's root directory: an empty root leaves
/// the reference to be normalized on its own; otherwise the two are joined
/// with `/` and normalized.
pub fn build_full_path(root: &str, relative_href: &str) -> (r: String)
    ensures
        r@ == join_root_spec(root@, relative_href@),
{
    if root.is_empty() {
        normalize_path_simple(relative_href)
    } else {
        proof {
            reveal_strlit("/");
            assert(("/")@ =~= seq!['/']);
        }
        let mut combined = root.to_owned();
        combined.append("/");
        combined.append(relative_href);
        proof {
            assert(combined@ =~= root@ + seq!['/'] + relative_href@);
        }
        normalize_path_simple(combined.as_str())
    }
}

} // verus!
