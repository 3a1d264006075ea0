//! The pre-parsed path of a scriptable type, with its type arguments, and the
//! key under which a language files the type's statics.
use vstd::prelude::*;
use vstd::string::*;

verus! {

/// A type path split into its segments, with the paths of its type
/// arguments: `a::B<C, D>` is `(["a", "B"], [(["C"], []), (["D"], [])])`.
#[derive(Debug)]
pub struct ScriptablePath(pub Vec<String>, pub Vec<ScriptablePath>);

/// The segments joined by `::`.
pub open spec fn segments_text(segments: Seq<String>) -> Seq<char>
    decreases segments.len(),
{
    if segments.len() == 0 {
        Seq::empty()
    } else if segments.len() == 1 {
        segments[0]@
    } else {
        segments_text(segments.drop_last()) + "::"@ + segments.last()@
    }
}

/// The text of a path: its segments joined by `::`, followed, where it has
/// type arguments, by their texts between `<` and `>`, separated by commas;
/// a path without segments has no text at all.
pub open spec fn path_text(p: ScriptablePath) -> Seq<char>
    decreases p,
{
    if p.0@.len() == 0 {
        Seq::empty()
    } else if p.1@.len() == 0 {
        segments_text(p.0@)
    } else {
        segments_text(p.0@) + "<"@ + args_text(p.1@) + ">"@
    }
}

/// The texts of the type arguments, separated by commas.
pub open spec fn args_text(args: Seq<ScriptablePath>) -> Seq<char>
    decreases args,
{
    if args.len() == 0 {
        Seq::empty()
    } else if args.len() == 1 {
        path_text(args[0])
    } else {
        args_text(args.drop_last()) + ","@ + path_text(args.last())
    }
}

fn write_segments(s: &mut String, segments: &Vec<String>)
    ensures
        final(s)@ == old(s)@ + segments_text(segments@),
{
    let mut i: usize = 0;
    while i < segments.len()
        invariant
            i <= segments.len(),
            s@ == old(s)@ + segments_text(segments@.take(i as int)),
        decreases segments.len() - i,
    {
        assert(segments@.take(i + 1).drop_last() =~= segments@.take(i as int));
        if i > 0 {
            s.append("::");
        } else {
            assert(segments@.take(0) =~= Seq::<String>::empty());
        }
        s.append(segments[i].as_str());
        i = i + 1;
    }
    assert(segments@.take(segments.len() as int) =~= segments@);
}

/// Appends the text of `type_path` to `s`.
pub fn write_scriptable_path(s: &mut String, type_path: &ScriptablePath)
    ensures
        final(s)@ == old(s)@ + path_text(*type_path),
    decreases type_path,
{
    if type_path.0.len() > 0 {
        write_segments(s, &type_path.0);
        let args = &type_path.1;
        if args.len() > 0 {
            s.append("<");
            let mut i: usize = 0;
            while i < args.len()
                invariant
                    i <= args.len(),
                    args == &type_path.1,
                    s@ == old(s)@ + segments_text(type_path.0@) + "<"@ + args_text(
                        args@.take(i as int),
                    ),
                decreases args.len() - i,
            {
                assert(args@.take(i + 1).drop_last() =~= args@.take(i as int));
                if i > 0 {
                    s.append(",");
                } else {
                    assert(args@.take(0) =~= Seq::<ScriptablePath>::empty());
                }
                assert(decreases_to!(*type_path => type_path.1));
                assert(decreases_to!(type_path.1 => type_path.1@));
                assert(decreases_to!(type_path.1@ => type_path.1@[i as int]));
                write_scriptable_path(s, &args[i]);
                i = i + 1;
            }
            assert(args@.take(args.len() as int) =~= args@);
            s.append(">");
        }
    }
}

/// The key of a type path: its text.
pub fn path_key(type_path: &ScriptablePath) -> (r: String)
    ensures
        r@ == path_text(*type_path),
{
    let mut key = String::new();
    write_scriptable_path(&mut key, type_path);
    key
}

/// Two paths that read the same: the same segments, and type arguments that
/// read the same, in order.
pub open spec fn same_path(p: ScriptablePath, q: ScriptablePath) -> bool
    decreases p,
{
    &&& p.0@.len() == q.0@.len()
    &&& forall|i: int| 0 <= i < p.0@.len() ==> (#[trigger] p.0@[i])@ == q.0@[i]@
    &&& same_args(p.1@, q.1@)
}

pub open spec fn same_args(a: Seq<ScriptablePath>, b: Seq<ScriptablePath>) -> bool
    decreases a,
{
    &&& a.len() == b.len()
    &&& (a.len() == 0 || (same_args(a.drop_last(), b.drop_last()) && same_path(a.last(), b.last())))
}

/// The nesting depth that a text leaves: `<` opens, `>` closes.
pub open spec fn depth(s: Seq<char>) -> int
    decreases s.len(),
{
    if s.len() == 0 {
        0
    } else {
        depth(s.drop_last()) + if s.last() == '<' {
            1int
        } else if s.last() == '>' {
            -1int
        } else {
            0int
        }
    }
}

/// A segment as the key reads it unambiguously: not empty, and free of the
/// characters that separate segments and type arguments.
pub open spec fn plain_segment(x: Seq<char>) -> bool {
    &&& x.len() > 0
    &&& forall|i: int| 0 <= i < x.len() ==> #[trigger] x[i] != ':' && x[i] != '<' && x[i] != '>' && x[i] != ','
}

/// A type path of plain segments, with type arguments that are such paths
/// too.
pub open spec fn plain_path(p: ScriptablePath) -> bool
    decreases p,
{
    &&& p.0@.len() > 0
    &&& forall|i: int| 0 <= i < p.0@.len() ==> plain_segment(#[trigger] p.0@[i]@)
    &&& plain_args(p.1@)
}

pub open spec fn plain_args(a: Seq<ScriptablePath>) -> bool
    decreases a,
{
    a.len() == 0 || (plain_args(a.drop_last()) && plain_path(a.last()))
}

/// Every prefix leaves a depth of at least zero.
pub open spec fn well_nested(s: Seq<char>) -> bool {
    forall|i: int| 0 <= i <= s.len() ==> depth(#[trigger] s.take(i)) >= 0
}

/// Every comma stands inside brackets.
pub open spec fn commas_nested(s: Seq<char>) -> bool {
    forall|i: int| 0 <= i < s.len() && s[i] == ',' ==> depth(#[trigger] s.take(i)) >= 1
}

/// The text has none of the separating characters.
pub open spec fn flat(s: Seq<char>) -> bool {
    forall|i: int| 0 <= i < s.len() ==> #[trigger] s[i] != '<' && s[i] != '>' && s[i] != ','
}

proof fn lemma_depth_concat(a: Seq<char>, b: Seq<char>)
    ensures
        depth(a + b) == depth(a) + depth(b),
    decreases b.len(),
{
    if b.len() > 0 {
        lemma_depth_concat(a, b.drop_last());
        assert((a + b).drop_last() =~= a + b.drop_last());
        assert((a + b).last() == b.last());
    } else {
        assert(a + b =~= a);
    }
}

proof fn lemma_flat_depth(s: Seq<char>)
    requires
        flat(s),
    ensures
        forall|i: int| 0 <= i <= s.len() ==> depth(#[trigger] s.take(i)) == 0,
    decreases s.len(),
{
    if s.len() > 0 {
        let t = s.drop_last();
        assert forall|i: int| 0 <= i < t.len() implies #[trigger] t[i] != '<' && t[i] != '>' && t[i] != ',' by {
            assert(t[i] == s[i]);
        }
        lemma_flat_depth(t);
        assert forall|i: int| 0 <= i <= s.len() implies depth(#[trigger] s.take(i)) == 0 by {
            if i < s.len() {
                assert(s.take(i) =~= t.take(i));
            } else {
                assert(s.take(i) =~= s);
                assert(s.drop_last() =~= t.take(t.len() as int));
                assert(s[s.len() - 1] == s.last());
            }
        }
    }
}

proof fn lemma_segments_flat(segments: Seq<String>)
    requires
        forall|i: int| 0 <= i < segments.len() ==> plain_segment(#[trigger] segments[i]@),
    ensures
        flat(segments_text(segments)),
    decreases segments.len(),
{
    if segments.len() > 1 {
        let front = segments.drop_last();
        assert forall|i: int| 0 <= i < front.len() implies plain_segment(#[trigger] front[i]@) by {
            assert(front[i] == segments[i]);
        }
        lemma_segments_flat(front);
        let a = segments_text(front);
        let l = segments.last()@;
        assert(plain_segment(segments[segments.len() - 1]@));
        let t = a + "::"@ + l;
        assert forall|i: int| 0 <= i < t.len() implies #[trigger] t[i] != '<' && t[i] != '>' && t[i] != ',' by {
            reveal_strlit("::");
            if i < a.len() {
                assert(t[i] == a[i]);
            } else if i < a.len() + 2 {
                assert(t[i] == ':');
            } else {
                assert(t[i] == l[i - a.len() - 2]);
            }
        }
    } else if segments.len() == 1 {
        assert(plain_segment(segments[0]@));
    }
}

proof fn lemma_path_shape(p: ScriptablePath)
    requires
        plain_path(p),
    ensures
        path_text(p).len() > 0,
        depth(path_text(p)) == 0,
        well_nested(path_text(p)),
        commas_nested(path_text(p)),
    decreases p,
{
    let segs = p.0@;
    lemma_segments_flat(segs);
    let st = segments_text(segs);
    lemma_flat_depth(st);
    lemma_segments_nonempty(segs);
    assert(st.take(st.len() as int) =~= st);
    if p.1@.len() == 0 {
        assert forall|i: int| 0 <= i < st.len() && st[i] == ',' implies depth(#[trigger] st.take(i)) >= 1 by {
            assert(st[i] != ',');
        }
    } else {
        assert(decreases_to!(p => p.1));
        assert(decreases_to!(p.1 => p.1@));
        lemma_args_shape(p.1@);
        reveal_strlit("<");
        reveal_strlit(">");
        let a = args_text(p.1@);
        let t = st + "<"@ + a + ">"@;
        assert(t == path_text(p));
        let n = st.len() as int;
        lemma_depth_concat(st, "<"@);
        lemma_depth_concat(st + "<"@, a);
        lemma_depth_concat(st + "<"@ + a, ">"@);
        assert(depth("<"@) == 1) by {
            reveal_strlit("<");
            assert("<"@.len() == 1);
            assert("<"@[0] == '<');
            assert("<"@.drop_last() =~= Seq::<char>::empty());
            assert(depth(Seq::<char>::empty()) == 0);
        }
        assert(depth(">"@) == -1) by {
            reveal_strlit(">");
            assert(">"@.len() == 1);
            assert(">"@[0] == '>');
            assert(">"@.drop_last() =~= Seq::<char>::empty());
            assert(depth(Seq::<char>::empty()) == 0);
        }
        assert forall|i: int| 0 <= i <= t.len() implies depth(#[trigger] t.take(i)) >= 0 by {
            if i <= n {
                assert(t.take(i) =~= st.take(i));
            } else if i <= n + 1 + a.len() {
                let j = i - n - 1;
                assert(t.take(i) =~= (st + "<"@) + a.take(j));
                lemma_depth_concat(st + "<"@, a.take(j));
                assert(depth(a.take(j)) >= 0);
            } else {
                assert(t.take(i) =~= t);
            }
        }
        assert forall|i: int| 0 <= i < t.len() && t[i] == ',' implies depth(#[trigger] t.take(i)) >= 1 by {
            if i < n {
                assert(t[i] == st[i]);
            } else if i == n {
                assert(t[i] == '<');
            } else if i < n + 1 + a.len() {
                let j = i - n - 1;
                assert(t[i] == a[j]);
                assert(t.take(i) =~= (st + "<"@) + a.take(j));
                lemma_depth_concat(st + "<"@, a.take(j));
                assert(depth(a.take(j)) >= 0);
            } else {
                assert(t[i] == '>');
            }
        }
    }
}

proof fn lemma_segments_nonempty(segments: Seq<String>)
    requires
        segments.len() > 0,
        forall|i: int| 0 <= i < segments.len() ==> plain_segment(#[trigger] segments[i]@),
    ensures
        segments_text(segments).len() > 0,
    decreases segments.len(),
{
    assert(plain_segment(segments[segments.len() - 1]@));
    if segments.len() == 1 {
        assert(plain_segment(segments[0]@));
    }
}

proof fn lemma_args_shape(a: Seq<ScriptablePath>)
    requires
        plain_args(a),
    ensures
        a.len() > 0 ==> args_text(a).len() > 0,
        depth(args_text(a)) == 0,
        well_nested(args_text(a)),
    decreases a,
{
    if a.len() == 0 {
        assert forall|i: int| 0 <= i <= 0 implies depth(#[trigger] Seq::<char>::empty().take(i)) >= 0 by {
            assert(Seq::<char>::empty().take(i) =~= Seq::<char>::empty());
        }
    } else if a.len() == 1 {
        assert(decreases_to!(a => a[0]));
        assert(a.drop_last() =~= Seq::<ScriptablePath>::empty());
        lemma_path_shape(a[0]);
    } else {
        assert(decreases_to!(a => a[a.len() - 1]));
        lemma_args_shape(a.drop_last());
        lemma_path_shape(a.last());
        reveal_strlit(",");
        let x = args_text(a.drop_last());
        let q = path_text(a.last());
        let t = x + ","@ + q;
        let n = x.len() as int;
        lemma_depth_concat(x, ","@);
        lemma_depth_concat(x + ","@, q);
        assert(depth(","@) == 0) by {
            reveal_strlit(",");
            assert(","@.len() == 1);
            assert(","@[0] == ',');
            assert(","@.drop_last() =~= Seq::<char>::empty());
            assert(depth(Seq::<char>::empty()) == 0);
        }
        assert forall|i: int| 0 <= i <= t.len() implies depth(#[trigger] t.take(i)) >= 0 by {
            if i <= n {
                assert(t.take(i) =~= x.take(i));
            } else {
                let j = i - n - 1;
                assert(t.take(i) =~= (x + ","@) + q.take(j));
                lemma_depth_concat(x + ","@, q.take(j));
                assert(depth(q.take(j)) >= 0);
            }
        }
    }
}

proof fn lemma_segments_injective(a: Seq<String>, b: Seq<String>)
    requires
        a.len() > 0,
        b.len() > 0,
        forall|i: int| 0 <= i < a.len() ==> plain_segment(#[trigger] a[i]@),
        forall|i: int| 0 <= i < b.len() ==> plain_segment(#[trigger] b[i]@),
        segments_text(a) == segments_text(b),
    ensures
        a.len() == b.len(),
        forall|i: int| 0 <= i < a.len() ==> (#[trigger] a[i])@ == b[i]@,
    decreases a.len() + b.len(),
{
    reveal_strlit("::");
    let t = segments_text(a);
    if a.len() == 1 && b.len() == 1 {
        assert(plain_segment(a[0]@));
    } else if a.len() == 1 {
        let x = segments_text(b.drop_last());
        assert(t == x + "::"@ + b.last()@);
        assert(t[x.len() as int] == ':');
        assert(plain_segment(a[0]@));
        assert(t == a[0]@);
        assert(false);
    } else if b.len() == 1 {
        let x = segments_text(a.drop_last());
        assert(t == x + "::"@ + a.last()@);
        assert(t[x.len() as int] == ':');
        assert(plain_segment(b[0]@));
        assert(t == b[0]@);
        assert(false);
    } else {
        let xa = segments_text(a.drop_last());
        let xb = segments_text(b.drop_last());
        let la = a.last()@;
        let lb = b.last()@;
        assert(plain_segment(a[a.len() - 1]@));
        assert(plain_segment(b[b.len() - 1]@));
        assert(t == xa + "::"@ + la);
        assert(t == xb + "::"@ + lb);
        if la.len() < lb.len() {
            let k = t.len() - la.len() - 1;
            assert(t[k] == ':');
            assert(t[k] == lb[k - xb.len() - 2]);
            assert(false);
        }
        if lb.len() < la.len() {
            let k = t.len() - lb.len() - 1;
            assert(t[k] == ':');
            assert(t[k] == la[k - xa.len() - 2]);
            assert(false);
        }
        assert(la =~= lb) by {
            assert forall|i: int| 0 <= i < la.len() implies la[i] == lb[i] by {
                assert(t[xa.len() + 2 + i] == la[i]);
                assert(t[xb.len() + 2 + i] == lb[i]);
            }
        }
        assert(xa =~= xb) by {
            assert forall|i: int| 0 <= i < xa.len() implies xa[i] == xb[i] by {
                assert(t[i] == xa[i]);
                assert(t[i] == xb[i]);
            }
        }
        let fa = a.drop_last();
        let fb = b.drop_last();
        assert forall|i: int| 0 <= i < fa.len() implies plain_segment(#[trigger] fa[i]@) by {
            assert(fa[i] == a[i]);
        }
        assert forall|i: int| 0 <= i < fb.len() implies plain_segment(#[trigger] fb[i]@) by {
            assert(fb[i] == b[i]);
        }
        lemma_segments_injective(fa, fb);
        assert forall|i: int| 0 <= i < a.len() implies (#[trigger] a[i])@ == b[i]@ by {
            if i < a.len() - 1 {
                assert(a[i] == fa[i]);
                assert(b[i] == fb[i]);
            }
        }
    }
}

proof fn lemma_path_text_injective(p: ScriptablePath, q: ScriptablePath)
    requires
        plain_path(p),
        plain_path(q),
        path_text(p) == path_text(q),
    ensures
        same_path(p, q),
    decreases p,
{
    reveal_strlit("<");
    reveal_strlit(">");
    let sp = segments_text(p.0@);
    let sq = segments_text(q.0@);
    lemma_segments_flat(p.0@);
    lemma_segments_flat(q.0@);
    let t = path_text(p);
    let hp = p.1@.len() > 0;
    let hq = q.1@.len() > 0;
    if hp {
        assert(t == sp + "<"@ + args_text(p.1@) + ">"@);
        assert(t[sp.len() as int] == '<');
    }
    if hq {
        assert(t == sq + "<"@ + args_text(q.1@) + ">"@);
        assert(t[sq.len() as int] == '<');
    }
    if hp && !hq {
        assert(t == sq);
        assert(sq[sp.len() as int] != '<');
        assert(false);
    }
    if hq && !hp {
        assert(t == sp);
        assert(sp[sq.len() as int] != '<');
        assert(false);
    }
    if hp && hq {
        if sp.len() < sq.len() {
            assert(t[sp.len() as int] == sq[sp.len() as int]);
            assert(false);
        }
        if sq.len() < sp.len() {
            assert(t[sq.len() as int] == sp[sq.len() as int]);
            assert(false);
        }
        assert(sp =~= sq) by {
            assert forall|i: int| 0 <= i < sp.len() implies sp[i] == sq[i] by {
                assert(t[i] == sp[i]);
                assert(t[i] == sq[i]);
            }
        }
        let ap = args_text(p.1@);
        let aq = args_text(q.1@);
        assert(ap =~= aq) by {
            assert(ap.len() == aq.len());
            assert forall|i: int| 0 <= i < ap.len() implies ap[i] == aq[i] by {
                assert(t[sp.len() + 1 + i] == ap[i]);
                assert(t[sq.len() + 1 + i] == aq[i]);
            }
        }
        assert(decreases_to!(p => p.1));
        assert(decreases_to!(p.1 => p.1@));
        lemma_args_text_injective(p.1@, q.1@);
    } else {
        assert(sp == sq);
        assert(same_args(p.1@, q.1@));
    }
    lemma_segments_injective(p.0@, q.0@);
}

proof fn lemma_args_text_injective(a: Seq<ScriptablePath>, b: Seq<ScriptablePath>)
    requires
        plain_args(a),
        plain_args(b),
        args_text(a) == args_text(b),
    ensures
        same_args(a, b),
    decreases a,
{
    reveal_strlit(",");
    lemma_args_shape(a);
    lemma_args_shape(b);
    let t = args_text(a);
    if a.len() == 0 || b.len() == 0 {
        assert(a.len() == 0 && b.len() == 0);
    } else if a.len() == 1 && b.len() == 1 {
        assert(decreases_to!(a => a[0]));
        assert(a.drop_last() =~= Seq::<ScriptablePath>::empty());
        assert(b.drop_last() =~= Seq::<ScriptablePath>::empty());
        lemma_path_text_injective(a[0], b[0]);
        assert(same_args(a.drop_last(), b.drop_last()));
        assert(a.last() == a[0] && b.last() == b[0]);
    } else if a.len() == 1 {
        assert(a.drop_last() =~= Seq::<ScriptablePath>::empty());
        lemma_path_shape(a[0]);
        lemma_args_shape(b.drop_last());
        let xb = args_text(b.drop_last());
        assert(t == xb + ","@ + path_text(b.last()));
        assert(t[xb.len() as int] == ',');
        assert(t.take(xb.len() as int) =~= xb);
        assert(false);
    } else if b.len() == 1 {
        assert(b.drop_last() =~= Seq::<ScriptablePath>::empty());
        lemma_path_shape(b[0]);
        lemma_args_shape(a.drop_last());
        let xa = args_text(a.drop_last());
        assert(t == xa + ","@ + path_text(a.last()));
        assert(t[xa.len() as int] == ',');
        assert(t.take(xa.len() as int) =~= xa);
        assert(false);
    } else {
        assert(decreases_to!(a => a[a.len() - 1]));
        lemma_args_shape(a.drop_last());
        lemma_args_shape(b.drop_last());
        lemma_path_shape(a.last());
        lemma_path_shape(b.last());
        let xa = args_text(a.drop_last());
        let xb = args_text(b.drop_last());
        let pa = path_text(a.last());
        let pb = path_text(b.last());
        assert(t == xa + ","@ + pa);
        assert(t == xb + ","@ + pb);
        if pa.len() < pb.len() {
            lemma_comma_split(t, xa, pa, xb, pb);
        }
        if pb.len() < pa.len() {
            lemma_comma_split(t, xb, pb, xa, pa);
        }
        assert(pa =~= pb) by {
            assert forall|i: int| 0 <= i < pa.len() implies pa[i] == pb[i] by {
                assert(t[xa.len() + 1 + i] == pa[i]);
                assert(t[xb.len() + 1 + i] == pb[i]);
            }
        }
        assert(xa =~= xb) by {
            assert forall|i: int| 0 <= i < xa.len() implies xa[i] == xb[i] by {
                assert(t[i] == xa[i]);
                assert(t[i] == xb[i]);
            }
        }
        lemma_args_text_injective(a.drop_last(), b.drop_last());
        lemma_path_text_injective(a.last(), b.last());
    }
}

/// A text split at a comma both as `xa,pa` and as `xb,pb`, where the parts
/// after the commas leave no depth and `pb` has its commas inside brackets:
/// `pb` is no longer than `pa`.
proof fn lemma_comma_split(t: Seq<char>, xa: Seq<char>, pa: Seq<char>, xb: Seq<char>, pb: Seq<char>)
    requires
        t == xa + ","@ + pa,
        t == xb + ","@ + pb,
        depth(pa) == 0,
        depth(pb) == 0,
        commas_nested(pb),
    ensures
        pb.len() <= pa.len(),
{
    reveal_strlit(",");
    if pa.len() < pb.len() {
        let k = t.len() - pa.len() - 1;
        let m = pb.len() - pa.len() - 1;
        assert(t[k] == ',');
        assert(pb[m] == t[k]);
        assert(pb =~= pb.take(m) + ","@ + pa) by {
            assert forall|i: int| 0 <= i < pb.len() implies pb[i] == (pb.take(m) + ","@ + pa)[i] by {
                if i > m {
                    assert(pb[i] == t[xb.len() + 1 + i]);
                    assert(pa[i - m - 1] == t[xa.len() + 1 + i - m - 1]);
                }
            }
        }
        lemma_depth_concat(pb.take(m), ","@);
        lemma_depth_concat(pb.take(m) + ","@, pa);
        assert(depth(","@) == 0) by {
            assert(","@.len() == 1);
            assert(","@[0] == ',');
            assert(","@.drop_last() =~= Seq::<char>::empty());
            assert(depth(Seq::<char>::empty()) == 0);
        }
        assert(depth(pb.take(m)) >= 1);
    }
}

/// Paths of plain segments get distinct keys: two such paths whose keys are
/// equal read the same, so no two types share an entry of the statics map.
pub proof fn lemma_path_keys_distinct(p: ScriptablePath, q: ScriptablePath)
    requires
        plain_path(p),
        plain_path(q),
        path_text(p) == path_text(q),
    ensures
        same_path(p, q),
{
    lemma_path_text_injective(p, q);
}

} // verus!
