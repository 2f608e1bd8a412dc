//! The meaning of lowered guards. A guard string is evaluated against the
//! target algebra's stated semantics: NOT binds tightest, then the AND
//! marker, then the OR marker, with parentheses grouping. Lowering an
//! enum-expression tree built from conjunction, disjunction, negation and
//! global comparisons is proved to preserve the tree's truth value, so two
//! differently parenthesized but equivalent formulas always lower to
//! semantically equivalent guards.
use vstd::prelude::*;
use crate::cfengine::{spec_format_case_expr, GenCtx, TextOut};
use crate::ir::{spec_assoc_get, EnumExpression, IR};

verus! {

/// How one character changes the parenthesis depth.
pub open spec fn delta(c: char) -> int {
    if c == '(' {
        1
    } else if c == ')' {
        -1
    } else {
        0
    }
}

/// The parenthesis depth before position `i`.
pub open spec fn depth(s: Seq<char>, i: int) -> int
    decreases i,
{
    if i <= 0 {
        0
    } else {
        depth(s, i - 1) + delta(s[i - 1])
    }
}

/// A segment whose parentheses close exactly: never negative, zero at the
/// end.
pub open spec fn balanced(s: Seq<char>) -> bool {
    depth(s, s.len() as int) == 0 && forall|i: int| 0 <= i <= s.len() ==> depth(s, i) >= 0
}

/// No occurrence of `c` outside parentheses.
pub open spec fn no_top(s: Seq<char>, c: char) -> bool {
    forall|i: int| 0 <= i < s.len() && s[i] == c ==> depth(s, i) >= 1
}

/// OR layer: scans for the first OR marker outside parentheses from `i`,
/// at running depth `d`; the guard is the disjunction of its parts.
pub open spec fn or_scan(s: Seq<char>, env: Map<Seq<char>, bool>, i: int, d: int) -> bool
    decreases s.len(), 2int, s.len() - i,
{
    if 0 <= i < s.len() {
        if d == 0 && s[i] == '|' {
            and_scan(s.take(i), env, 0, 0) || or_scan(s.skip(i + 1), env, 0, 0)
        } else {
            or_scan(s, env, i + 1, d + delta(s[i]))
        }
    } else {
        and_scan(s, env, 0, 0)
    }
}

/// AND layer: scans for the first AND marker outside parentheses; the part
/// before it is a factor, conjoined with the rest.
pub open spec fn and_scan(s: Seq<char>, env: Map<Seq<char>, bool>, i: int, d: int) -> bool
    decreases s.len(), 1int, s.len() - i,
{
    if 0 <= i < s.len() {
        if d == 0 && s[i] == '.' {
            not_eval(s.take(i), env) && and_scan(s.skip(i + 1), env, 0, 0)
        } else {
            and_scan(s, env, i + 1, d + delta(s[i]))
        }
    } else {
        not_eval(s, env)
    }
}

/// Factor layer: leading NOT markers, a parenthesized group, or a class
/// name looked up in the environment. The empty guard is no additional
/// condition.
pub open spec fn not_eval(s: Seq<char>, env: Map<Seq<char>, bool>) -> bool
    decreases s.len(), 0int, 0int,
{
    if s.len() == 0 {
        true
    } else if s[0] == '!' {
        !not_eval(s.skip(1), env)
    } else if s.len() >= 2 && s[0] == '(' && s[s.len() - 1] == ')' {
        or_scan(s.subrange(1, s.len() - 1), env, 0, 0)
    } else {
        env[s]
    }
}

/// The truth value of a rendered guard under an assignment of its classes.
pub open spec fn class_eval(s: Seq<char>, env: Map<Seq<char>, bool>) -> bool {
    or_scan(s, env, 0, 0)
}

/// A class name that cannot be mistaken for algebra syntax.
pub open spec fn atom_ok(a: Seq<char>) -> bool {
    a.len() > 0 && forall|i: int|
        0 <= i < a.len() ==> a[i] != '|' && a[i] != '.' && a[i] != '!' && a[i] != '(' && a[i]
            != ')'
}

/// A tree built only from conjunction, disjunction, negation and global
/// comparisons whose item names are plain class names.
pub open spec fn p1_expr(gc: IR, e: EnumExpression) -> bool
    decreases e,
{
    match e {
        EnumExpression::And(l, r) => p1_expr(gc, *l) && p1_expr(gc, *r),
        EnumExpression::Or(l, r) => p1_expr(gc, *l) && p1_expr(gc, *r),
        EnumExpression::Not(x) => p1_expr(gc, *x),
        EnumExpression::Compare(_, en, item) => spec_assoc_get(
            gc.enum_list.globals@,
            en.fragment@,
        ) == Some(true) && atom_ok(item.fragment@),
        _ => false,
    }
}

/// The truth value of such a tree under an assignment of its classes.
pub open spec fn tree_eval(gc: IR, e: EnumExpression, env: Map<Seq<char>, bool>) -> bool
    decreases e,
{
    match e {
        EnumExpression::And(l, r) => tree_eval(gc, *l, env) && tree_eval(gc, *r, env),
        EnumExpression::Or(l, r) => tree_eval(gc, *l, env) || tree_eval(gc, *r, env),
        EnumExpression::Not(x) => !tree_eval(gc, *x, env),
        EnumExpression::Compare(_, _, item) => env[item.fragment@],
        _ => true,
    }
}

/// Parenthesize when the segment holds an OR marker anywhere.
pub open spec fn wr_or(s: Seq<char>) -> Seq<char> {
    if s.contains('|') {
        seq!['('] + s + seq![')']
    } else {
        s
    }
}

/// Parenthesize when the segment holds an OR or AND marker anywhere.
pub open spec fn wr_and_or(s: Seq<char>) -> Seq<char> {
    if s.contains('|') || s.contains('.') {
        seq!['('] + s + seq![')']
    } else {
        s
    }
}

/// The guard text a tree of this shape lowers to.
pub open spec fn p1_render(gc: IR, e: EnumExpression) -> Seq<char>
    decreases e,
{
    match e {
        EnumExpression::And(l, r) => wr_or(p1_render(gc, *l)) + seq!['.'] + wr_or(
            p1_render(gc, *r),
        ),
        EnumExpression::Or(l, r) => p1_render(gc, *l) + seq!['|'] + p1_render(gc, *r),
        EnumExpression::Not(x) => seq!['!'] + wr_and_or(p1_render(gc, *x)),
        EnumExpression::Compare(_, _, item) => item.fragment@,
        _ => Seq::empty(),
    }
}

/// Lowering such a tree always succeeds, yields the same guard in any
/// generation context, and that guard is `p1_render`.
pub proof fn lemma_p1_renders(gc: IR, e: EnumExpression, ctx: GenCtx)
    requires
        p1_expr(gc, e),
    ensures
        spec_format_case_expr(gc, e, ctx) == TextOut::Done(p1_render(gc, e)),
    decreases e,
{
    reveal_strlit("(");
    reveal_strlit(")");
    reveal_strlit(".");
    reveal_strlit("|");
    reveal_strlit("!");
    assert("("@ =~= seq!['(']);
    assert(")"@ =~= seq![')']);
    assert("."@ =~= seq!['.']);
    assert("|"@ =~= seq!['|']);
    assert("!"@ =~= seq!['!']);
    match e {
        EnumExpression::And(l, r) => {
            lemma_p1_renders(gc, *l, ctx);
            lemma_p1_renders(gc, *r, ctx);
            let rl = p1_render(gc, *l);
            let rr = p1_render(gc, *r);
            assert(crate::cfengine::spec_wrap_or(rl) =~= wr_or(rl));
            assert(crate::cfengine::spec_wrap_or(rr) =~= wr_or(rr));
            assert(crate::cfengine::spec_wrap_or(rl) + "."@ + crate::cfengine::spec_wrap_or(rr)
                =~= wr_or(rl) + seq!['.'] + wr_or(rr));
        },
        EnumExpression::Or(l, r) => {
            lemma_p1_renders(gc, *l, ctx);
            lemma_p1_renders(gc, *r, ctx);
            assert(p1_render(gc, *l) + "|"@ + p1_render(gc, *r) =~= p1_render(gc, *l)
                + seq!['|'] + p1_render(gc, *r));
        },
        EnumExpression::Not(x) => {
            lemma_p1_renders(gc, *x, ctx);
            let rx = p1_render(gc, *x);
            assert(crate::cfengine::spec_wrap_and_or(rx) =~= wr_and_or(rx));
            assert("!"@ + crate::cfengine::spec_wrap_and_or(rx) =~= seq!['!'] + wr_and_or(rx));
        },
        _ => {},
    }
}

/// A single character that is no parenthesis is a balanced segment, with
/// nothing at top level but itself.
proof fn lemma_single(c: char)
    requires
        c != '(',
        c != ')',
    ensures
        balanced(seq![c]),
        forall|m: char| m != c ==> no_top(seq![c], m),
{
    assert(seq![c][0] == c);
    assert(depth(seq![c], 0) == 0);
    assert(depth(seq![c], 1) == delta(c));
    assert forall|i: int| 0 <= i <= 1 implies depth(seq![c], i) >= 0 by {
        assert(depth(seq![c], 0) == 0);
        assert(depth(seq![c], 1) == 0);
    }
    assert forall|m: char| m != c implies no_top(seq![c], m) by {
        assert forall|i: int| 0 <= i < 1 && seq![c][i] == m implies depth(seq![c], i) >= 1 by {
            assert(seq![c][i] == c);
        }
    }
}

proof fn lemma_depth_concat_left(a: Seq<char>, b: Seq<char>, i: int)
    requires
        0 <= i <= a.len(),
    ensures
        depth(a + b, i) == depth(a, i),
    decreases i,
{
    if i > 0 {
        lemma_depth_concat_left(a, b, i - 1);
        assert((a + b)[i - 1] == a[i - 1]);
    }
}

proof fn lemma_depth_concat_right(a: Seq<char>, b: Seq<char>, j: int)
    requires
        0 <= j <= b.len(),
    ensures
        depth(a + b, a.len() + j) == depth(a, a.len() as int) + depth(b, j),
    decreases j,
{
    if j == 0 {
        lemma_depth_concat_left(a, b, a.len() as int);
    } else {
        lemma_depth_concat_right(a, b, j - 1);
        assert((a + b)[a.len() + j - 1] == b[j - 1]);
    }
}

proof fn lemma_depth_skip(s: Seq<char>, k: int, j: int)
    requires
        0 <= k,
        0 <= j,
        k + j <= s.len(),
    ensures
        depth(s.skip(k), j) == depth(s, k + j) - depth(s, k),
    decreases j,
{
    if j > 0 {
        lemma_depth_skip(s, k, j - 1);
        assert(s.skip(k)[j - 1] == s[k + j - 1]);
    }
}

proof fn lemma_depth_take(s: Seq<char>, k: int, j: int)
    requires
        0 <= j <= k <= s.len(),
    ensures
        depth(s.take(k), j) == depth(s, j),
    decreases j,
{
    if j > 0 {
        lemma_depth_take(s, k, j - 1);
        assert(s.take(k)[j - 1] == s[j - 1]);
    }
}

/// A segment with no OR marker outside parentheses is one single part of
/// the OR layer: scanning falls through to the AND layer.
proof fn lemma_or_no_split(s: Seq<char>, env: Map<Seq<char>, bool>, i: int)
    requires
        0 <= i <= s.len(),
        no_top(s, '|'),
    ensures
        or_scan(s, env, i, depth(s, i)) == and_scan(s, env, 0, 0),
    decreases s.len() - i,
{
    if i < s.len() {
        lemma_or_no_split(s, env, i + 1);
    }
}

/// A segment with no AND marker outside parentheses is one single factor:
/// scanning falls through to the factor layer.
proof fn lemma_and_no_split(s: Seq<char>, env: Map<Seq<char>, bool>, i: int)
    requires
        0 <= i <= s.len(),
        no_top(s, '.'),
    ensures
        and_scan(s, env, i, depth(s, i)) == not_eval(s, env),
    decreases s.len() - i,
{
    if i < s.len() {
        lemma_and_no_split(s, env, i + 1);
    }
}

/// The OR layer splits a disjunction at its marker: evaluating
/// `L|R` is evaluating `L`, or `R`.
proof fn lemma_or_concat(L: Seq<char>, R: Seq<char>, env: Map<Seq<char>, bool>, i: int)
    requires
        0 <= i <= L.len(),
        balanced(L),
        forall|j: int| 0 <= j < i && L[j] == '|' ==> depth(L, j) >= 1,
    ensures
        or_scan(L + seq!['|'] + R, env, i, depth(L, i)) == (or_scan(L, env, i, depth(L, i))
            || or_scan(R, env, 0, 0)),
    decreases L.len(), L.len() - i,
{
    let s = L + seq!['|'] + R;
    assert(s.len() == L.len() + 1 + R.len());
    if i == L.len() {
        assert(s[i] == '|');
        assert(depth(L, i) == 0);
        assert(s.take(L.len() as int) =~= L);
        assert(s.skip(L.len() as int + 1) =~= R);
    } else {
        assert(s[i] == L[i]);
        if L[i] == '|' && depth(L, i) == 0 {
            assert(s.take(i) =~= L.take(i));
            let L2 = L.skip(i + 1);
            assert(s.skip(i + 1) =~= L2 + seq!['|'] + R);
            assert(depth(L, i + 1) == 0);
            assert(balanced(L2)) by {
                lemma_depth_skip(L, i + 1, L2.len() as int);
                assert forall|j: int| 0 <= j <= L2.len() implies depth(L2, j) >= 0 by {
                    lemma_depth_skip(L, i + 1, j);
                }
            }
            lemma_or_concat(L2, R, env, 0);
            assert(depth(L2, 0) == 0);
            assert(L.take(i) =~= s.take(i));
        } else {
            lemma_or_concat(L, R, env, i + 1);
        }
    }
}

/// The AND layer splits a conjunction at its marker: evaluating `L.R` is
/// evaluating `L`, and `R`.
proof fn lemma_and_concat(L: Seq<char>, R: Seq<char>, env: Map<Seq<char>, bool>, i: int)
    requires
        0 <= i <= L.len(),
        balanced(L),
        forall|j: int| 0 <= j < i && L[j] == '.' ==> depth(L, j) >= 1,
    ensures
        and_scan(L + seq!['.'] + R, env, i, depth(L, i)) == (and_scan(L, env, i, depth(L, i))
            && and_scan(R, env, 0, 0)),
    decreases L.len(), L.len() - i,
{
    let s = L + seq!['.'] + R;
    assert(s.len() == L.len() + 1 + R.len());
    if i == L.len() {
        assert(s[i] == '.');
        assert(depth(L, i) == 0);
        assert(s.take(L.len() as int) =~= L);
        assert(s.skip(L.len() as int + 1) =~= R);
    } else {
        assert(s[i] == L[i]);
        if L[i] == '.' && depth(L, i) == 0 {
            assert(s.take(i) =~= L.take(i));
            let L2 = L.skip(i + 1);
            assert(s.skip(i + 1) =~= L2 + seq!['.'] + R);
            assert(depth(L, i + 1) == 0);
            assert(balanced(L2)) by {
                lemma_depth_skip(L, i + 1, L2.len() as int);
                assert forall|j: int| 0 <= j <= L2.len() implies depth(L2, j) >= 0 by {
                    lemma_depth_skip(L, i + 1, j);
                }
            }
            lemma_and_concat(L2, R, env, 0);
            assert(depth(L2, 0) == 0);
            assert(L.take(i) =~= s.take(i));
        } else {
            lemma_and_concat(L, R, env, i + 1);
        }
    }
}

/// Every guard rendered from such a tree is balanced and non-empty, a
/// non-disjunction keeps its OR markers inside parentheses, and a factor
/// keeps both markers inside.
proof fn lemma_render_props(gc: IR, e: EnumExpression)
    requires
        p1_expr(gc, e),
    ensures
        p1_render(gc, e).len() > 0,
        balanced(p1_render(gc, e)),
        !(e is Or) ==> no_top(p1_render(gc, e), '|'),
        (e is Not || e is Compare) ==> no_top(p1_render(gc, e), '.') && no_top(
            p1_render(gc, e),
            '|',
        ),
    decreases e,
{
    match e {
        EnumExpression::And(l, r) => {
            lemma_render_props(gc, *l);
            lemma_render_props(gc, *r);
            let a = wr_or(p1_render(gc, *l));
            let b = wr_or(p1_render(gc, *r));
            lemma_wr_or_props(p1_render(gc, *l));
            lemma_wr_or_props(p1_render(gc, *r));
            lemma_single('.');
            lemma_concat_props(seq!['.'], b);
            lemma_concat_props(a, seq!['.'] + b);
            assert(p1_render(gc, e) =~= a + (seq!['.'] + b));
        },
        EnumExpression::Or(l, r) => {
            lemma_render_props(gc, *l);
            lemma_render_props(gc, *r);
            let a = p1_render(gc, *l);
            let b = p1_render(gc, *r);
            lemma_single('|');
            lemma_concat_props(seq!['|'], b);
            lemma_concat_props(a, seq!['|'] + b);
            assert(p1_render(gc, e) =~= a + (seq!['|'] + b));
        },
        EnumExpression::Not(x) => {
            lemma_render_props(gc, *x);
            let w = wr_and_or(p1_render(gc, *x));
            lemma_wr_and_or_props(p1_render(gc, *x));
            lemma_single('!');
            lemma_concat_props(seq!['!'], w);
            assert(p1_render(gc, e) =~= seq!['!'] + w);
        },
        EnumExpression::Compare(_, _, item) => {
            let a = item.fragment@;
            assert forall|i: int| 0 <= i <= a.len() implies depth(a, i) >= 0 by {
                lemma_atom_depth(a, i);
            }
            lemma_atom_depth(a, a.len() as int);
            assert forall|i: int| 0 <= i < a.len() && a[i] == '|' implies depth(a, i) >= 1 by {
                assert(a[i] != '|');
            }
            assert forall|i: int| 0 <= i < a.len() && a[i] == '.' implies depth(a, i) >= 1 by {
                assert(a[i] != '.');
            }
        },
        _ => {},
    }
}

proof fn lemma_atom_depth(a: Seq<char>, i: int)
    requires
        0 <= i <= a.len(),
        forall|k: int| 0 <= k < a.len() ==> a[k] != '(' && a[k] != ')',
    ensures
        depth(a, i) == 0,
    decreases i,
{
    if i > 0 {
        lemma_atom_depth(a, i - 1);
    }
}

/// Wrapping for the AND layer: the result is balanced, non-empty and has
/// no top-level OR marker.
proof fn lemma_wr_or_props(s: Seq<char>)
    requires
        balanced(s),
        s.len() > 0,
    ensures
        wr_or(s).len() > 0,
        balanced(wr_or(s)),
        no_top(wr_or(s), '|'),
        no_top(s, '.') && no_top(s, '|') ==> no_top(wr_or(s), '.'),
{
    if s.contains('|') {
        lemma_paren_props(s);
    }
}

/// Wrapping for the factor layer: the result is balanced, non-empty and
/// has neither marker at top level.
proof fn lemma_wr_and_or_props(s: Seq<char>)
    requires
        balanced(s),
        s.len() > 0,
    ensures
        wr_and_or(s).len() > 0,
        balanced(wr_and_or(s)),
        no_top(wr_and_or(s), '|'),
        no_top(wr_and_or(s), '.'),
{
    if s.contains('|') || s.contains('.') {
        lemma_paren_props(s);
    } else {
        assert forall|i: int| 0 <= i < s.len() && s[i] == '|' implies depth(s, i) >= 1 by {
            assert(!s.contains('|'));
        }
        assert forall|i: int| 0 <= i < s.len() && s[i] == '.' implies depth(s, i) >= 1 by {
            assert(!s.contains('.'));
        }
    }
}

/// A balanced segment in parentheses is balanced, and everything inside
/// stands at positive depth.
proof fn lemma_paren_props(s: Seq<char>)
    requires
        balanced(s),
    ensures
        balanced(seq!['('] + s + seq![')']),
        no_top(seq!['('] + s + seq![')'], '|'),
        no_top(seq!['('] + s + seq![')'], '.'),
{
    let w = seq!['('] + s + seq![')'];
    assert(w =~= seq!['('] + (s + seq![')']));
    assert forall|i: int| 0 <= i <= w.len() implies depth(w, i) == spec_paren_depth(s, i) by {
        lemma_paren_depth(s, i);
    }
}

/// The depth inside a parenthesized segment: one more than the inner depth
/// between the parentheses.
pub open spec fn spec_paren_depth(s: Seq<char>, i: int) -> int {
    if i <= 0 {
        0
    } else if i <= s.len() + 1 {
        1 + depth(s, i - 1)
    } else {
        0
    }
}

proof fn lemma_paren_depth(s: Seq<char>, i: int)
    requires
        0 <= i <= s.len() + 2,
        depth(s, s.len() as int) == 0,
    ensures
        depth(seq!['('] + s + seq![')'], i) == spec_paren_depth(s, i),
    decreases i,
{
    let w = seq!['('] + s + seq![')'];
    if i > 0 {
        lemma_paren_depth(s, i - 1);
        if i - 1 == 0 {
            assert(w[0] == '(');
        } else if i - 1 <= s.len() {
            assert(w[i - 1] == s[i - 2]);
        } else {
            assert(w[i - 1] == ')');
        }
    }
}

/// One wrapped operand of the AND layer evaluates as the whole OR layer of
/// its unwrapped text.
proof fn lemma_and_scan_wrapped(s: Seq<char>, env: Map<Seq<char>, bool>)
    requires
        balanced(s),
        s.len() > 0,
    ensures
        and_scan(wr_or(s), env, 0, 0) == or_scan(s, env, 0, 0),
{
    if s.contains('|') {
        let w = seq!['('] + s + seq![')'];
        lemma_paren_props(s);
        lemma_and_no_split(w, env, 0);
        assert(w.len() >= 2);
        assert(w[0] == '(');
        assert(w[w.len() - 1] == ')');
        assert(w.subrange(1, w.len() - 1) =~= s);
    } else {
        assert(no_top(s, '|')) by {
            assert forall|i: int| 0 <= i < s.len() && s[i] == '|' implies depth(s, i) >= 1 by {
                assert(!s.contains('|'));
            }
        }
        lemma_or_no_split(s, env, 0);
    }
}

/// Lowering preserves meaning: the rendered guard of a tree built from
/// conjunction, disjunction, negation and global comparisons evaluates,
/// under the algebra's own semantics, to exactly the tree's truth value,
/// for every assignment of the classes.
pub proof fn lemma_lowering_preserves_semantics(
    gc: IR,
    e: EnumExpression,
    env: Map<Seq<char>, bool>,
)
    requires
        p1_expr(gc, e),
    ensures
        class_eval(p1_render(gc, e), env) == tree_eval(gc, e, env),
        no_top(p1_render(gc, e), '|') && no_top(p1_render(gc, e), '.') ==> not_eval(
            p1_render(gc, e),
            env,
        ) == tree_eval(gc, e, env),
    decreases e,
{
    lemma_render_props(gc, e);
    match e {
        EnumExpression::And(l, r) => {
            lemma_lowering_preserves_semantics(gc, *l, env);
            lemma_lowering_preserves_semantics(gc, *r, env);
            lemma_render_props(gc, *l);
            lemma_render_props(gc, *r);
            let rl = p1_render(gc, *l);
            let rr = p1_render(gc, *r);
            let a = wr_or(rl);
            let b = wr_or(rr);
            lemma_wr_or_props(rl);
            lemma_wr_or_props(rr);
            let full = p1_render(gc, e);
            assert(full =~= a + seq!['.'] + b);
            lemma_or_no_split(full, env, 0);
            lemma_and_concat(a, b, env, 0);
            lemma_and_scan_wrapped(rl, env);
            lemma_and_scan_wrapped(rr, env);
            assert(and_scan(a, env, 0, 0) == tree_eval(gc, *l, env));
            assert(and_scan(b, env, 0, 0) == tree_eval(gc, *r, env));
            assert(full[a.len() as int] == '.');
            assert(depth(full, a.len() as int) == 0) by {
                lemma_depth_concat_left(a, seq!['.'] + b, a.len() as int);
                assert(full =~= a + (seq!['.'] + b));
            }
            assert(!no_top(full, '.'));
        },
        EnumExpression::Or(l, r) => {
            lemma_lowering_preserves_semantics(gc, *l, env);
            lemma_lowering_preserves_semantics(gc, *r, env);
            lemma_render_props(gc, *l);
            lemma_render_props(gc, *r);
            let rl = p1_render(gc, *l);
            let rr = p1_render(gc, *r);
            let full = p1_render(gc, e);
            assert(full =~= rl + seq!['|'] + rr);
            lemma_or_concat(rl, rr, env, 0);
            assert(or_scan(full, env, 0, depth(rl, 0)) == class_eval(full, env));
            assert(full[rl.len() as int] == '|');
            assert(depth(full, rl.len() as int) == 0) by {
                lemma_depth_concat_left(rl, seq!['|'] + rr, rl.len() as int);
                assert(full =~= rl + (seq!['|'] + rr));
            }
            assert(!no_top(full, '|'));
        },
        EnumExpression::Not(x) => {
            lemma_lowering_preserves_semantics(gc, *x, env);
            lemma_render_props(gc, *x);
            let rx = p1_render(gc, *x);
            let w = wr_and_or(rx);
            lemma_wr_and_or_props(rx);
            let full = p1_render(gc, e);
            assert(full =~= seq!['!'] + w);
            lemma_single('!');
            assert(no_top(full, '|') && no_top(full, '.')) by {
                lemma_concat_props(seq!['!'], w);
            }
            lemma_or_no_split(full, env, 0);
            lemma_and_no_split(full, env, 0);
            assert(full[0] == '!');
            assert(full.skip(1) =~= w);
            if rx.contains('|') || rx.contains('.') {
                assert(w =~= seq!['('] + rx + seq![')']);
                assert(w.len() >= 2);
                assert(w[0] == '(');
                assert(w[w.len() - 1] == ')');
                assert(w.subrange(1, w.len() - 1) =~= rx);
                assert(not_eval(w, env) == class_eval(rx, env));
            } else {
                assert(w == rx);
                assert(no_top(rx, '|') && no_top(rx, '.')) by {
                    assert forall|i: int|
                        0 <= i < rx.len() && (rx[i] == '|' || rx[i] == '.') implies depth(
                        rx,
                        i,
                    ) >= 1 by {
                        assert(!rx.contains('|'));
                        assert(!rx.contains('.'));
                    }
                }
                assert(not_eval(rx, env) == tree_eval(gc, *x, env));
            }
        },
        EnumExpression::Compare(_, _, item) => {
            let a = item.fragment@;
            lemma_or_no_split(a, env, 0);
            lemma_and_no_split(a, env, 0);
            assert(a[0] != '!');
            assert(a[a.len() - 1] != ')');
            assert(not_eval(a, env) == env[a]);
        },
        _ => {},
    }
}

/// Concatenation keeps balance and top-level-freedom when the pieces have
/// them.
proof fn lemma_concat_props(a: Seq<char>, b: Seq<char>)
    requires
        balanced(a),
        balanced(b),
    ensures
        balanced(a + b),
        no_top(a, '|') && no_top(b, '|') ==> no_top(a + b, '|'),
        no_top(a, '.') && no_top(b, '.') ==> no_top(a + b, '.'),
{
    let s = a + b;
    assert forall|i: int| 0 <= i <= s.len() implies depth(s, i) == (if i <= a.len() {
        depth(a, i)
    } else {
        depth(b, i - a.len())
    }) by {
        if i <= a.len() {
            lemma_depth_concat_left(a, b, i);
        } else {
            lemma_depth_concat_right(a, b, i - a.len());
        }
    }
    assert forall|i: int| 0 <= i < s.len() implies s[i] == (if i < a.len() {
        a[i]
    } else {
        b[i - a.len()]
    }) by {}
}

/// Re-parenthesizing an equivalent boolean formula yields a semantically
/// equivalent guard: two trees of conjunction, disjunction, negation and
/// global comparisons that agree on every assignment lower, in any
/// generation contexts, to guards that the target algebra evaluates alike
/// on every assignment.
pub proof fn lemma_reparenthesization_equivalent(
    gc: IR,
    e1: EnumExpression,
    e2: EnumExpression,
    ctx1: GenCtx,
    ctx2: GenCtx,
    env: Map<Seq<char>, bool>,
)
    requires
        p1_expr(gc, e1),
        p1_expr(gc, e2),
        forall|env2: Map<Seq<char>, bool>| tree_eval(gc, e1, env2) == tree_eval(gc, e2, env2),
    ensures
        spec_format_case_expr(gc, e1, ctx1) == TextOut::Done(p1_render(gc, e1)),
        spec_format_case_expr(gc, e2, ctx2) == TextOut::Done(p1_render(gc, e2)),
        class_eval(p1_render(gc, e1), env) == class_eval(p1_render(gc, e2), env),
{
    lemma_p1_renders(gc, e1, ctx1);
    lemma_p1_renders(gc, e2, ctx2);
    lemma_lowering_preserves_semantics(gc, e1, env);
    lemma_lowering_preserves_semantics(gc, e2, env);
    assert(tree_eval(gc, e1, env) == tree_eval(gc, e2, env));
}

} // verus!
