//! Wildcard matching of application names against ignore patterns
//! (`*` matches any run of characters, `?` matches one character).
use vstd::prelude::*;
use crate::utils::text::chars_of;

verus! {

/// Glob semantics: does pattern `p` match all of text `t`?
pub open spec fn glob(t: Seq<char>, p: Seq<char>) -> bool
    decreases t.len() + p.len(),
{
    if p.len() == 0 {
        t.len() == 0
    } else if p[0] == '*' {
        glob(t, p.drop_first()) || (t.len() > 0 && glob(t.drop_first(), p))
    } else {
        t.len() > 0 && (p[0] == '?' || p[0] == t[0]) && glob(t.drop_first(), p.drop_first())
    }
}

/// Every character of `s` is `*`.
pub open spec fn all_stars(s: Seq<char>) -> bool {
    forall|i: int| 0 <= i < s.len() ==> s[i] == '*'
}

/// The text holds no `*`.
pub open spec fn star_free(s: Seq<char>) -> bool {
    forall|i: int| 0 <= i < s.len() ==> s[i] != '*'
}

/// A state of the single-backtrack matcher is well formed.
pub open spec fn run_state_ok(t: Seq<char>, p: Seq<char>, ti: int, pi: int, st: int, sp: int) -> bool {
    &&& 0 <= ti <= t.len()
    &&& 0 <= pi <= p.len()
    &&& -1 <= st <= ti
    &&& st >= 0 ==> 0 <= sp < pi
}

/// The outcome of the matcher: a character of the pattern is consumed against one of the
/// text when it is `?` or the same character; otherwise a `*` of the pattern records a
/// resumption point; otherwise the matcher resumes after the last `*`, giving it one more
/// character of the text; with no `*` seen it fails. When the text is used up, the rest of
/// the pattern must be all `*`. `st < 0` means that no `*` has been seen yet.
pub open spec fn wildcard_run(t: Seq<char>, p: Seq<char>, ti: int, pi: int, st: int, sp: int) -> bool
    decreases t.len() - st, t.len() - ti + p.len() - pi,
{
    if !run_state_ok(t, p, ti, pi, st, sp) {
        false
    } else if ti < t.len() {
        if pi < p.len() && (p[pi] == '?' || p[pi] == t[ti]) {
            wildcard_run(t, p, ti + 1, pi + 1, st, sp)
        } else if pi < p.len() && p[pi] == '*' {
            wildcard_run(t, p, ti, pi + 1, ti, pi)
        } else if st >= 0 {
            wildcard_run(t, p, st + 1, sp + 1, st + 1, sp)
        } else {
            false
        }
    } else {
        all_stars(p.skip(pi))
    }
}

/// What the matcher computes for a whole text and pattern.
pub open spec fn wildcard_spec(t: Seq<char>, p: Seq<char>) -> bool {
    wildcard_run(t, p, 0, 0, -1, 0)
}

proof fn lemma_glob_empty_text(q: Seq<char>)
    ensures
        glob(Seq::empty(), q) == all_stars(q),
    decreases q.len(),
{
    if q.len() > 0 {
        lemma_glob_empty_text(q.drop_first());
        lemma_all_stars_step(q);
    }
}

/// A pattern starting with `*` matches exactly when its rest matches some suffix.
proof fn lemma_glob_star(s: Seq<char>, q: Seq<char>)
    requires
        q.len() > 0,
        q[0] == '*',
    ensures
        glob(s, q) == (exists|k: int| 0 <= k <= s.len() && #[trigger] glob(s.skip(k), q.drop_first())),
    decreases s.len(),
{
    let q1 = q.drop_first();
    assert(s.skip(0) =~= s);
    if s.len() > 0 {
        let s1 = s.drop_first();
        lemma_glob_star(s1, q);
        if glob(s, q) {
            if glob(s, q1) {
                assert(glob(s.skip(0), q1));
            } else {
                assert(glob(s1, q));
                let k = choose|k: int| 0 <= k <= s1.len() && #[trigger] glob(s1.skip(k), q1);
                assert(s1.skip(k) =~= s.skip(k + 1));
                assert(glob(s.skip(k + 1), q1));
            }
        }
        if exists|k: int| 0 <= k <= s.len() && #[trigger] glob(s.skip(k), q1) {
            let k = choose|k: int| 0 <= k <= s.len() && #[trigger] glob(s.skip(k), q1);
            if k > 0 {
                assert(s1.skip(k - 1) =~= s.skip(k));
                assert(glob(s1.skip(k - 1), q1));
                assert(glob(s1, q));
            }
        }
    } else {
        if glob(s, q) {
            assert(glob(s.skip(0), q1));
        }
        if exists|k: int| 0 <= k <= s.len() && #[trigger] glob(s.skip(k), q1) {
            let k = choose|k: int| 0 <= k <= s.len() && #[trigger] glob(s.skip(k), q1);
            assert(k == 0);
        }
    }
}

/// A star-free prefix of length `m` of the pattern consumes exactly `m` characters.
proof fn lemma_glob_literal(s: Seq<char>, q: Seq<char>, m: int)
    requires
        0 <= m <= q.len(),
        forall|i: int| 0 <= i < m ==> q[i] != '*',
    ensures
        glob(s, q) == (m <= s.len() && (forall|i: int| 0 <= i < m ==> q[i] == '?' || q[i] == s[i])
            && glob(s.skip(m), q.skip(m))),
    decreases m,
{
    if m == 0 {
        assert(s.skip(0) =~= s);
        assert(q.skip(0) =~= q);
    } else if s.len() > 0 {
        let s1 = s.drop_first();
        let q1 = q.drop_first();
        assert(q[0] != '*');
        assert forall|i: int| 0 <= i < m - 1 implies q1[i] != '*' by {
            assert(q[i + 1] != '*');
        }
        lemma_glob_literal(s1, q1, m - 1);
        if m <= s.len() {
            assert(s1.skip(m - 1) =~= s.skip(m));
            assert(q1.skip(m - 1) =~= q.skip(m));
            if forall|i: int| 0 <= i < m ==> q[i] == '?' || q[i] == s[i] {
                assert forall|i: int| 0 <= i < m - 1 implies q1[i] == '?' || q1[i] == s1[i] by {
                    assert(q[i + 1] == '?' || q[i + 1] == s[i + 1]);
                }
            }
            if (q[0] == '?' || q[0] == s[0]) && (forall|i: int|
                0 <= i < m - 1 ==> q1[i] == '?' || q1[i] == s1[i]) {
                assert forall|i: int| 0 <= i < m implies q[i] == '?' || q[i] == s[i] by {
                    if i > 0 {
                        assert(q1[i - 1] == '?' || q1[i - 1] == s1[i - 1]);
                    }
                }
            }
        }
    }
}

/// A nonempty sequence is all `*` when its head is and its tail is.
proof fn lemma_all_stars_step(q: Seq<char>)
    requires
        q.len() > 0,
    ensures
        all_stars(q) == (q[0] == '*' && all_stars(q.drop_first())),
{
    if q[0] == '*' && all_stars(q.drop_first()) {
        assert forall|i: int| 0 <= i < q.len() implies q[i] == '*' by {
            if i > 0 {
                assert(q.drop_first()[i - 1] == q[i]);
            }
        }
    }
}

/// What remains to be matched in a matcher state, in glob terms.
pub open spec fn run_goal(t: Seq<char>, p: Seq<char>, ti: int, pi: int, st: int, sp: int) -> bool {
    if st < 0 {
        glob(t.skip(ti), p.skip(pi))
    } else {
        exists|j: int| st <= j <= t.len() && #[trigger] glob(t.skip(j), p.skip(sp + 1))
    }
}

/// Since the last `*` (at `sp`), the pattern has consumed `t[st..ti]` character by character.
pub open spec fn run_segment_ok(t: Seq<char>, p: Seq<char>, ti: int, pi: int, st: int, sp: int) -> bool {
    st >= 0 ==> {
        &&& p[sp] == '*'
        &&& ti - st == pi - sp - 1
        &&& forall|k: int| sp < k < pi ==> #[trigger] p[k] != '*' && (p[k] == '?' || p[k] == t[st + k
            - sp - 1])
    }
}

proof fn lemma_segment_literal(t: Seq<char>, p: Seq<char>, ti: int, pi: int, st: int, sp: int)
    requires
        run_state_ok(t, p, ti, pi, st, sp),
        run_segment_ok(t, p, ti, pi, st, sp),
        st >= 0,
    ensures
        glob(t.skip(st), p.skip(sp + 1)) == glob(t.skip(ti), p.skip(pi)),
        forall|j: int| st < j <= t.len() ==> !#[trigger] glob(t.skip(j), p.skip(sp + 1)) || ti < t.len(),
{
    let q = p.skip(sp + 1);
    let m = ti - st;
    assert forall|i: int| 0 <= i < m implies q[i] != '*' by {
        assert(q[i] == p[sp + 1 + i]);
    }
    lemma_glob_literal(t.skip(st), q, m);
    assert(t.skip(st).skip(m) =~= t.skip(ti));
    assert(q.skip(m) =~= p.skip(pi));
    assert forall|i: int| 0 <= i < m implies q[i] == '?' || q[i] == t.skip(st)[i] by {
        assert(q[i] == p[sp + 1 + i]);
        assert(t.skip(st)[i] == t[st + i]);
    }
    assert forall|j: int| st < j <= t.len() implies !#[trigger] glob(t.skip(j), q) || ti < t.len() by {
        if ti == t.len() {
            lemma_glob_literal(t.skip(j), q, m);
        }
    }
}

/// For texts without `*`, the matcher decides glob matching.
proof fn lemma_run_is_glob(t: Seq<char>, p: Seq<char>, ti: int, pi: int, st: int, sp: int)
    requires
        star_free(t),
        run_state_ok(t, p, ti, pi, st, sp),
        run_segment_ok(t, p, ti, pi, st, sp),
    ensures
        wildcard_run(t, p, ti, pi, st, sp) == run_goal(t, p, ti, pi, st, sp),
    decreases t.len() - st, t.len() - ti + p.len() - pi,
{
    if ti < t.len() {
        let s = t.skip(ti);
        assert(s[0] == t[ti]);
        assert(s.drop_first() =~= t.skip(ti + 1));
        if pi < p.len() && (p[pi] == '?' || p[pi] == t[ti]) {
            assert(p[pi] != '*');
            assert(p.skip(pi)[0] == p[pi]);
            assert(p.skip(pi).drop_first() =~= p.skip(pi + 1));
            lemma_run_is_glob(t, p, ti + 1, pi + 1, st, sp);
        } else if pi < p.len() && p[pi] == '*' {
            lemma_run_is_glob(t, p, ti, pi + 1, ti, pi);
            assert(p.skip(pi)[0] == '*');
            assert(p.skip(pi).drop_first() =~= p.skip(pi + 1));
            lemma_glob_star(s, p.skip(pi));
            // glob(t[ti..], p[pi..]) <==> some j >= ti has glob(t[j..], p[pi+1..])
            assert(glob(s, p.skip(pi)) == (exists|j: int| ti <= j <= t.len() && #[trigger] glob(t.skip(j), p.skip(pi + 1)))) by {
                if glob(s, p.skip(pi)) {
                    let k = choose|k: int| 0 <= k <= s.len() && #[trigger] glob(s.skip(k), p.skip(pi).drop_first());
                    assert(s.skip(k) =~= t.skip(ti + k));
                }
                if exists|j: int| ti <= j <= t.len() && #[trigger] glob(t.skip(j), p.skip(pi + 1)) {
                    let j = choose|j: int| ti <= j <= t.len() && #[trigger] glob(t.skip(j), p.skip(pi + 1));
                    assert(s.skip(j - ti) =~= t.skip(j));
                }
            }
            if st >= 0 {
                let q = p.skip(sp + 1);
                let m = ti - st;
                assert forall|i: int| 0 <= i < m implies q[i] != '*' by {
                    assert(q[i] == p[sp + 1 + i]);
                }
                assert(q.skip(m) =~= p.skip(pi));
                assert(run_goal(t, p, ti, pi, st, sp) == glob(s, p.skip(pi))) by {
                    lemma_segment_literal(t, p, ti, pi, st, sp);
                    if run_goal(t, p, ti, pi, st, sp) {
                        let j = choose|j: int| st <= j <= t.len() && #[trigger] glob(t.skip(j), q);
                        lemma_glob_literal(t.skip(j), q, m);
                        assert(t.skip(j).skip(m) =~= t.skip(j + m));
                        lemma_glob_star(t.skip(j + m), p.skip(pi));
                        let k = choose|k: int| 0 <= k <= t.skip(j + m).len() && #[trigger] glob(t.skip(j + m).skip(k), p.skip(pi).drop_first());
                        assert(t.skip(j + m).skip(k) =~= t.skip(j + m + k));
                        assert(glob(t.skip(j + m + k), p.skip(pi + 1)));
                        assert(ti <= j + m + k <= t.len());
                    }
                }
            }
        } else if st >= 0 {
            lemma_segment_literal(t, p, ti, pi, st, sp);
            // the resumption at st fails
            assert(!glob(s, p.skip(pi))) by {
                if pi < p.len() {
                    assert(p.skip(pi)[0] == p[pi]);
                }
            }
            lemma_run_is_glob(t, p, st + 1, sp + 1, st + 1, sp);
            let q = p.skip(sp + 1);
            assert(run_goal(t, p, ti, pi, st, sp) == run_goal(t, p, st + 1, sp + 1, st + 1, sp)) by {
                if run_goal(t, p, ti, pi, st, sp) {
                    let j = choose|j: int| st <= j <= t.len() && #[trigger] glob(t.skip(j), q);
                    assert(j != st);
                }
            }
        } else {
            if pi < p.len() {
                assert(p.skip(pi)[0] == p[pi]);
            }
        }
    } else {
        assert(t.skip(ti) =~= Seq::<char>::empty());
        lemma_glob_empty_text(p.skip(pi));
        if st >= 0 {
            lemma_segment_literal(t, p, ti, pi, st, sp);
            let q = p.skip(sp + 1);
            if run_goal(t, p, ti, pi, st, sp) {
                let j = choose|j: int| st <= j <= t.len() && #[trigger] glob(t.skip(j), q);
            }
        }
    }
}

/// `needle` occurs in `hay` as a contiguous run.
pub open spec fn has_substring(hay: Seq<char>, needle: Seq<char>) -> bool {
    exists|i: int| 0 <= i && i + needle.len() <= hay.len() && #[trigger] hay.subrange(i, i + needle.len()) == needle
}

/// A pattern without wildcards.
pub open spec fn literal(p: Seq<char>) -> bool {
    forall|i: int| 0 <= i < p.len() ==> p[i] != '*' && p[i] != '?'
}

/// The pattern `p` with a `*` on each side: it matches a text that has a match of `p`
/// somewhere inside.
pub open spec fn anywhere(p: Seq<char>) -> Seq<char> {
    seq!['*'] + p + seq!['*']
}

/// On texts without `*`, the matcher decides glob matching.
pub proof fn lemma_wildcard_is_glob(t: Seq<char>, p: Seq<char>)
    requires
        star_free(t),
    ensures
        wildcard_spec(t, p) == glob(t, p),
{
    assert(t.skip(0) =~= t);
    assert(p.skip(0) =~= p);
    lemma_run_is_glob(t, p, 0, 0, -1, 0);
}

/// A lone `*` matches every text.
proof fn lemma_glob_anything(x: Seq<char>)
    ensures
        glob(x, seq!['*']),
{
    lemma_glob_star(x, seq!['*']);
    assert(seq!['*'].drop_first() =~= Seq::<char>::empty());
    assert(x.skip(x.len() as int) =~= Seq::<char>::empty());
    assert(glob(x.skip(x.len() as int), seq!['*'].drop_first()));
}

/// A pattern without wildcards, with a `*` on each side, matches a text without `*`
/// exactly when the pattern occurs in the text.
pub proof fn lemma_anywhere_literal(t: Seq<char>, p: Seq<char>)
    requires
        star_free(t),
        literal(p),
    ensures
        wildcard_spec(t, anywhere(p)) == has_substring(t, p),
{
    let q = anywhere(p);
    let q1 = q.drop_first();
    let m = p.len() as int;
    lemma_wildcard_is_glob(t, q);
    assert(q[0] == '*');
    lemma_glob_star(t, q);
    assert(q1 =~= p + seq!['*']);
    assert(q1.skip(m) =~= seq!['*']);
    assert forall|j: int| 0 <= j < m implies q1[j] != '*' && q1[j] == p[j] by {
        assert(q1[j] == p[j]);
    }
    if has_substring(t, p) {
        let i = choose|i: int| 0 <= i && i + p.len() <= t.len() && #[trigger] t.subrange(i, i + p.len()) == p;
        let s = t.skip(i);
        lemma_glob_literal(s, q1, m);
        assert forall|j: int| 0 <= j < m implies q1[j] == '?' || q1[j] == s[j] by {
            assert(t.subrange(i, i + p.len())[j] == p[j]);
        }
        lemma_glob_anything(s.skip(m));
        assert(glob(t.skip(i), q1));
    }
    if glob(t, q) {
        let k = choose|k: int| 0 <= k <= t.len() && #[trigger] glob(t.skip(k), q1);
        let s = t.skip(k);
        lemma_glob_literal(s, q1, m);
        assert(t.subrange(k, k + m) =~= p) by {
            assert forall|j: int| 0 <= j < m implies t.subrange(k, k + m)[j] == p[j] by {
                assert(q1[j] == '?' || q1[j] == s[j]);
            }
        }
    }
}

/// A pattern without wildcards matches exactly the text equal to it.
pub proof fn lemma_literal_glob(t: Seq<char>, p: Seq<char>)
    requires
        literal(p),
    ensures
        glob(t, p) == (t == p),
{
    let m = p.len() as int;
    lemma_glob_literal(t, p, m);
    assert(p.skip(m) =~= Seq::<char>::empty());
    if glob(t, p) {
        assert(t.skip(m).len() == 0);
        assert(t =~= p);
    }
    if t == p {
        assert(t.skip(m) =~= Seq::<char>::empty());
    }
}

/// Whether `text` matches `pattern`, where `*` stands for any run of characters and `?` for
/// any one character. A `?` or an equal character of the pattern is consumed before a `*`
/// is treated as a wildcard, so a `*` of the text can be taken literally by a `*` of the
/// pattern; for texts without `*` this is glob matching.
pub fn wildcard_match(text: &str, pattern: &str) -> (r: bool)
    ensures
        r == wildcard_spec(text@, pattern@),
        star_free(text@) ==> (r == glob(text@, pattern@)),
{
    let tc = chars_of(text);
    let pc = chars_of(pattern);
    let ghost t = tc@;
    let ghost p = pc@;
    let mut ti: usize = 0;
    let mut pi: usize = 0;
    let mut sti: Option<usize> = None;
    let mut spi: Option<usize> = None;
    proof {
        assert(t.skip(0) =~= t);
        assert(p.skip(0) =~= p);
        if star_free(t) {
            lemma_run_is_glob(t, p, 0, 0, -1, 0);
        }
    }
    while ti < tc.len()
        invariant
            t == tc@,
            p == pc@,
            t == text@,
            p == pattern@,
            star_free(t) ==> (wildcard_spec(t, p) == glob(t, p)),
            sti.is_some() == spi.is_some(),
            run_state_ok(t, p, ti as int, pi as int, if sti.is_some() { sti.unwrap() as int } else { -1 },
                if spi.is_some() { spi.unwrap() as int } else { 0 }),
            wildcard_run(t, p, ti as int, pi as int, if sti.is_some() { sti.unwrap() as int } else { -1 },
                if spi.is_some() { spi.unwrap() as int } else { 0 }) == wildcard_spec(t, p),
        decreases
            tc.len() - (if sti.is_some() { sti.unwrap() as int } else { -1 }),
            tc.len() - ti + pc.len() - pi,
    {
        if pi < pc.len() && (pc[pi] == '?' || pc[pi] == tc[ti]) {
            ti += 1;
            pi += 1;
        } else if pi < pc.len() && pc[pi] == '*' {
            sti = Some(ti);
            spi = Some(pi);
            pi += 1;
        } else if let Some(st) = sti {
            ti = st + 1;
            sti = Some(ti);
            pi = spi.unwrap() + 1;
        } else {
            return false;
        }
    }
    while pi < pc.len() && pc[pi] == '*'
        invariant
            p == pc@,
            pi <= pc.len(),
            all_stars(p.skip(pi as int)) == wildcard_spec(t, p),
            star_free(t) ==> (wildcard_spec(t, p) == glob(t, p)),
        decreases pc.len() - pi,
    {
        proof {
            assert(p.skip(pi as int)[0] == '*');
            assert(p.skip(pi as int).drop_first() =~= p.skip(pi + 1));
            lemma_all_stars_step(p.skip(pi as int));
        }
        pi += 1;
    }
    proof {
        if pi < pc.len() {
            assert(p.skip(pi as int)[0] != '*');
        } else {
            assert(p.skip(pi as int).len() == 0);
        }
    }
    pi == pc.len()
}

} // verus!
