//! Laws of the locator: how the classic and the modern addressing schemes
//! read back the names they were written from.
use vstd::prelude::*;

use crate::job::{
    all_decode, blue_marker, classic_match_at, classic_names_from, decoded, folder_separator,
    job_marker, job_route, located_job, modern_component_from, modern_match_at, run_end, scheme_of,
    JobView, LocatorError, Scheme,
};
use crate::text::{is_digit, join_with, lemma_join_first, lemma_split_skip, occurs_at, split_from};

verus! {

/// A name as it stands in a path: not empty, and without `/`.
pub open spec fn plain_name(n: Seq<char>) -> bool {
    n.len() > 0 && forall|i: int| 0 <= i < n.len() ==> n[i] != '/'
}

/// What may follow the last name of a classic path: nothing, or a `/` and
/// then only slashes and digits (a trailing slash, a build number, or both).
pub open spec fn build_tail(t: Seq<char>) -> bool {
    &&& (t.len() == 0 || t[0] == '/')
    &&& forall|i: int| 0 <= i < t.len() ==> t[i] == '/' || is_digit(t[i])
}

/// `/job/`
pub open spec fn classic_separator() -> Seq<char> {
    seq!['/'] + job_marker()
}

/// `/job/<name>/job/<name>/...` followed by `tail`.
pub open spec fn classic_path(names: Seq<Seq<char>>, tail: Seq<char>) -> Seq<char> {
    classic_separator() + join_with(names, classic_separator()) + tail
}

/// `/blue/organizations/jenkins/<name>%2F<name>...` followed by `tail`.
pub open spec fn modern_path(names: Seq<Seq<char>>, tail: Seq<char>) -> Seq<char> {
    blue_marker() + join_with(names, folder_separator()) + tail
}

/// Whether `n` holds no escaped folder separator.
pub open spec fn no_folder_separator(n: Seq<char>) -> bool {
    forall|k: int| !#[trigger] occurs_at(n, k, folder_separator())
}

proof fn lemma_run_over(p: Seq<char>, a: int, n: int)
    requires
        0 <= a,
        0 <= n,
        a + n <= p.len(),
        forall|i: int| a <= i < a + n ==> p[i] != '/',
        a + n == p.len() || p[a + n] == '/',
    ensures
        run_end(p, a) == a + n,
    decreases n,
{
    if n > 0 {
        lemma_run_over(p, a + 1, n - 1);
    }
}

proof fn lemma_tail_has_no_names(p: Seq<char>, k: int)
    requires
        0 <= k <= p.len(),
        forall|i: int| k <= i < p.len() ==> p[i] == '/' || is_digit(p[i]),
    ensures
        classic_names_from(p, k) == Seq::<Seq<char>>::empty(),
    decreases p.len() - k,
{
    if k < p.len() {
        if k + 4 <= p.len() {
            assert(p.subrange(k, k + 4)[0] != job_marker()[0]);
        }
        lemma_tail_has_no_names(p, k + 1);
    }
}

proof fn lemma_classic_scan(p: Seq<char>, x: int, names: Seq<Seq<char>>, tail: Seq<char>)
    requires
        names.len() > 0,
        forall|i: int| 0 <= i < names.len() ==> plain_name(#[trigger] names[i]),
        build_tail(tail),
        0 <= x <= p.len(),
        p.subrange(x, p.len() as int) == job_marker() + join_with(names, classic_separator()) + tail,
    ensures
        classic_names_from(p, x) == names,
    decreases names.len(),
{
    let sep = classic_separator();
    let n0 = names[0];
    assert(plain_name(n0));
    let e = x + 4 + n0.len();
    let rest = if names.len() == 1 {
        tail
    } else {
        sep + join_with(names.drop_first(), sep) + tail
    };
    if names.len() >= 2 {
        lemma_join_first(names, sep);
    }
    let q = p.subrange(x, p.len() as int);
    assert(job_marker().len() == 4);
    assert(q =~= job_marker() + n0 + rest);
    assert(q.len() == p.len() - x);
    assert(x + 4 + n0.len() + rest.len() == p.len());
    assert(p.subrange(x, x + 4) =~= job_marker()) by {
        assert forall|i: int| 0 <= i < 4 implies #[trigger] p.subrange(x, x + 4)[i] == job_marker()[i] by {
            assert(q[i] == p[x + i]);
        }
    }
    assert forall|i: int| 0 <= i < n0.len() implies p[x + 4 + i] == n0[i] by {
        assert(q[4 + i] == p[x + 4 + i]);
    }
    assert(p.subrange(e, p.len() as int) =~= rest) by {
        assert forall|i: int| 0 <= i < rest.len() implies #[trigger] p.subrange(e, p.len() as int)[i] == rest[i] by {
            assert(q[4 + n0.len() + i] == p[e + i]);
        }
    }
    if e < p.len() {
        assert(p.subrange(e, p.len() as int)[0] == p[e]);
        assert(rest[0] == '/');
    }
    assert forall|i: int| x + 4 <= i < x + 4 + n0.len() implies p[i] != '/' by {
        assert(p[x + 4 + (i - x - 4)] == n0[i - x - 4]);
    }
    lemma_run_over(p, x + 4, n0.len() as int);
    assert(p.subrange(x + 4, e) =~= n0);
    assert(classic_match_at(p, x));
    assert(classic_names_from(p, x) == seq![n0] + classic_names_from(p, e));
    if names.len() == 1 {
        assert forall|i: int| e <= i < p.len() implies p[i] == '/' || is_digit(p[i]) by {
            assert(p.subrange(e, p.len() as int)[i - e] == p[i]);
        }
        lemma_tail_has_no_names(p, e);
        assert(names =~= seq![n0]);
    } else {
        assert(p[e] == '/');
        if e + 4 <= p.len() {
            assert(p.subrange(e, e + 4)[0] != job_marker()[0]);
        }
        assert(!classic_match_at(p, e));
        assert(classic_names_from(p, e) == classic_names_from(p, e + 1));
        let rest_names = names.drop_first();
        assert(p.subrange(e + 1, p.len() as int) =~= job_marker() + join_with(rest_names, sep) + tail) by {
            assert(rest =~= seq!['/'] + (job_marker() + join_with(rest_names, sep) + tail));
            assert forall|i: int| 0 <= i < p.len() - (e + 1) implies #[trigger] p.subrange(e + 1, p.len() as int)[i]
                == p.subrange(e, p.len() as int)[i + 1] by {}
        }
        assert forall|i: int| 0 <= i < rest_names.len() implies plain_name(#[trigger] rest_names[i]) by {
            assert(rest_names[i] == names[i + 1]);
        }
        lemma_classic_scan(p, e + 1, rest_names, tail);
        assert(names =~= seq![n0] + rest_names);
    }
}

/// A classic path locates the job whose path is its names, decoded, on its
/// server, whatever trailing slash or build number follows the last name.
pub proof fn lemma_classic_path_names(base: Seq<char>, names: Seq<Seq<char>>, tail: Seq<char>)
    requires
        names.len() > 0,
        forall|i: int| 0 <= i < names.len() ==> plain_name(#[trigger] names[i]),
        build_tail(tail),
    ensures
        located_job(base, classic_path(names, tail)) == if all_decode(names) {
            Ok(JobView { segments: decoded(names), base })
        } else {
            Err(LocatorError::BadEncoding)
        },
{
    let sep = classic_separator();
    let p = classic_path(names, tail);
    reveal_strlit("/job/");
    assert(p.subrange(0, 5) =~= "/job/"@);
    assert(scheme_of(p) == Some(Scheme::Classic));
    assert(p[0] == '/');
    if 4 <= p.len() {
        assert(p.subrange(0, 4)[0] != job_marker()[0]);
    }
    assert(classic_names_from(p, 0) == classic_names_from(p, 1));
    assert(p.subrange(1, p.len() as int) =~= job_marker() + join_with(names, sep) + tail);
    lemma_classic_scan(p, 1, names, tail);
}

proof fn lemma_join_keeps_out(parts: Seq<Seq<char>>, sep: Seq<char>, c: char)
    requires
        forall|i: int| 0 <= i < sep.len() ==> sep[i] != c,
        forall|i: int, j: int| 0 <= i < parts.len() && 0 <= j < parts[i].len() ==> parts[i][j] != c,
    ensures
        forall|j: int| 0 <= j < join_with(parts, sep).len() ==> join_with(parts, sep)[j] != c,
    decreases parts.len(),
{
    if parts.len() >= 2 {
        lemma_join_keeps_out(parts.drop_last(), sep, c);
        assert forall|i: int, j: int| 0 <= i < parts.len() - 1 && 0 <= j < parts.drop_last()[i].len()
            implies parts.drop_last()[i][j] != c by {
            assert(parts.drop_last()[i] == parts[i]);
        }
        let a = join_with(parts.drop_last(), sep);
        let l = parts.last();
        assert forall|j: int| 0 <= j < join_with(parts, sep).len() implies join_with(parts, sep)[j] != c by {
            if j < a.len() {
            } else if j < a.len() + sep.len() {
                assert(join_with(parts, sep)[j] == sep[j - a.len()]);
            } else {
                assert(join_with(parts, sep)[j] == l[j - a.len() - sep.len()]);
                assert(0 <= parts.len() - 1 < parts.len());
            }
        }
    } else if parts.len() == 1 {
        assert forall|j: int| 0 <= j < join_with(parts, sep).len() implies join_with(parts, sep)[j] != c by {
            assert(join_with(parts, sep)[j] == parts[0][j]);
        }
    }
}

proof fn lemma_split_join(c: Seq<char>, a: int, parts: Seq<Seq<char>>)
    requires
        parts.len() > 0,
        forall|i: int| 0 <= i < parts.len() ==> no_folder_separator(#[trigger] parts[i]),
        0 <= a <= c.len(),
        c.subrange(a, c.len() as int) == join_with(parts, folder_separator()),
    ensures
        split_from(c, folder_separator(), a, a) == parts,
    decreases parts.len(),
{
    let sep = folder_separator();
    reveal_strlit("%2F");
    assert(sep =~= seq!['%', '2', 'F']);
    let n0 = parts[0];
    assert(no_folder_separator(n0));
    let e = a + n0.len();
    let q = c.subrange(a, c.len() as int);
    if parts.len() == 1 {
        assert(q == n0);
        if a + 3 <= c.len() {
            assert forall|j: int| a <= j < c.len() - 2 implies !#[trigger] occurs_at(c, j, sep) by {
                if occurs_at(c, j, sep) {
                    assert(n0.subrange(j - a, j - a + 3) =~= c.subrange(j, j + 3));
                    assert(occurs_at(n0, j - a, sep));
                }
            }
            lemma_split_skip(c, sep, a, a, c.len() - 2);
        }
        assert(parts =~= seq![c.subrange(a, c.len() as int)]);
    } else {
        lemma_join_first(parts, sep);
        let rest_parts = parts.drop_first();
        let rest = join_with(rest_parts, sep);
        assert(q =~= n0 + sep + rest);
        assert(q[n0.len() as int] == '%');
        assert(q[n0.len() as int] == c[e]);
        assert forall|j: int| a <= j < e implies !#[trigger] occurs_at(c, j, sep) by {
            if occurs_at(c, j, sep) {
                assert(c.subrange(j, j + 3)[0] == c[j]);
                assert(c.subrange(j, j + 3)[1] == c[j + 1]);
                assert(c.subrange(j, j + 3)[2] == c[j + 2]);
                if j + 3 <= e {
                    assert(n0.subrange(j - a, j - a + 3) =~= c.subrange(j, j + 3)) by {
                        assert forall|t: int| 0 <= t < 3 implies #[trigger] n0.subrange(j - a, j - a + 3)[t] == c.subrange(j, j + 3)[t] by {
                            assert(q[j - a + t] == c[j + t]);
                        }
                    }
                    assert(occurs_at(n0, j - a, sep));
                } else if j == e - 1 {
                    assert(c[j + 1] == '%');
                } else {
                    assert(c[j + 2] == '%');
                }
            }
        }
        lemma_split_skip(c, sep, a, a, e);
        assert(c.subrange(e, e + 3) =~= sep) by {
            assert forall|t: int| 0 <= t < 3 implies #[trigger] c.subrange(e, e + 3)[t] == sep[t] by {
                assert(q[n0.len() + t] == c[e + t]);
            }
        }
        assert(occurs_at(c, e, sep));
        assert(c.subrange(e + 3, c.len() as int) =~= rest) by {
            assert forall|t: int| 0 <= t < rest.len() implies #[trigger] c.subrange(e + 3, c.len() as int)[t] == rest[t] by {
                assert(q[n0.len() + 3 + t] == c[e + 3 + t]);
            }
        }
        assert forall|i: int| 0 <= i < rest_parts.len() implies no_folder_separator(#[trigger] rest_parts[i]) by {
            assert(rest_parts[i] == parts[i + 1]);
        }
        lemma_split_join(c, e + 3, rest_parts);
        assert(c.subrange(a, e) =~= n0) by {
            assert forall|t: int| 0 <= t < n0.len() implies #[trigger] c.subrange(a, e)[t] == n0[t] by {
                assert(q[t] == c[a + t]);
            }
        }
        assert(parts =~= seq![n0] + rest_parts);
    }
}

/// A modern path locates the job whose path is its folder names, split at
/// the escaped separator and decoded; re-joined with the classic separator
/// they give the canonical request path.
pub proof fn lemma_modern_path_names(base: Seq<char>, names: Seq<Seq<char>>, tail: Seq<char>)
    requires
        names.len() > 0,
        forall|i: int|
            0 <= i < names.len() ==> plain_name(#[trigger] names[i]) && no_folder_separator(names[i]),
        tail.len() == 0 || tail[0] == '/',
    ensures
        located_job(base, modern_path(names, tail)) == if all_decode(names) {
            Ok(JobView { segments: decoded(names), base })
        } else {
            Err(LocatorError::BadEncoding)
        },
        all_decode(names) ==> job_route(located_job(base, modern_path(names, tail))->Ok_0.segments)
            == "job/"@ + join_with(decoded(names), "/job/"@),
{
    let sep = folder_separator();
    let p = modern_path(names, tail);
    let m = blue_marker();
    let c = join_with(names, sep);
    reveal_strlit("%2F");
    reveal_strlit("/job/");
    reveal_strlit("/blue/");
    reveal_strlit("/blue/organizations/jenkins/");
    assert(sep =~= seq!['%', '2', 'F']);
    let l = m.len() as int;
    assert(l == 28);
    assert(plain_name(names[0]));
    if names.len() >= 2 {
        lemma_join_first(names, sep);
    }
    assert(c.len() >= names[0].len());
    lemma_join_keeps_out(names, sep, '/');
    assert(p.subrange(0, l) =~= m);
    assert(p.subrange(0, 6) =~= "/blue/"@);
    assert(p.subrange(0, 5)[1] != "/job/"@[1]);
    assert(scheme_of(p) == Some(Scheme::Modern));
    assert forall|i: int| 0 <= i < c.len() implies p[l + i] == c[i] by {}
    assert(p[l] == c[0]);
    assert(modern_match_at(p, 0));
    if l + c.len() < p.len() {
        assert(p[l + c.len()] == tail[0]);
    }
    lemma_run_over(p, l, c.len() as int);
    assert(p.subrange(l, l + c.len()) =~= c);
    assert(modern_component_from(p, 0) == Some(c));
    assert(c.subrange(0, c.len() as int) == c);
    lemma_split_join(c, 0, names);
}

/// The two schemes locate the same job for the same names, and so render the
/// same request path.
pub proof fn lemma_schemes_agree(
    base: Seq<char>,
    names: Seq<Seq<char>>,
    classic_tail: Seq<char>,
    modern_tail: Seq<char>,
)
    requires
        names.len() > 0,
        forall|i: int|
            0 <= i < names.len() ==> plain_name(#[trigger] names[i]) && no_folder_separator(names[i]),
        build_tail(classic_tail),
        modern_tail.len() == 0 || modern_tail[0] == '/',
    ensures
        located_job(base, classic_path(names, classic_tail)) == located_job(
            base,
            modern_path(names, modern_tail),
        ),
        located_job(base, classic_path(names, classic_tail)) is Ok ==> job_route(
            located_job(base, classic_path(names, classic_tail))->Ok_0.segments,
        ) == job_route(located_job(base, modern_path(names, modern_tail))->Ok_0.segments),
{
    lemma_classic_path_names(base, names, classic_tail);
    lemma_modern_path_names(base, names, modern_tail);
}

} // verus!
