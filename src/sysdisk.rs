//! Telling which disks hold the running system on the text platform: the
//! names that the critical mount points resolve to, sorted and without
//! duplicates.
use vstd::prelude::*;
use crate::text::{last_segment, text_equals, text_last_segment, trim_of, trimmed, views};

verus! {

/// Lexicographic order of character sequences, by code point.
pub open spec fn lex_lt(a: Seq<char>, b: Seq<char>) -> bool
    decreases a.len(),
{
    if b.len() == 0 {
        false
    } else if a.len() == 0 {
        true
    } else if a[0] != b[0] {
        a[0] < b[0]
    } else {
        lex_lt(a.drop_first(), b.drop_first())
    }
}

/// Strictly increasing, hence without duplicates.
pub open spec fn sorted_unique(s: Seq<Seq<char>>) -> bool {
    forall|i: int, j: int| 0 <= i < j < s.len() ==> lex_lt(#[trigger] s[i], #[trigger] s[j])
}

proof fn lemma_lex_total(a: Seq<char>, b: Seq<char>)
    requires
        a != b,
    ensures
        lex_lt(a, b) || lex_lt(b, a),
    decreases a.len(),
{
    if a.len() > 0 && b.len() > 0 && a[0] == b[0] {
        if a.drop_first() == b.drop_first() {
            assert(a =~= seq![a[0]] + a.drop_first());
            assert(b =~= seq![b[0]] + b.drop_first());
        }
        lemma_lex_total(a.drop_first(), b.drop_first());
    } else if a.len() == 0 && b.len() == 0 {
        assert(a =~= b);
    }
}

proof fn lemma_lex_trans(a: Seq<char>, b: Seq<char>, c: Seq<char>)
    requires
        lex_lt(a, b),
        lex_lt(b, c),
    ensures
        lex_lt(a, c),
    decreases a.len(),
{
    if a.len() > 0 && a[0] == b[0] && b[0] == c[0] {
        lemma_lex_trans(a.drop_first(), b.drop_first(), c.drop_first());
    }
}

/// Whether `a` comes before `b` in lexicographic order.
pub fn text_less(a: &str, b: &str) -> (r: bool)
    ensures
        r == lex_lt(a@, b@),
{
    let n = a.unicode_len();
    let m = b.unicode_len();
    let mut i: usize = 0;
    assert(a@.subrange(0, n as int) =~= a@);
    assert(b@.subrange(0, m as int) =~= b@);
    while i < n && i < m
        invariant
            n == a@.len(),
            m == b@.len(),
            i <= n,
            i <= m,
            lex_lt(a@, b@) == lex_lt(a@.subrange(i as int, n as int), b@.subrange(i as int, m as int)),
        decreases n - i,
    {
        let x = a.get_char(i);
        let y = b.get_char(i);
        if x != y {
            return x < y;
        }
        assert(a@.subrange(i as int, n as int).drop_first() =~= a@.subrange(i + 1, n as int));
        assert(b@.subrange(i as int, m as int).drop_first() =~= b@.subrange(i + 1, m as int));
        i += 1;
    }
    i < m
}

/// Adds `x` to the sorted names `v`, unless it is there already.
fn insert_name(v: &mut Vec<String>, x: String)
    requires
        sorted_unique(views(old(v)@)),
    ensures
        sorted_unique(views(final(v)@)),
        forall|n: Seq<char>| #[trigger]
            views(final(v)@).contains(n) <==> (views(old(v)@).contains(n) || n == x@),
{
    let ghost vs = views(v@);
    let mut i: usize = 0;
    while i < v.len() && text_less(v[i].as_str(), x.as_str())
        invariant
            vs == views(v@),
            sorted_unique(vs),
            i <= v@.len(),
            forall|k: int| 0 <= k < i ==> lex_lt(#[trigger] vs[k], x@),
        decreases v@.len() - i,
    {
        assert(vs[i as int] == v@[i as int]@);
        i += 1;
    }
    if i < v.len() && text_equals(v[i].as_str(), x.as_str()) {
        assert(vs[i as int] == v@[i as int]@);
        return;
    }
    proof {
        if i < vs.len() {
            assert(vs[i as int] == v@[i as int]@);
            lemma_lex_total(vs[i as int], x@);
            assert forall|j: int| i <= j < vs.len() implies lex_lt(x@, #[trigger] vs[j]) by {
                if j > i {
                    lemma_lex_trans(x@, vs[i as int], vs[j]);
                }
            }
        }
    }
    v.insert(i, x);
    assert(views(v@) =~= vs.insert(i as int, x@));
    proof {
        let ws = vs.insert(i as int, x@);
        assert forall|a: int, b: int| 0 <= a < b < ws.len() implies lex_lt(
            #[trigger] ws[a],
            #[trigger] ws[b],
        ) by {
            if b < i {
            } else if b == i {
            } else if a < i {
                assert(ws[b] == vs[b - 1]);
                if i < vs.len() {
                    lemma_lex_trans(vs[a], x@, vs[b - 1]);
                }
            } else if a == i {
            } else {
            }
        }
        assert forall|n: Seq<char>| #[trigger]
            ws.contains(n) <==> (vs.contains(n) || n == x@) by {
            if ws.contains(n) {
                let k = choose|k: int| 0 <= k < ws.len() && ws[k] == n;
                if k < i {
                    assert(vs[k] == n);
                } else if k > i {
                    assert(vs[k - 1] == n);
                }
            }
            if vs.contains(n) {
                let k = choose|k: int| 0 <= k < vs.len() && vs[k] == n;
                if k < i {
                    assert(ws[k] == n);
                } else {
                    assert(ws[k + 1] == n);
                }
            }
            if n == x@ {
                assert(ws[i as int] == n);
            }
        }
    }
}

/// What one critical mount point contributes: the mounted source's base name
/// and its parent disk's name, from the trimmed outputs of the mount-source
/// query and of the parent-disk query (absent where that did not run).
pub struct MountProbe {
    pub source_output: String,
    pub parent_output: Option<String>,
}

pub open spec fn probe_names(source_output: Seq<char>, parent_output: Option<Seq<char>>) -> Seq<
    Seq<char>,
> {
    let src = trim_of(source_output);
    if src.len() == 0 {
        seq![]
    } else {
        let pk: Seq<Seq<char>> = match parent_output {
            Some(p) => if trim_of(p).len() > 0 {
                seq![trim_of(p)]
            } else {
                seq![]
            },
            None => seq![],
        };
        pk.push(last_segment(src))
    }
}

pub open spec fn probe_view(p: MountProbe) -> Seq<Seq<char>> {
    probe_names(
        p.source_output@,
        match p.parent_output {
            Some(o) => Some(o@),
            None => None,
        },
    )
}

/// Every name that the probes contribute, with repeats.
pub open spec fn all_probe_names(ps: Seq<MountProbe>) -> Seq<Seq<char>>
    decreases ps.len(),
{
    if ps.len() == 0 {
        seq![]
    } else {
        all_probe_names(ps.drop_last()) + probe_view(ps.last())
    }
}

/// The device that a mount-source query names, if it names one.
pub fn mount_source(findmnt_output: &str) -> (r: Option<String>)
    ensures
        match r {
            Some(s) => s@ == trim_of(findmnt_output@) && s@.len() > 0,
            None => trim_of(findmnt_output@).len() == 0,
        },
{
    let t = trimmed(findmnt_output);
    if t.unicode_len() == 0 {
        None
    } else {
        Some(String::from_str(t))
    }
}

/// The candidate system-disk names of all probes: sorted, each once.
pub fn system_disk_names(probes: &Vec<MountProbe>) -> (r: Vec<String>)
    ensures
        sorted_unique(views(r@)),
        forall|n: Seq<char>| #[trigger]
            views(r@).contains(n) <==> all_probe_names(probes@).contains(n),
{
    let mut out: Vec<String> = Vec::new();
    let mut i: usize = 0;
    while i < probes.len()
        invariant
            i <= probes@.len(),
            sorted_unique(views(out@)),
            forall|n: Seq<char>| #[trigger]
                views(out@).contains(n) <==> all_probe_names(probes@.subrange(0, i as int)).contains(
                    n,
                ),
        decreases probes@.len() - i,
    {
        let p = &probes[i];
        let ghost before = views(out@);
        let ghost prev = all_probe_names(probes@.subrange(0, i as int));
        assert(probes@.subrange(0, i + 1).drop_last() =~= probes@.subrange(0, i as int));
        let ghost names = probe_view(*p);
        match mount_source(p.source_output.as_str()) {
            Some(src) => {
                let ghost mut added: Seq<Seq<char>> = seq![];
                match &p.parent_output {
                    Some(o) => {
                        let t = trimmed(o.as_str());
                        if t.unicode_len() > 0 {
                            insert_name(&mut out, String::from_str(t));
                            proof {
                                added = seq![t@];
                                assert forall|n: Seq<char>| #[trigger]
                                    views(out@).contains(n) <==> (before.contains(n)
                                        || added.contains(n)) by {
                                    if n == t@ {
                                        assert(added[0] == n);
                                    }
                                }
                            }
                        }
                    },
                    None => {},
                }
                let base = text_last_segment(src.as_str());
                insert_name(&mut out, base);
                proof {
                    let a0 = added;
                    added = added.push(base@);
                    assert(added =~= names);
                    assert forall|n: Seq<char>| #[trigger]
                        views(out@).contains(n) <==> (before.contains(n) || added.contains(n)) by {
                        if a0.contains(n) {
                            let k = choose|k: int| 0 <= k < a0.len() && a0[k] == n;
                            assert(added[k] == n);
                        }
                        if n == base@ {
                            assert(added[a0.len() as int] == n);
                        }
                        if added.contains(n) {
                            let k = choose|k: int| 0 <= k < added.len() && added[k] == n;
                            if k < a0.len() {
                                assert(a0[k] == n);
                            }
                        }
                    }
                    assert forall|n: Seq<char>| #[trigger]
                        views(out@).contains(n) <==> (prev + names).contains(n) by {
                        if names.contains(n) {
                            let k = choose|k: int| 0 <= k < names.len() && names[k] == n;
                            assert((prev + names)[prev.len() + k] == n);
                        }
                        if prev.contains(n) {
                            let k = choose|k: int| 0 <= k < prev.len() && prev[k] == n;
                            assert((prev + names)[k] == n);
                        }
                        if (prev + names).contains(n) {
                            let k = choose|k: int| 0 <= k < (prev + names).len() && (prev + names)[k] == n;
                            if k < prev.len() {
                                assert(prev[k] == n);
                            } else {
                                assert(names[k - prev.len()] == n);
                            }
                        }
                    }
                }
            },
            None => {
                assert(names =~= seq![]);
                assert(prev + names =~= prev);
            },
        }
        i += 1;
    }
    assert(probes@.subrange(0, probes@.len() as int) =~= probes@);
    out
}

} // verus!
