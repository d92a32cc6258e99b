//! The keypoints of a component simulation run: the moments worth looking
//! at (scenario events, faults, diagnosis windows), each listed once, in
//! time order.
use vstd::prelude::*;
use crate::deployment::{keypoint_category_priority, spec_keypoint_priority};
use crate::task_svg::{text_lt, text_lt_exec};
use crate::text::{chars_of, clone_string, decimal, eq_chars, format_u64, owned, push_str};

verus! {

pub struct ComponentKeypoint {
    pub tick: u64,
    pub at_ms: u64,
    pub category: String,
    pub source: String,
    pub label: String,
}

/// The key a keypoint is recognized by: `tick|category|label`.
pub open spec fn keypoint_key(k: ComponentKeypoint) -> Seq<char> {
    decimal(k.tick as nat) + "|"@ + k.category@ + "|"@ + k.label@
}

/// Whether no candidate before position `n` has the key of `k`.
pub open spec fn key_is_new(cands: Seq<ComponentKeypoint>, n: int) -> bool {
    forall|q: int| 0 <= q < n ==> keypoint_key(#[trigger] cands[q]) != keypoint_key(cands[n])
}

/// The order keypoints are listed in: by tick, then by the priority of
/// their category, then by label.
pub open spec fn keypoint_lt(a: ComponentKeypoint, b: ComponentKeypoint) -> bool {
    if a.tick != b.tick {
        a.tick < b.tick
    } else if spec_keypoint_priority(a.category@) != spec_keypoint_priority(b.category@) {
        spec_keypoint_priority(a.category@) < spec_keypoint_priority(b.category@)
    } else {
        text_lt(a.label@, b.label@)
    }
}

/// Inserts candidate `x` into a list of candidates (by position) in
/// keypoint order, after every one that does not come after it.
pub open spec fn insert_keypoint(cands: Seq<ComponentKeypoint>, s: Seq<int>, x: int) -> Seq<int>
    decreases s.len(),
{
    if s.len() == 0 {
        seq![x]
    } else if keypoint_lt(cands[x], cands[s.last()]) {
        insert_keypoint(cands, s.drop_last(), x).push(s.last())
    } else {
        s.push(x)
    }
}

/// The first `n` candidates that are listed: each key's first candidate,
/// stably sorted in keypoint order.
pub open spec fn listed_below(cands: Seq<ComponentKeypoint>, n: int) -> Seq<int>
    decreases n,
{
    if n <= 0 {
        seq![]
    } else {
        let prev = listed_below(cands, n - 1);
        if key_is_new(cands, n - 1) {
            insert_keypoint(cands, prev, n - 1)
        } else {
            prev
        }
    }
}

pub open spec fn same_keypoint(a: ComponentKeypoint, b: ComponentKeypoint) -> bool {
    &&& a.tick == b.tick
    &&& a.at_ms == b.at_ms
    &&& a.category@ == b.category@
    &&& a.source@ == b.source@
    &&& a.label@ == b.label@
}

fn key_of(k: &ComponentKeypoint) -> (r: Vec<char>)
    ensures
        r@ == keypoint_key(*k),
{
    let mut s = format_u64(k.tick);
    push_str(&mut s, "|");
    push_str(&mut s, k.category.as_str());
    push_str(&mut s, "|");
    push_str(&mut s, k.label.as_str());
    chars_of(s.as_str())
}

fn keypoint_lt_exec(a: &ComponentKeypoint, b: &ComponentKeypoint) -> (r: bool)
    ensures
        r == keypoint_lt(*a, *b),
{
    if a.tick != b.tick {
        return a.tick < b.tick;
    }
    let pa = keypoint_category_priority(a.category.as_str());
    let pb = keypoint_category_priority(b.category.as_str());
    if pa != pb {
        return pa < pb;
    }
    let la = chars_of(a.label.as_str());
    let lb = chars_of(b.label.as_str());
    text_lt_exec(la.as_slice(), lb.as_slice())
}

fn insert_keypoint_exec(cands: &[ComponentKeypoint], list: &mut Vec<usize>, x: usize)
    requires
        x < cands@.len(),
        forall|k: int| 0 <= k < old(list)@.len() ==> old(list)@[k] < cands@.len(),
    ensures
        final(list)@.map_values(|v: usize| v as int) == insert_keypoint(
            cands@,
            old(list)@.map_values(|v: usize| v as int),
            x as int,
        ),
        forall|k: int| 0 <= k < final(list)@.len() ==> final(list)@[k] < cands@.len(),
{
    let ghost l0 = old(list)@.map_values(|v: usize| v as int);
    let mut p: usize = list.len();
    assert(l0.subrange(0, l0.len() as int) =~= l0);
    assert(insert_keypoint(cands@, l0, x as int) + l0.subrange(l0.len() as int, l0.len() as int)
        =~= insert_keypoint(cands@, l0, x as int));
    while p > 0 && keypoint_lt_exec(&cands[x], &cands[list[p - 1]])
        invariant
            p <= list@.len(),
            list@ == old(list)@,
            l0 == old(list)@.map_values(|v: usize| v as int),
            x < cands@.len(),
            forall|k: int| 0 <= k < list@.len() ==> list@[k] < cands@.len(),
            insert_keypoint(cands@, l0, x as int) == insert_keypoint(
                cands@,
                l0.subrange(0, p as int),
                x as int,
            ) + l0.subrange(p as int, l0.len() as int),
        decreases p,
    {
        assert(l0.subrange(0, p as int).drop_last() =~= l0.subrange(0, p - 1));
        assert(l0.subrange(0, p as int).last() == l0[p - 1]);
        assert(insert_keypoint(cands@, l0.subrange(0, p as int), x as int) == insert_keypoint(
            cands@,
            l0.subrange(0, p - 1),
            x as int,
        ).push(l0[p - 1]));
        assert(insert_keypoint(cands@, l0.subrange(0, p - 1), x as int).push(l0[p - 1])
            + l0.subrange(p as int, l0.len() as int) =~= insert_keypoint(
            cands@,
            l0.subrange(0, p - 1),
            x as int,
        ) + l0.subrange(p - 1, l0.len() as int));
        p -= 1;
    }
    proof {
        if p > 0 {
            assert(l0.subrange(0, p as int).last() == l0[p - 1]);
        }
        assert(insert_keypoint(cands@, l0.subrange(0, p as int), x as int) =~= l0.subrange(
            0,
            p as int,
        ).push(x as int));
    }
    list.insert(p, x);
    assert(list@.map_values(|v: usize| v as int) =~= l0.subrange(0, p as int).push(x as int)
        + l0.subrange(p as int, l0.len() as int));
}

fn contains_key(keys: &Vec<Vec<char>>, k: &[char]) -> (r: bool)
    ensures
        r == exists|q: int| 0 <= q < keys@.len() && keys@[q]@ == k@,
{
    let mut i: usize = 0;
    while i < keys.len()
        invariant
            i <= keys@.len(),
            forall|q: int| 0 <= q < i ==> keys@[q]@ != k@,
        decreases keys@.len() - i,
    {
        if eq_chars(keys[i].as_slice(), k) {
            return true;
        }
        i += 1;
    }
    false
}

/// The keypoints to show of the collected candidates: the first of each
/// key, ordered by tick, category priority and label (candidates that tie
/// keep their order).
pub fn order_component_keypoints(cands: &[ComponentKeypoint]) -> (r: Vec<ComponentKeypoint>)
    ensures
        r@.len() == listed_below(cands@, cands@.len() as int).len(),
        forall|i: int|
            0 <= i < r@.len() ==> same_keypoint(
                #[trigger] r@[i],
                cands@[listed_below(cands@, cands@.len() as int)[i]],
            ),
{
    let mut keys: Vec<Vec<char>> = Vec::new();
    let mut order: Vec<usize> = Vec::new();
    let mut i: usize = 0;
    while i < cands.len()
        invariant
            i <= cands@.len(),
            keys@.len() == i,
            forall|q: int| 0 <= q < i ==> (#[trigger] keys@[q])@ == keypoint_key(cands@[q]),
            order@.map_values(|v: usize| v as int) == listed_below(cands@, i as int),
            forall|k: int| 0 <= k < order@.len() ==> order@[k] < cands@.len(),
        decreases cands@.len() - i,
    {
        let k = key_of(&cands[i]);
        let seen = contains_key(&keys, k.as_slice());
        proof {
            if !seen {
                assert forall|q: int| 0 <= q < i implies keypoint_key(#[trigger] cands@[q])
                    != keypoint_key(cands@[i as int]) by {
                    assert(keys@[q]@ == keypoint_key(cands@[q]));
                }
            } else {
                let q = choose|q: int| 0 <= q < keys@.len() && keys@[q]@ == k@;
                assert(keypoint_key(cands@[q]) == keypoint_key(cands@[i as int]));
            }
        }
        if !seen {
            insert_keypoint_exec(cands, &mut order, i);
        }
        keys.push(k);
        i += 1;
    }
    let ghost ord = order@.map_values(|v: usize| v as int);
    let mut out: Vec<ComponentKeypoint> = Vec::new();
    let mut j: usize = 0;
    while j < order.len()
        invariant
            j <= order@.len(),
            ord == order@.map_values(|v: usize| v as int),
            forall|k: int| 0 <= k < order@.len() ==> order@[k] < cands@.len(),
            out@.len() == j,
            forall|q: int| 0 <= q < j ==> same_keypoint(#[trigger] out@[q], cands@[ord[q]]),
        decreases order@.len() - j,
    {
        let c = &cands[order[j]];
        out.push(
            ComponentKeypoint {
                tick: c.tick,
                at_ms: c.at_ms,
                category: clone_string(&c.category),
                source: clone_string(&c.source),
                label: clone_string(&c.label),
            },
        );
        j += 1;
    }
    out
}

// ---------------------------------------------------------------------------
// Each keypoint once
// ---------------------------------------------------------------------------

proof fn lemma_insert_keypoint(cands: Seq<ComponentKeypoint>, s: Seq<int>, x: int)
    ensures
        insert_keypoint(cands, s, x).len() == s.len() + 1,
        forall|y: int| #[trigger] insert_keypoint(cands, s, x).contains(y) <==> (s.contains(y) || y == x),
        s.no_duplicates() && !s.contains(x) ==> insert_keypoint(cands, s, x).no_duplicates(),
    decreases s.len(),
{
    let r = insert_keypoint(cands, s, x);
    if s.len() == 0 {
        assert forall|y: int| r.contains(y) <==> (s.contains(y) || y == x) by {
            if r.contains(y) {
                assert(r[0] == y);
            }
            if y == x {
                assert(r[0] == x);
            }
        }
    } else if keypoint_lt(cands[x], cands[s.last()]) {
        let d = s.drop_last();
        lemma_insert_keypoint(cands, d, x);
        let inner = insert_keypoint(cands, d, x);
        assert(r == inner.push(s.last()));
        assert(s =~= d.push(s.last()));
        assert forall|y: int| r.contains(y) <==> (s.contains(y) || y == x) by {
            if r.contains(y) {
                let k = choose|k: int| 0 <= k < r.len() && r[k] == y;
                if k < inner.len() {
                    assert(inner.contains(y));
                    if d.contains(y) {
                        let j = choose|j: int| 0 <= j < d.len() && d[j] == y;
                        assert(s[j] == y);
                    }
                } else {
                    assert(s[s.len() - 1] == y);
                }
            }
            if s.contains(y) {
                let j = choose|j: int| 0 <= j < s.len() && s[j] == y;
                if j < d.len() {
                    assert(d[j] == y);
                    assert(inner.contains(y));
                    let k = choose|k: int| 0 <= k < inner.len() && inner[k] == y;
                    assert(r[k] == y);
                } else {
                    assert(r[r.len() - 1] == y);
                }
            }
            if y == x {
                assert(inner.contains(x));
                let k = choose|k: int| 0 <= k < inner.len() && inner[k] == x;
                assert(r[k] == x);
            }
        }
        if s.no_duplicates() && !s.contains(x) {
            assert(!d.contains(x)) by {
                if d.contains(x) {
                    let j = choose|j: int| 0 <= j < d.len() && d[j] == x;
                    assert(s[j] == x);
                }
            }
            assert(d.no_duplicates()) by {
                assert forall|a: int, b: int| 0 <= a < d.len() && 0 <= b < d.len() && a != b implies d[a] != d[b] by {
                    assert(s[a] == d[a] && s[b] == d[b]);
                }
            }
            assert(!inner.contains(s.last())) by {
                if inner.contains(s.last()) {
                    if d.contains(s.last()) {
                        let j = choose|j: int| 0 <= j < d.len() && d[j] == s.last();
                        assert(s[j] == s[s.len() - 1]);
                    } else {
                        assert(s[s.len() - 1] == x);
                    }
                }
            }
            assert forall|a: int, b: int| 0 <= a < r.len() && 0 <= b < r.len() && a != b implies r[a] != r[b] by {
                if a < inner.len() && b < inner.len() {
                } else if a < inner.len() {
                    assert(inner.contains(r[a]));
                } else if b < inner.len() {
                    assert(inner.contains(r[b]));
                }
            }
        }
    } else {
        assert forall|y: int| r.contains(y) <==> (s.contains(y) || y == x) by {
            if r.contains(y) {
                let k = choose|k: int| 0 <= k < r.len() && r[k] == y;
                if k < s.len() {
                    assert(s[k] == y);
                }
            }
            if s.contains(y) {
                let j = choose|j: int| 0 <= j < s.len() && s[j] == y;
                assert(r[j] == y);
            }
            if y == x {
                assert(r[s.len() as int] == x);
            }
        }
    }
}

proof fn lemma_listed(cands: Seq<ComponentKeypoint>, n: int)
    requires
        0 <= n <= cands.len(),
    ensures
        listed_below(cands, n).no_duplicates(),
        forall|y: int|
            #[trigger] listed_below(cands, n).contains(y) <==> (0 <= y < n && key_is_new(cands, y)),
    decreases n,
{
    if n > 0 {
        lemma_listed(cands, n - 1);
        let prev = listed_below(cands, n - 1);
        if key_is_new(cands, n - 1) {
            lemma_insert_keypoint(cands, prev, n - 1);
        }
    }
}

proof fn lemma_first_with_key(cands: Seq<ComponentKeypoint>, q: int) -> (p: int)
    requires
        0 <= q < cands.len(),
    ensures
        0 <= p <= q,
        key_is_new(cands, p),
        keypoint_key(cands[p]) == keypoint_key(cands[q]),
    decreases q,
{
    if key_is_new(cands, q) {
        q
    } else {
        let r = choose|r: int| 0 <= r < q && keypoint_key(#[trigger] cands[r]) == keypoint_key(cands[q]);
        lemma_first_with_key(cands, r)
    }
}

/// Every key of the collected candidates is listed, and none twice.
pub proof fn law_each_keypoint_listed_once(cands: Seq<ComponentKeypoint>)
    ensures
        ({
            let l = listed_below(cands, cands.len() as int);
            &&& forall|i: int, j: int|
                0 <= i < j < l.len() ==> keypoint_key(cands[#[trigger] l[i]]) != keypoint_key(
                    cands[#[trigger] l[j]],
                )
            &&& forall|q: int|
                0 <= q < cands.len() ==> exists|i: int|
                    0 <= i < l.len() && keypoint_key(cands[#[trigger] l[i]]) == keypoint_key(
                        #[trigger] cands[q],
                    )
        }),
{
    let n = cands.len() as int;
    let l = listed_below(cands, n);
    lemma_listed(cands, n);
    assert forall|i: int, j: int| 0 <= i < j < l.len() implies keypoint_key(cands[#[trigger] l[i]])
        != keypoint_key(cands[#[trigger] l[j]]) by {
        assert(l.contains(l[i]) && l.contains(l[j]));
        assert(l[i] != l[j]);
        if l[i] < l[j] {
            assert(key_is_new(cands, l[j]));
            assert(keypoint_key(cands[l[i]]) != keypoint_key(cands[l[j]]));
        } else {
            assert(key_is_new(cands, l[i]));
            assert(keypoint_key(cands[l[j]]) != keypoint_key(cands[l[i]]));
        }
    }
    assert forall|q: int| 0 <= q < cands.len() implies exists|i: int|
        0 <= i < l.len() && keypoint_key(cands[#[trigger] l[i]]) == keypoint_key(#[trigger] cands[q]) by {
        let p = lemma_first_with_key(cands, q);
        assert(l.contains(p));
        let i = choose|i: int| 0 <= i < l.len() && l[i] == p;
        assert(keypoint_key(cands[l[i]]) == keypoint_key(cands[q]));
    }
}

} // verus!
