use vstd::prelude::*;
use crate::errors::Message;
use crate::record::Record;
use crate::table::Table;

verus! {

// Generic filter -> group-by -> sum primitive shared by every reporting
// function.  A `Selector` is a row query: which rows count and with what
// weight; a `GroupSelector` adds the free-text grouping key.  Weights are
// summed as unbounded naturals in specifications; the executable engine
// reports `InvariantViolation` if a sum leaves `u64`.

/// A row filter together with the weight a matching row contributes.
pub trait Selector<T>: Sized {
    /// Which rows are counted.
    spec fn sel(&self, t: T) -> bool;

    /// The weight of a counted row.
    spec fn weight(&self, t: T) -> nat;

    /// Executable row filter, exact with respect to `sel`.
    fn matches(&self, t: &T) -> (b: bool)
        ensures
            b == self.sel(*t),
    ;

    /// Executable weight, exact with respect to `weight`.
    fn weight_of(&self, t: &T) -> (w: u64)
        ensures
            w as nat == self.weight(*t),
    ;
}

/// A selector whose matching rows additionally carry a grouping key.
pub trait GroupSelector<T>: Selector<T> {
    /// The grouping key of a row.
    spec fn key_view(&self, t: T) -> Seq<char>;

    /// Executable copy of the grouping key, exact with respect to
    /// `key_view`.
    fn key_clone(&self, t: &T) -> (k: String)
        ensures
            k@ == self.key_view(*t),
    ;
}

/// Sum of the weights of the entries that the selector keeps.
pub open spec fn sum_sel<T, S: Selector<T>>(s: Seq<(u64, T)>, sel: S) -> nat
    decreases s.len(),
{
    if s.len() == 0 {
        0
    } else {
        sum_sel(s.drop_last(), sel) + (if sel.sel(s.last().1) {
            sel.weight(s.last().1)
        } else {
            0
        })
    }
}

/// Sum of the weights of the kept entries whose grouping key is `key`.
pub open spec fn sum_sel_key<T, S: GroupSelector<T>>(
    s: Seq<(u64, T)>,
    sel: S,
    key: Seq<char>,
) -> nat
    decreases s.len(),
{
    if s.len() == 0 {
        0
    } else {
        sum_sel_key(s.drop_last(), sel, key) + (if sel.sel(s.last().1) && sel.key_view(
            s.last().1,
        ) == key {
            sel.weight(s.last().1)
        } else {
            0
        })
    }
}

/// Sum of a sequence of machine integers, as an unbounded natural.
pub open spec fn sum_u64(s: Seq<u64>) -> nat
    decreases s.len(),
{
    if s.len() == 0 {
        0
    } else {
        sum_u64(s.drop_last()) + s.last() as nat
    }
}

/// One more entry extends a prefix sum by that entry's contribution.
pub proof fn lemma_sum_sel_take_succ<T, S: Selector<T>>(s: Seq<(u64, T)>, sel: S, i: int)
    requires
        0 <= i < s.len(),
    ensures
        sum_sel(s.take(i + 1), sel) == sum_sel(s.take(i), sel) + (if sel.sel(s[i].1) {
            sel.weight(s[i].1)
        } else {
            0
        }),
{
    assert(s.take(i + 1).drop_last() =~= s.take(i));
    assert(s.take(i + 1).last() == s[i]);
}

/// A prefix never sums to more than the whole.
pub proof fn lemma_sum_sel_take_le<T, S: Selector<T>>(s: Seq<(u64, T)>, sel: S, i: int)
    requires
        0 <= i <= s.len(),
    ensures
        sum_sel(s.take(i), sel) <= sum_sel(s, sel),
    decreases s.len() - i,
{
    if i < s.len() {
        lemma_sum_sel_take_succ(s, sel, i);
        lemma_sum_sel_take_le(s, sel, i + 1);
    } else {
        assert(s.take(i) =~= s);
    }
}

/// One more entry extends a prefix group sum by that entry's contribution.
pub proof fn lemma_sum_sel_key_take_succ<T, S: GroupSelector<T>>(
    s: Seq<(u64, T)>,
    sel: S,
    key: Seq<char>,
    i: int,
)
    requires
        0 <= i < s.len(),
    ensures
        sum_sel_key(s.take(i + 1), sel, key) == sum_sel_key(s.take(i), sel, key) + (if sel.sel(
            s[i].1,
        ) && sel.key_view(s[i].1) == key {
            sel.weight(s[i].1)
        } else {
            0
        }),
{
    assert(s.take(i + 1).drop_last() =~= s.take(i));
    assert(s.take(i + 1).last() == s[i]);
}

/// A single group never sums to more than the selector's total.
pub proof fn lemma_sum_sel_key_le<T, S: GroupSelector<T>>(
    s: Seq<(u64, T)>,
    sel: S,
    key: Seq<char>,
)
    ensures
        sum_sel_key(s, sel, key) <= sum_sel(s, sel),
    decreases s.len(),
{
    if s.len() > 0 {
        lemma_sum_sel_key_le(s.drop_last(), sel, key);
    }
}

/// When every row weighs at most one, the total is at most the row count.
pub proof fn lemma_sum_sel_le_len<T, S: Selector<T>>(s: Seq<(u64, T)>, sel: S)
    requires
        forall|t: T| #[trigger] sel.weight(t) <= 1,
    ensures
        sum_sel(s, sel) <= s.len(),
    decreases s.len(),
{
    if s.len() > 0 {
        lemma_sum_sel_le_len(s.drop_last(), sel);
    }
}

/// Appending a group extends the group-value sum by its value.
pub proof fn lemma_sum_u64_push(s: Seq<u64>, w: u64)
    ensures
        sum_u64(s.push(w)) == sum_u64(s) + w,
{
    assert(s.push(w).drop_last() =~= s);
}

/// Raising one group's value raises the group-value sum by the difference.
pub proof fn lemma_sum_u64_update(s: Seq<u64>, g: int, x: u64)
    requires
        0 <= g < s.len(),
    ensures
        sum_u64(s.update(g, x)) == sum_u64(s) - s[g] + x,
    decreases s.len(),
{
    let t = s.update(g, x);
    if g == s.len() - 1 {
        assert(t.drop_last() =~= s.drop_last());
        assert(t.last() == x);
    } else {
        assert(t.drop_last() =~= s.drop_last().update(g, x));
        assert(t.last() == s.last());
        lemma_sum_u64_update(s.drop_last(), g, x);
    }
}

/// Filter-and-sum over one store: the sum of the selector's weights over
/// the rows it keeps, or `InvariantViolation` if that sum does not fit a
/// machine integer.
pub fn filter_sum<T: Record, S: Selector<T>>(tbl: &Table<T>, sel: &S) -> (r: Result<u64, Message>)
    ensures
        r is Ok <==> sum_sel(tbl@, *sel) <= u64::MAX,
        r matches Ok(v) ==> v as nat == sum_sel(tbl@, *sel),
        r is Err ==> r == Err::<u64, Message>(Message::InvariantViolation),
{
    let n = tbl.len();
    let mut acc: u64 = 0;
    let mut i: usize = 0;
    while i < n
        invariant
            n == tbl@.len(),
            0 <= i <= n,
            acc as nat == sum_sel(tbl@.take(i as int), *sel),
        decreases n - i,
    {
        let e = tbl.entry_at(i);
        proof {
            lemma_sum_sel_take_succ(tbl@, *sel, i as int);
        }
        if sel.matches(&e.1) {
            let w = sel.weight_of(&e.1);
            match acc.checked_add(w) {
                Some(a2) => {
                    acc = a2;
                },
                None => {
                    proof {
                        lemma_sum_sel_take_le(tbl@, *sel, i + 1);
                    }
                    return Err(Message::InvariantViolation);
                },
            }
        }
        i = i + 1;
    }
    proof {
        assert(tbl@.take(n as int) =~= tbl@);
    }
    Ok(acc)
}

/// What the group-by-sum engine returns: one entry per distinct grouping
/// key among the kept rows, carrying that group's weight sum; group order
/// is unspecified, and the group values sum to the selector's total.
pub open spec fn grouped_ok<T, S: GroupSelector<T>>(
    s: Seq<(u64, T)>,
    sel: S,
    ks: Seq<String>,
    vs: Seq<u64>,
) -> bool {
    &&& ks.len() == vs.len()
    &&& forall|i: int, j: int|
        0 <= i < j < ks.len() ==> (#[trigger] ks[i])@ != (#[trigger] ks[j])@
    &&& forall|i: int|
        0 <= i < ks.len() ==> (#[trigger] vs[i]) as nat == sum_sel_key(s, sel, ks[i]@)
    &&& forall|j: int|
        0 <= j < s.len() && sel.sel((#[trigger] s[j]).1) ==> exists|i: int|
            0 <= i < ks.len() && (#[trigger] ks[i])@ == sel.key_view(s[j].1)
    &&& sum_u64(vs) == sum_sel(s, sel)
}

/// Group-by-and-sum over one store: one `(key, sum)` group per distinct
/// grouping key among the kept rows, or `InvariantViolation` if the total
/// does not fit a machine integer.
pub fn group_sum<T: Record, S: GroupSelector<T>>(tbl: &Table<T>, sel: &S) -> (r: Result<
    (Vec<String>, Vec<u64>),
    Message,
>)
    ensures
        r is Ok <==> sum_sel(tbl@, *sel) <= u64::MAX,
        r matches Ok(g) ==> grouped_ok(tbl@, *sel, g.0@, g.1@),
        r is Err ==> r == Err::<(Vec<String>, Vec<u64>), Message>(Message::InvariantViolation),
{
    let n = tbl.len();
    let mut ks: Vec<String> = Vec::new();
    let mut vs: Vec<u64> = Vec::new();
    let mut total: u64 = 0;
    let mut i: usize = 0;
    while i < n
        invariant
            n == tbl@.len(),
            0 <= i <= n,
            total as nat == sum_sel(tbl@.take(i as int), *sel),
            grouped_ok(tbl@.take(i as int), *sel, ks@, vs@),
        decreases n - i,
    {
        let ghost pre = tbl@.take(i as int);
        let ghost post = tbl@.take(i + 1);
        let e = tbl.entry_at(i);
        proof {
            lemma_sum_sel_take_succ(tbl@, *sel, i as int);
        }
        if sel.matches(&e.1) {
            let w = sel.weight_of(&e.1);
            let total2 = match total.checked_add(w) {
                Some(t2) => t2,
                None => {
                    proof {
                        lemma_sum_sel_take_le(tbl@, *sel, i + 1);
                    }
                    return Err(Message::InvariantViolation);
                },
            };
            total = total2;
            let key = sel.key_clone(&e.1);
            let mut g: usize = 0;
            let m = ks.len();
            let mut found = false;
            while g < m && !found
                invariant
                    m == ks@.len(),
                    0 <= g <= m,
                    !found ==> forall|j: int| 0 <= j < g ==> (#[trigger] ks@[j])@ != key@,
                    found ==> g < m && ks@[g as int]@ == key@,
                decreases m - g + (if found { 0int } else { 1int }),
            {
                if key.eq(&ks[g]) {
                    found = true;
                } else {
                    g = g + 1;
                }
            }
            proof {
                assert forall|k2: Seq<char>| true implies sum_sel_key(post, *sel, k2)
                    == sum_sel_key(pre, *sel, k2) + (if sel.key_view(tbl@[i as int].1) == k2 {
                    sel.weight(tbl@[i as int].1)
                } else {
                    0
                }) by {
                    lemma_sum_sel_key_take_succ(tbl@, *sel, k2, i as int);
                }
            }
            if found {
                proof {
                    assert(sel.key_view(tbl@[i as int].1) == ks@[g as int]@);
                    assert(sum_sel_key(post, *sel, ks@[g as int]@) == sum_sel_key(
                        pre,
                        *sel,
                        ks@[g as int]@,
                    ) + w);
                    lemma_sum_sel_key_le(post, *sel, ks@[g as int]@);
                    assert(vs@[g as int] + w <= u64::MAX);
                }
                let cur = vs[g];
                let x = cur + w;
                proof {
                    lemma_sum_u64_update(vs@, g as int, x);
                }
                vs[g] = x;
                proof {
                    assert forall|g2: int| 0 <= g2 < ks@.len() implies (#[trigger] vs@[g2]) as nat
                        == sum_sel_key(post, *sel, ks@[g2]@) by {
                        if g2 != g {
                            assert(ks@[g2]@ != ks@[g as int]@);
                        }
                    }
                    assert forall|j: int|
                        0 <= j < post.len() && sel.sel((#[trigger] post[j]).1) implies exists|
                        i2: int,
                    | 0 <= i2 < ks@.len() && (#[trigger] ks@[i2])@ == sel.key_view(post[j].1) by {
                        if j < i {
                            assert(post[j] == pre[j]);
                            let i0 = choose|i0: int|
                                0 <= i0 < ks@.len() && (#[trigger] ks@[i0])@ == sel.key_view(
                                    pre[j].1,
                                );
                            assert(0 <= i0 < ks@.len() && ks@[i0]@ == sel.key_view(post[j].1));
                        } else {
                            assert(post[j] == tbl@[i as int]);
                            assert(ks@[g as int]@ == sel.key_view(post[j].1));
                        }
                    }
                }
            } else {
                let ghost ks0 = ks@;
                proof {
                    lemma_sum_u64_push(vs@, w);
                    lemma_sum_sel_key_absent(pre, *sel, key@, ks@, vs@);
                }
                ks.push(key);
                vs.push(w);
                proof {
                    let ghost m0 = ks@.len() - 1;
                    assert(ks@[m0] == key);
                    assert forall|g2: int| 0 <= g2 < ks@.len() implies (#[trigger] vs@[g2]) as nat
                        == sum_sel_key(post, *sel, ks@[g2]@) by {
                        if g2 < m0 {
                            assert(ks@[g2]@ != key@);
                            assert(sel.key_view(tbl@[i as int].1) == key@);
                        } else {
                            assert(ks@[g2]@ == key@);
                            assert(vs@[g2] == w);
                        }
                    }
                    assert forall|j: int|
                        0 <= j < post.len() && sel.sel((#[trigger] post[j]).1) implies exists|
                        i2: int,
                    | 0 <= i2 < ks@.len() && (#[trigger] ks@[i2])@ == sel.key_view(post[j].1) by {
                        if j < i {
                            assert(post[j] == pre[j]);
                            let i0 = choose|i0: int|
                                0 <= i0 < ks0.len() && (#[trigger] ks0[i0])@ == sel.key_view(
                                    pre[j].1,
                                );
                            assert(0 <= i0 < ks@.len() && ks@[i0]@ == sel.key_view(post[j].1));
                        } else {
                            assert(post[j] == tbl@[i as int]);
                            assert(ks@[m0]@ == sel.key_view(post[j].1));
                        }
                    }
                }
            }
        } else {
            proof {
                assert forall|g2: int| 0 <= g2 < ks@.len() implies (#[trigger] vs@[g2]) as nat
                    == sum_sel_key(post, *sel, ks@[g2]@) by {
                    lemma_sum_sel_key_take_succ(tbl@, *sel, ks@[g2]@, i as int);
                }
            }
        }
        i = i + 1;
    }
    proof {
        assert(tbl@.take(n as int) =~= tbl@);
    }
    Ok((ks, vs))
}

/// A key that no group carries yet has an empty group sum, because the
/// groups are complete over the rows seen so far.
proof fn lemma_sum_sel_key_absent<T, S: GroupSelector<T>>(
    s: Seq<(u64, T)>,
    sel: S,
    key: Seq<char>,
    ks: Seq<String>,
    vs: Seq<u64>,
)
    requires
        grouped_ok(s, sel, ks, vs),
        forall|j: int| 0 <= j < ks.len() ==> (#[trigger] ks[j])@ != key,
    ensures
        sum_sel_key(s, sel, key) == 0,
{
    lemma_sum_sel_key_absent_rec(s, sel, key, ks);
}

/// Completeness alone: every kept row's key is among the group keys.
spec fn grouped_ok_partial<T, S: GroupSelector<T>>(
    s: Seq<(u64, T)>,
    sel: S,
    ks: Seq<String>,
) -> bool {
    forall|j: int|
        0 <= j < s.len() && sel.sel((#[trigger] s[j]).1) ==> exists|i: int|
            0 <= i < ks.len() && (#[trigger] ks[i])@ == sel.key_view(s[j].1)
}

proof fn lemma_sum_sel_key_absent_rec<T, S: GroupSelector<T>>(
    s: Seq<(u64, T)>,
    sel: S,
    key: Seq<char>,
    ks: Seq<String>,
)
    requires
        grouped_ok_partial(s, sel, ks),
        forall|j: int| 0 <= j < ks.len() ==> (#[trigger] ks[j])@ != key,
    ensures
        sum_sel_key(s, sel, key) == 0,
    decreases s.len(),
{
    if s.len() > 0 {
        let t = s.drop_last();
        assert forall|j: int| 0 <= j < t.len() && sel.sel((#[trigger] t[j]).1) implies exists|
            i: int,
        | 0 <= i < ks.len() && (#[trigger] ks[i])@ == sel.key_view(t[j].1) by {
            assert(s[j] == t[j]);
        }
        lemma_sum_sel_key_absent_rec(t, sel, key, ks);
        if sel.sel(s.last().1) {
            assert(s[s.len() - 1] == s.last());
            let i = choose|i: int| 0 <= i < ks.len() && (#[trigger] ks[i])@ == sel.key_view(
                s.last().1,
            );
            assert(sel.key_view(s.last().1) != key);
        }
    }
}

} // verus!
