//! The mathematical model of the item table: a sequence of rows in storage
//! order, each row a pair of title and state.

use vstd::prelude::*;

verus! {

/// True when some row of `rows` carries `title`.
pub open spec fn has_title(rows: Seq<(Seq<char>, Seq<char>)>, title: Seq<char>) -> bool {
    exists|i: int| 0 <= i < rows.len() && rows[i].0 == title
}

/// True when no two rows of `rows` share a title.
pub open spec fn unique_titles(rows: Seq<(Seq<char>, Seq<char>)>) -> bool {
    forall|i: int, j: int| 0 <= i < j < rows.len() ==> rows[i].0 != rows[j].0
}

/// Every row carrying `title` is rewritten to `state`; all other rows stay.
pub open spec fn set_state_rows(
    rows: Seq<(Seq<char>, Seq<char>)>,
    title: Seq<char>,
    state: Seq<char>,
) -> Seq<(Seq<char>, Seq<char>)> {
    Seq::new(rows.len(), |i: int| if rows[i].0 == title { (rows[i].0, state) } else { rows[i] })
}

/// Insert-if-absent, update-if-present: what a table looks like after an
/// `add` request. A present title has its state rewritten in place; an
/// absent title's row appears at some position the storage layer chose,
/// with every other row kept in order.
pub open spec fn upserted(
    rows: Seq<(Seq<char>, Seq<char>)>,
    title: Seq<char>,
    state: Seq<char>,
    out: Seq<(Seq<char>, Seq<char>)>,
) -> bool {
    if has_title(rows, title) {
        out == set_state_rows(rows, title, state)
    } else {
        exists|i: int| 0 <= i <= rows.len() && out == rows.insert(i, (title, state))
    }
}

/// The rows that survive a delete of `title`, in their old order.
pub open spec fn remove_title(
    rows: Seq<(Seq<char>, Seq<char>)>,
    title: Seq<char>,
) -> Seq<(Seq<char>, Seq<char>)> {
    rows.filter(|r: (Seq<char>, Seq<char>)| r.0 != title)
}

/// The rows whose state equals `state` exactly, in their old order.
pub open spec fn rows_with_state(
    rows: Seq<(Seq<char>, Seq<char>)>,
    state: Seq<char>,
) -> Seq<(Seq<char>, Seq<char>)> {
    rows.filter(|r: (Seq<char>, Seq<char>)| r.1 == state)
}

/// Law: an upsert into a duplicate-free table leaves it duplicate-free, the
/// requested title present, and every row under that title carrying the
/// requested state.
pub proof fn lemma_upsert_unique(
    rows: Seq<(Seq<char>, Seq<char>)>,
    title: Seq<char>,
    state: Seq<char>,
    out: Seq<(Seq<char>, Seq<char>)>,
)
    requires
        unique_titles(rows),
        upserted(rows, title, state, out),
    ensures
        unique_titles(out),
        has_title(out, title),
        forall|i: int| 0 <= i < out.len() && #[trigger] out[i].0 == title ==> out[i].1 == state,
{
    if has_title(rows, title) {
        assert(forall|i: int| 0 <= i < out.len() ==> #[trigger] out[i].0 == rows[i].0);
        let k = choose|k: int| 0 <= k < rows.len() && rows[k].0 == title;
        assert(out[k].0 == title);
    } else {
        let i = choose|i: int| 0 <= i <= rows.len() && out == rows.insert(i, (title, state));
        lemma_insert_absent(rows, i, title, state);
    }
}

proof fn lemma_insert_absent(
    rows: Seq<(Seq<char>, Seq<char>)>,
    i: int,
    title: Seq<char>,
    state: Seq<char>,
)
    requires
        unique_titles(rows),
        !has_title(rows, title),
        0 <= i <= rows.len(),
    ensures
        unique_titles(rows.insert(i, (title, state))),
        has_title(rows.insert(i, (title, state)), title),
        forall|k: int|
            0 <= k < rows.insert(i, (title, state)).len() && #[trigger] rows.insert(
                i,
                (title, state),
            )[k].0 == title ==> rows.insert(i, (title, state))[k].1 == state,
{
    let x = (title, state);
    let ins = rows.insert(i, x);
    assert(ins.len() == rows.len() + 1);
    assert(forall|k: int| 0 <= k < i ==> #[trigger] ins[k] == rows[k]);
    assert(ins[i] == x);
    assert(forall|k: int| i < k < ins.len() ==> #[trigger] ins[k] == rows[k - 1]);
    assert(forall|k: int| 0 <= k < rows.len() ==> #[trigger] rows[k].0 != title);
    assert forall|p: int, q: int| 0 <= p < q < ins.len() implies ins[p].0 != ins[q].0 by {
        if p == i {
            assert(ins[q] == rows[q - 1]);
        } else if q == i {
            assert(ins[p] == rows[p]);
        }
    }
}

/// Law: an upsert touches no row under any other title; what a delete of the
/// upserted title would leave is the same before and after.
pub proof fn lemma_upsert_preserves_others(
    rows: Seq<(Seq<char>, Seq<char>)>,
    title: Seq<char>,
    state: Seq<char>,
    out: Seq<(Seq<char>, Seq<char>)>,
)
    requires
        upserted(rows, title, state, out),
    ensures
        remove_title(out, title) == remove_title(rows, title),
{
    if has_title(rows, title) {
        lemma_set_state_remove(rows, title, state);
    } else {
        let i = choose|i: int| 0 <= i <= rows.len() && out == rows.insert(i, (title, state));
        lemma_insert_title_remove(rows, i, title, state);
    }
}

proof fn lemma_insert_title_remove(
    rows: Seq<(Seq<char>, Seq<char>)>,
    i: int,
    title: Seq<char>,
    state: Seq<char>,
)
    requires
        0 <= i <= rows.len(),
    ensures
        remove_title(rows.insert(i, (title, state)), title) == remove_title(rows, title),
    decreases rows.len(),
{
    reveal(Seq::filter);
    let x = (title, state);
    let ins = rows.insert(i, x);
    if i == rows.len() {
        assert(ins =~= rows.push(x));
        assert(ins.drop_last() =~= rows);
        assert(ins.last() == x);
        assert(remove_title(ins, title) == remove_title(rows, title));
    } else {
        assert(ins.drop_last() =~= rows.drop_last().insert(i, x));
        assert(ins.last() == rows.last());
        lemma_insert_title_remove(rows.drop_last(), i, title, state);
    }
}

proof fn lemma_set_state_remove(
    rows: Seq<(Seq<char>, Seq<char>)>,
    title: Seq<char>,
    state: Seq<char>,
)
    ensures
        remove_title(set_state_rows(rows, title, state), title) == remove_title(rows, title),
    decreases rows.len(),
{
    reveal(Seq::filter);
    let pred = |r: (Seq<char>, Seq<char>)| r.0 != title;
    if rows.len() == 0 {
        assert(set_state_rows(rows, title, state) =~= rows);
    } else {
        let sub = rows.drop_last();
        lemma_set_state_remove(sub, title, state);
        assert(set_state_rows(rows, title, state).drop_last() =~= set_state_rows(
            sub,
            title,
            state,
        ));
        assert(set_state_rows(rows, title, state).last() == (if rows.last().0 == title {
            (rows.last().0, state)
        } else {
            rows.last()
        }));
    }
}

/// Law: deleting a title that no row carries changes nothing.
pub proof fn lemma_remove_absent(rows: Seq<(Seq<char>, Seq<char>)>, title: Seq<char>)
    requires
        !has_title(rows, title),
    ensures
        remove_title(rows, title) == rows,
    decreases rows.len(),
{
    reveal(Seq::filter);
    if rows.len() > 0 {
        assert(!has_title(rows.drop_last(), title));
        lemma_remove_absent(rows.drop_last(), title);
        assert(remove_title(rows, title) =~= rows);
    }
}

/// Law: a delete keeps the table duplicate-free, leaves no row under the
/// deleted title, and invents no row.
pub proof fn lemma_remove_title_unique(rows: Seq<(Seq<char>, Seq<char>)>, title: Seq<char>)
    requires
        unique_titles(rows),
    ensures
        unique_titles(remove_title(rows, title)),
        forall|i: int|
            0 <= i < remove_title(rows, title).len() ==> #[trigger] remove_title(rows, title)[i].0
                != title,
        forall|i: int|
            0 <= i < remove_title(rows, title).len() ==> rows.contains(
                #[trigger] remove_title(rows, title)[i],
            ),
    decreases rows.len(),
{
    reveal(Seq::filter);
    if rows.len() > 0 {
        let sub = rows.drop_last();
        assert(forall|i: int| 0 <= i < sub.len() ==> sub[i] == rows[i]);
        lemma_remove_title_unique(sub, title);
        let out = remove_title(rows, title);
        let subout = remove_title(sub, title);
        assert(forall|i: int|
            0 <= i < subout.len() ==> rows.contains(#[trigger] subout[i])) by {
            assert(forall|i: int| #![all_triggers]
                0 <= i < subout.len() ==> sub.contains(subout[i]));
            assert(forall|x: (Seq<char>, Seq<char>)| #![all_triggers]
                sub.contains(x) ==> rows.contains(x));
        }
        if rows.last().0 != title {
            assert(out == subout.push(rows.last()));
            assert(rows.contains(rows.last()));
            assert forall|i: int, j: int| 0 <= i < j < out.len() implies out[i].0 != out[j].0 by {
                if j == out.len() - 1 {
                    assert(rows.contains(out[i]));
                    let k = choose|k: int| 0 <= k < rows.len() && rows[k] == out[i];
                    if k < rows.len() - 1 {
                        assert(rows[k].0 != rows[rows.len() - 1].0);
                    } else {
                        assert(out[i].0 != title);
                    }
                }
            }
        } else {
            assert(out == subout);
        }
    }
}

/// Law: filtering by state keeps the table duplicate-free, keeps only rows
/// whose state matches, keeps every such row, and invents none.
pub proof fn lemma_rows_with_state_unique(rows: Seq<(Seq<char>, Seq<char>)>, state: Seq<char>)
    requires
        unique_titles(rows),
    ensures
        unique_titles(rows_with_state(rows, state)),
        forall|i: int|
            0 <= i < rows_with_state(rows, state).len() ==> #[trigger] rows_with_state(
                rows,
                state,
            )[i].1 == state,
        forall|i: int|
            0 <= i < rows.len() && rows[i].1 == state ==> rows_with_state(rows, state).contains(
                rows[i],
            ),
        forall|i: int|
            0 <= i < rows_with_state(rows, state).len() ==> rows.contains(
                #[trigger] rows_with_state(rows, state)[i],
            ),
    decreases rows.len(),
{
    reveal(Seq::filter);
    if rows.len() > 0 {
        let sub = rows.drop_last();
        assert(forall|i: int| 0 <= i < sub.len() ==> sub[i] == rows[i]);
        lemma_rows_with_state_unique(sub, state);
        let out = rows_with_state(rows, state);
        let subout = rows_with_state(sub, state);
        assert(forall|i: int|
            0 <= i < subout.len() ==> rows.contains(#[trigger] subout[i])) by {
            assert(forall|i: int| #![all_triggers]
                0 <= i < subout.len() ==> sub.contains(subout[i]));
            assert(forall|x: (Seq<char>, Seq<char>)| #![all_triggers]
                sub.contains(x) ==> rows.contains(x));
        }
        assert(forall|x: (Seq<char>, Seq<char>)| #![all_triggers]
            subout.contains(x) ==> out.contains(x)) by {
            if rows.last().1 == state {
                assert(out == subout.push(rows.last()));
                assert(forall|i: int| 0 <= i < subout.len() ==> out[i] == subout[i]);
            } else {
                assert(out == subout);
            }
        }
        if rows.last().1 == state {
            assert(out == subout.push(rows.last()));
            assert(rows.contains(rows.last()));
            assert(out.contains(rows.last())) by {
                assert(out[out.len() - 1] == rows.last());
            }
            assert forall|i: int, j: int| 0 <= i < j < out.len() implies out[i].0 != out[j].0 by {
                if j == out.len() - 1 {
                    assert(rows.contains(out[i]));
                    let k = choose|k: int| 0 <= k < rows.len() && rows[k] == out[i];
                    if k < rows.len() - 1 {
                        assert(rows[k].0 != rows[rows.len() - 1].0);
                    } else {
                        assert(subout.contains(out[i]));
                        let m = choose|m: int| 0 <= m < subout.len() && subout[m] == out[i];
                        assert(sub.contains(subout[m]));
                        let n = choose|n: int| 0 <= n < sub.len() && sub[n] == out[i];
                        assert(rows[n] == out[i]);
                        assert(rows[n].0 != rows[rows.len() - 1].0);
                    }
                }
            }
        } else {
            assert(out == subout);
        }
    }
}

} // verus!
