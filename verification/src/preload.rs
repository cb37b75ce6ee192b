//! Preloading: loading a relation's rows without the N+1 problem.
//!
//! A plain join filters but does not load related rows. Preloading runs the
//! parent query, then, per relation, follow-up queries that load every related
//! row with `WHERE key IN (...)`, and stitches the rows onto each parent. Here are
//! the parts of that plan that decide: which keys to ask for, how many per query,
//! and which related rows belong to which parent.

use vstd::prelude::*;

use crate::query::expr::Expr;
use crate::value::{same_key, same_key_exec, Value};

verus! {

/// Whether one of `keys` is the same key as `key`.
pub open spec fn has_key(keys: Seq<Value>, key: Value) -> bool {
    exists|i: int| 0 <= i < keys.len() && same_key(#[trigger] keys[i], key)
}

/// The keys to load children for: the parents' keys, the first of each distinct
/// key in parent order, skipping parents without one.
pub open spec fn distinct_keys(keys: Seq<Option<Value>>) -> Seq<Value>
    decreases keys.len(),
{
    if keys.len() == 0 {
        seq![]
    } else {
        let earlier = distinct_keys(keys.drop_last());
        match keys.last() {
            Some(v) => if has_key(earlier, v) {
                earlier
            } else {
                earlier.push(v)
            },
            None => earlier,
        }
    }
}

/// Whether one of `keys` is the same key as `key`.
pub fn has_key_exec(keys: &Vec<Value>, key: &Value) -> (b: bool)
    ensures
        b == has_key(keys@, *key),
{
    let mut i: usize = 0;
    while i < keys.len()
        invariant
            i <= keys@.len(),
            forall|j: int| 0 <= j < i ==> !same_key(#[trigger] keys@[j], *key),
        decreases keys@.len() - i,
    {
        if same_key_exec(&keys[i], key) {
            return true;
        }
        i = i + 1;
    }
    false
}

/// The distinct keys of the parents, in parent order (the first of each), without
/// the parents that have none.
pub fn collect_keys(parent_keys: Vec<Option<Value>>) -> (r: Vec<Value>)
    ensures
        r@ == distinct_keys(parent_keys@),
{
    let ghost all = parent_keys@;
    assert(all.len() == parent_keys.len());
    let mut rest = parent_keys;
    let mut out: Vec<Value> = Vec::new();
    let mut i: usize = 0;
    while rest.len() > 0
        invariant
            i + rest@.len() == all.len(),
            all.len() <= usize::MAX,
            rest@ == all.subrange(i as int, all.len() as int),
            out@ == distinct_keys(all.take(i as int)),
        decreases rest@.len(),
    {
        let key = rest.remove(0);
        assert(all.take(i + 1 as int).drop_last() == all.take(i as int));
        assert(all.take(i + 1 as int).last() == key);
        if let Some(v) = key {
            if !has_key_exec(&out, &v) {
                out.push(v);
            }
        }
        i = i + 1;
    }
    assert(all.take(i as int) == all);
    out
}

/// No two of the collected keys are the same key.
pub proof fn lemma_collected_keys_distinct(keys: Seq<Option<Value>>)
    ensures
        forall|i: int, j: int|
            0 <= i < j < distinct_keys(keys).len() ==> !same_key(
                #[trigger] distinct_keys(keys)[i],
                #[trigger] distinct_keys(keys)[j],
            ),
    decreases keys.len(),
{
    if keys.len() > 0 {
        lemma_collected_keys_distinct(keys.drop_last());
        let earlier = distinct_keys(keys.drop_last());
        match keys.last() {
            Some(v) => {
                if !has_key(earlier, v) {
                    let d = distinct_keys(keys);
                    assert forall|i: int, j: int| 0 <= i < j < d.len() implies !same_key(
                        #[trigger] d[i],
                        #[trigger] d[j],
                    ) by {
                        if j == d.len() - 1 {
                            assert(d[i] == earlier[i]);
                            assert(d[j] == v);
                        } else {
                            assert(d[i] == earlier[i]);
                            assert(d[j] == earlier[j]);
                        }
                    }
                }
            },
            None => {},
        }
    }
}

/// How many keys one preload query binds: the backend's bind-parameter ceiling
/// less a margin of sixteen for the relation's own filters, and at least one.
pub open spec fn key_chunk_size(max_bind_params: nat) -> nat {
    if max_bind_params > 17 {
        (max_bind_params - 16) as nat
    } else {
        1
    }
}

/// The number of keys per preload query.
pub fn preload_chunk_size(max_bind_params: usize) -> (n: usize)
    ensures
        n == key_chunk_size(max_bind_params as nat),
{
    let rest = max_bind_params.saturating_sub(16);
    if rest == 0 {
        1
    } else {
        rest
    }
}

/// The chunks of a list of keys, one after another.
pub open spec fn joined_chunks(chunks: Seq<Vec<Value>>) -> Seq<Value>
    decreases chunks.len(),
{
    if chunks.len() == 0 {
        seq![]
    } else {
        joined_chunks(chunks.drop_last()) + chunks.last()@
    }
}

/// The keys split into consecutive chunks of `size` keys (the last one possibly
/// shorter), one per preload query; no keys, no chunks.
pub fn key_chunks(keys: Vec<Value>, size: usize) -> (r: Vec<Vec<Value>>)
    requires
        size >= 1,
    ensures
        joined_chunks(r@) == keys@,
        forall|i: int| 0 <= i < r@.len() ==> 1 <= (#[trigger] r@[i])@.len() <= size,
        forall|i: int| 0 <= i < r@.len() - 1 ==> (#[trigger] r@[i])@.len() == size,
{
    let ghost all = keys@;
    let mut rest = keys;
    let mut out: Vec<Vec<Value>> = Vec::new();
    let mut current: Vec<Value> = Vec::new();
    while rest.len() > 0
        invariant
            size >= 1,
            current@.len() < size,
            joined_chunks(out@) + current@ + rest@ == all,
            forall|i: int| 0 <= i < out@.len() ==> (#[trigger] out@[i])@.len() == size,
        decreases rest@.len(),
    {
        let ghost before = joined_chunks(out@) + current@ + rest@;
        let key = rest.remove(0);
        current.push(key);
        assert(joined_chunks(out@) + current@ + rest@ == before);
        if current.len() == size {
            let chunk = current;
            current = Vec::new();
            let ghost prev = out@;
            out.push(chunk);
            assert(out@.drop_last() == prev);
        }
    }
    if current.len() > 0 {
        let ghost prev = out@;
        out.push(current);
        assert(out@.drop_last() == prev);
    }
    out
}

/// The predicate of one preload query: the child's join column among the chunk's
/// keys.
pub fn keys_filter(child_table: &'static str, child_column: &'static str, keys: Vec<Value>) -> (e: Expr)
    ensures
        e == (Expr::InList { expr: Box::new(Expr::Column { table: child_table, column: child_column }), values: keys }),
{
    Expr::in_list(Expr::column(child_table, child_column), keys)
}

/// The positions of the related rows whose key is the same key as `key`, in row
/// order.
pub open spec fn rows_with_key(row_keys: Seq<Value>, key: Value) -> Seq<usize>
    decreases row_keys.len(),
{
    if row_keys.len() == 0 {
        seq![]
    } else if same_key(row_keys.last(), key) {
        rows_with_key(row_keys.drop_last(), key).push((row_keys.len() - 1) as usize)
    } else {
        rows_with_key(row_keys.drop_last(), key)
    }
}

/// The related rows of each parent, by position: for a parent with a key, every
/// related row with the same key, in the order the rows came back; for a parent
/// without one, none.
pub fn group_rows(parent_keys: &Vec<Option<Value>>, row_keys: &Vec<Value>) -> (r: Vec<Vec<usize>>)
    ensures
        r@.len() == parent_keys@.len(),
        forall|p: int|
            0 <= p < parent_keys@.len() ==> (#[trigger] r@[p])@ == match parent_keys@[p] {
                Some(k) => rows_with_key(row_keys@, k),
                None => seq![],
            },
{
    let mut r: Vec<Vec<usize>> = Vec::new();
    let mut p: usize = 0;
    while p < parent_keys.len()
        invariant
            p <= parent_keys@.len(),
            r@.len() == p,
            forall|q: int|
                0 <= q < p ==> (#[trigger] r@[q])@ == match parent_keys@[q] {
                    Some(k) => rows_with_key(row_keys@, k),
                    None => seq![],
                },
        decreases parent_keys@.len() - p,
    {
        let mut mine: Vec<usize> = Vec::new();
        match &parent_keys[p] {
            Some(key) => {
                let mut i: usize = 0;
                while i < row_keys.len()
                    invariant
                        i <= row_keys@.len(),
                        mine@ == rows_with_key(row_keys@.take(i as int), *key),
                    decreases row_keys@.len() - i,
                {
                    assert(row_keys@.take(i + 1 as int).drop_last() == row_keys@.take(i as int));
                    if same_key_exec(&row_keys[i], key) {
                        mine.push(i);
                    }
                    i = i + 1;
                }
                assert(row_keys@.take(i as int) == row_keys@);
            },
            None => {},
        }
        r.push(mine);
        p = p + 1;
    }
    r
}

} // verus!
