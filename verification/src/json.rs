//! JSON values and their canonical form: the same value with the entries of
//! every object ordered by key, as the sandbox emits canonicalized output.

use vstd::prelude::*;
use crate::text::{compare_text, text_lt, TextOrder, lemma_text_lt_asymmetric,
    lemma_text_lt_transitive, lemma_text_lt_irreflexive, lemma_text_lt_total};

verus! {

/// A JSON value. Numbers are kept as their JSON text.
#[derive(Debug)]
pub enum JsonValue {
    Null,
    Bool(bool),
    Number(String),
    Str(String),
    Array(Vec<JsonValue>),
    Object(Vec<(String, JsonValue)>),
}

/// `p` is a permutation of the positions `0..n`.
pub open spec fn is_permutation(p: Seq<int>, n: nat) -> bool {
    &&& p.len() == n
    &&& forall|i: int| 0 <= i < n ==> 0 <= #[trigger] p[i] < n
    &&& forall|i: int, j: int| 0 <= i < n && 0 <= j < n && i != j ==> p[i] != p[j]
}

/// The keys of `entries` never decrease.
pub open spec fn keys_sorted(entries: Seq<(String, JsonValue)>) -> bool {
    forall|i: int, j: int|
        0 <= i < j < entries.len() ==> !text_lt((#[trigger] entries[j]).0@, (#[trigger] entries[i]).0@)
}

/// `w` is `v` with every object's entries put in key order: arrays keep
/// their order, object entries are permuted into non-decreasing key order
/// (entries with equal keys keep their relative order), and scalars are
/// unchanged.
pub open spec fn canonical_form_of(v: JsonValue, w: JsonValue) -> bool
    decreases v,
{
    match v {
        JsonValue::Null => w is Null,
        JsonValue::Bool(b) => w matches JsonValue::Bool(c) && b == c,
        JsonValue::Number(n) => w matches JsonValue::Number(m) && n@ == m@,
        JsonValue::Str(s) => w matches JsonValue::Str(t) && s@ == t@,
        JsonValue::Array(a) => w matches JsonValue::Array(b) && a@.len() == b@.len() && forall|i: int|
            0 <= i < a@.len() ==> canonical_form_of(#[trigger] a@[i], b@[i]),
        JsonValue::Object(a) => w matches JsonValue::Object(b) && a@.len() == b@.len() && keys_sorted(
            b@,
        ) && exists|p: Seq<int>|
            is_permutation(p, a@.len()) && (forall|i: int, j: int|
                0 <= i < j < b@.len() && b@[i].0@ == b@[j].0@ ==> #[trigger] p[i] < #[trigger] p[j])
                && forall|i: int|
                0 <= i < b@.len() ==> 0 <= #[trigger] p[i] < a@.len() && b@[i].0@ == a@[p[i]].0@
                    && canonical_form_of(a@[p[i]].1, b@[i].1),
    }
}

/// `v` is in canonical form: every object's entries are in key order,
/// recursively.
pub open spec fn is_canonical(v: JsonValue) -> bool
    decreases v,
{
    match v {
        JsonValue::Array(a) => forall|i: int| 0 <= i < a@.len() ==> is_canonical(#[trigger] a@[i]),
        JsonValue::Object(a) => keys_sorted(a@) && forall|i: int|
            0 <= i < a@.len() ==> is_canonical((#[trigger] a@[i]).1),
        _ => true,
    }
}

/// `v` and `w` are the same JSON value (same structure, same texts).
pub open spec fn same_json(v: JsonValue, w: JsonValue) -> bool
    decreases v,
{
    match v {
        JsonValue::Null => w is Null,
        JsonValue::Bool(b) => w matches JsonValue::Bool(c) && b == c,
        JsonValue::Number(n) => w matches JsonValue::Number(m) && n@ == m@,
        JsonValue::Str(s) => w matches JsonValue::Str(t) && s@ == t@,
        JsonValue::Array(a) => w matches JsonValue::Array(b) && a@.len() == b@.len() && forall|i: int|
            0 <= i < a@.len() ==> same_json(#[trigger] a@[i], b@[i]),
        JsonValue::Object(a) => w matches JsonValue::Object(b) && a@.len() == b@.len() && forall|i: int|
            0 <= i < a@.len() ==> (#[trigger] a@[i]).0@ == b@[i].0@ && same_json(a@[i].1, b@[i].1),
    }
}

/// Law: the canonical form of any value is canonical.
pub proof fn lemma_canonical_form_is_canonical(v: JsonValue, w: JsonValue)
    requires
        canonical_form_of(v, w),
    ensures
        is_canonical(w),
    decreases v,
{
    match v {
        JsonValue::Array(a) => {
            let b = w->Array_0;
            assert forall|i: int| 0 <= i < b@.len() implies is_canonical(#[trigger] b@[i]) by {
                assert(decreases_to!(v => v->Array_0));
                assert(decreases_to!(v->Array_0 => a@));
                assert(decreases_to!(a@ => a@[i]));
                lemma_canonical_form_is_canonical(a@[i], b@[i]);
            }
        },
        JsonValue::Object(a) => {
            let b = w->Object_0;
            let p = choose|p: Seq<int>|
                is_permutation(p, a@.len()) && (forall|i: int, j: int|
                    0 <= i < j < b@.len() && b@[i].0@ == b@[j].0@ ==> #[trigger] p[i]
                        < #[trigger] p[j]) && forall|i: int|
                    0 <= i < b@.len() ==> 0 <= #[trigger] p[i] < a@.len() && b@[i].0@ == a@[p[i]].0@
                        && canonical_form_of(a@[p[i]].1, b@[i].1);
            assert forall|i: int| 0 <= i < b@.len() implies is_canonical((#[trigger] b@[i]).1) by {
                let k = p[i];
                assert(0 <= k < a@.len());
                assert(decreases_to!(v => v->Object_0));
                assert(decreases_to!(v->Object_0 => a@));
                assert(decreases_to!(a@ => a@[k]));
                assert(decreases_to!(a@[k] => a@[k].1));
                lemma_canonical_form_is_canonical(a@[k].1, b@[i].1);
            }
        },
        _ => {},
    }
}

/// No object in `v` holds two entries with the same key, recursively (as a
/// parsed JSON document, whose objects are maps, never does).
pub open spec fn unique_keys(v: JsonValue) -> bool
    decreases v,
{
    match v {
        JsonValue::Array(a) => forall|i: int| 0 <= i < a@.len() ==> unique_keys(#[trigger] a@[i]),
        JsonValue::Object(a) => (forall|i: int, j: int|
            0 <= i < j < a@.len() ==> (#[trigger] a@[i]).0@ != (#[trigger] a@[j]).0@) && forall|i: int|
            0 <= i < a@.len() ==> unique_keys((#[trigger] a@[i]).1),
        _ => true,
    }
}

/// Every object in `v` has its keys in strictly increasing order,
/// recursively.
pub open spec fn is_strictly_canonical(v: JsonValue) -> bool
    decreases v,
{
    match v {
        JsonValue::Array(a) => forall|i: int|
            0 <= i < a@.len() ==> is_strictly_canonical(#[trigger] a@[i]),
        JsonValue::Object(a) => (forall|i: int, j: int|
            0 <= i < j < a@.len() ==> text_lt((#[trigger] a@[i]).0@, (#[trigger] a@[j]).0@))
            && forall|i: int| 0 <= i < a@.len() ==> is_strictly_canonical((#[trigger] a@[i]).1),
        _ => true,
    }
}

/// Law: the canonical form of a value whose objects have unique keys has
/// every object's keys in strictly increasing order.
pub proof fn lemma_unique_keys_strictly_canonical(v: JsonValue, w: JsonValue)
    requires
        canonical_form_of(v, w),
        unique_keys(v),
    ensures
        is_strictly_canonical(w),
    decreases v,
{
    match v {
        JsonValue::Array(a) => {
            let b = w->Array_0;
            assert forall|i: int| 0 <= i < b@.len() implies is_strictly_canonical(
                #[trigger] b@[i],
            ) by {
                assert(decreases_to!(v => v->Array_0));
                assert(decreases_to!(v->Array_0 => a@));
                assert(decreases_to!(a@ => a@[i]));
                lemma_unique_keys_strictly_canonical(a@[i], b@[i]);
            }
        },
        JsonValue::Object(a) => {
            let b = w->Object_0;
            let p = choose|p: Seq<int>|
                is_permutation(p, a@.len()) && (forall|i: int, j: int|
                    0 <= i < j < b@.len() && b@[i].0@ == b@[j].0@ ==> #[trigger] p[i]
                        < #[trigger] p[j]) && forall|i: int|
                    0 <= i < b@.len() ==> 0 <= #[trigger] p[i] < a@.len() && b@[i].0@ == a@[p[i]].0@
                        && canonical_form_of(a@[p[i]].1, b@[i].1);
            assert forall|i: int, j: int| 0 <= i < j < b@.len() implies text_lt(
                (#[trigger] b@[i]).0@,
                (#[trigger] b@[j]).0@,
            ) by {
                let ki = p[i];
                let kj = p[j];
                assert(ki != kj);
                assert(a@[ki].0@ != a@[kj].0@) by {
                    if ki < kj {
                        assert(a@[ki].0@ != a@[kj].0@);
                    } else {
                        assert(a@[kj].0@ != a@[ki].0@);
                    }
                }
                assert(!text_lt(b@[j].0@, b@[i].0@));
                lemma_text_lt_total(b@[i].0@, b@[j].0@);
            }
            assert forall|i: int| 0 <= i < b@.len() implies is_strictly_canonical(
                (#[trigger] b@[i]).1,
            ) by {
                let k = p[i];
                assert(0 <= k < a@.len());
                assert(decreases_to!(v => v->Object_0));
                assert(decreases_to!(v->Object_0 => a@));
                assert(decreases_to!(a@ => a@[k]));
                assert(decreases_to!(a@[k] => a@[k].1));
                lemma_unique_keys_strictly_canonical(a@[k].1, b@[i].1);
            }
        },
        _ => {},
    }
}

/// A strictly increasing permutation is the identity.
proof fn lemma_increasing_permutation_is_identity(p: Seq<int>, n: nat)
    requires
        is_permutation(p, n),
        forall|i: int, j: int| 0 <= i < j < n ==> p[i] < p[j],
    ensures
        forall|i: int| 0 <= i < n ==> #[trigger] p[i] == i,
{
    assert forall|i: int| 0 <= i < n implies #[trigger] p[i] == i by {
        lemma_increasing_lower(p, n, i);
        lemma_increasing_upper(p, n, i);
    }
}

proof fn lemma_increasing_lower(p: Seq<int>, n: nat, i: int)
    requires
        is_permutation(p, n),
        forall|a: int, b: int| 0 <= a < b < n ==> p[a] < p[b],
        0 <= i < n,
    ensures
        p[i] >= i,
    decreases i,
{
    if i > 0 {
        lemma_increasing_lower(p, n, i - 1);
        assert(p[i - 1] < p[i]);
    } else {
        assert(0 <= p[0]);
    }
}

proof fn lemma_increasing_upper(p: Seq<int>, n: nat, i: int)
    requires
        is_permutation(p, n),
        forall|a: int, b: int| 0 <= a < b < n ==> p[a] < p[b],
        0 <= i < n,
    ensures
        p[i] <= i,
    decreases n - i,
{
    if i < n - 1 {
        lemma_increasing_upper(p, n, i + 1);
        assert(p[i] < p[i + 1]);
    } else {
        assert(p[i] < n);
    }
}

/// Law: canonicalizing a value that is already canonical changes nothing,
/// so canonicalization is idempotent.
pub proof fn lemma_canonical_form_of_canonical(v: JsonValue, w: JsonValue)
    requires
        is_canonical(v),
        canonical_form_of(v, w),
    ensures
        same_json(v, w),
    decreases v,
{
    match v {
        JsonValue::Array(a) => {
            let b = w->Array_0;
            assert forall|i: int| 0 <= i < a@.len() implies same_json(#[trigger] a@[i], b@[i]) by {
                assert(decreases_to!(v => v->Array_0));
                assert(decreases_to!(v->Array_0 => a@));
                assert(decreases_to!(a@ => a@[i]));
                lemma_canonical_form_of_canonical(a@[i], b@[i]);
            }
        },
        JsonValue::Object(a) => {
            let b = w->Object_0;
            let n = a@.len();
            let p = choose|p: Seq<int>|
                is_permutation(p, a@.len()) && (forall|i: int, j: int|
                    0 <= i < j < b@.len() && b@[i].0@ == b@[j].0@ ==> #[trigger] p[i]
                        < #[trigger] p[j]) && forall|i: int|
                    0 <= i < b@.len() ==> 0 <= #[trigger] p[i] < a@.len() && b@[i].0@ == a@[p[i]].0@
                        && canonical_form_of(a@[p[i]].1, b@[i].1);
            assert forall|i: int, j: int| 0 <= i < j < n implies p[i] < p[j] by {
                let ki = b@[i].0@;
                let kj = b@[j].0@;
                if ki == kj {
                    assert(p[i] < p[j]);
                } else {
                    assert(!text_lt(kj, ki));
                    lemma_text_lt_total(ki, kj);
                    assert(text_lt(ki, kj));
                    assert(p[i] != p[j]);
                    if p[i] > p[j] {
                        assert(!text_lt(a@[p[i]].0@, a@[p[j]].0@));
                    }
                }
            }
            lemma_increasing_permutation_is_identity(p, n);
            assert forall|i: int| 0 <= i < n implies (#[trigger] a@[i]).0@ == b@[i].0@ && same_json(
                a@[i].1,
                b@[i].1,
            ) by {
                assert(p[i] == i);
                assert(decreases_to!(v => v->Object_0));
                assert(decreases_to!(v->Object_0 => a@));
                assert(decreases_to!(a@ => a@[i]));
                assert(decreases_to!(a@[i] => a@[i].1));
                assert(is_canonical(a@[i].1));
                lemma_canonical_form_of_canonical(a@[i].1, b@[i].1);
            }
        },
        _ => {},
    }
}

/// Sort entries by key, keeping the relative order of equal keys. Returns
/// the sorted entries and the permutation `p` with `sorted[i] == input[p[i]]`.
fn sort_entries_by_key(input: Vec<(String, JsonValue)>) -> (r: (
    Vec<(String, JsonValue)>,
    Ghost<Seq<int>>,
))
    ensures
        keys_sorted(r.0@),
        is_permutation(r.1@, input@.len()),
        r.0@.len() == input@.len(),
        forall|i: int| 0 <= i < r.0@.len() ==> (#[trigger] r.0@[i]) == input@[r.1@[i]],
        forall|i: int, j: int|
            0 <= i < j < r.0@.len() && r.0@[i].0@ == r.0@[j].0@ ==> #[trigger] r.1@[i]
                < #[trigger] r.1@[j],
{
    let ghost orig = input@;
    let n = input.len();
    let mut rest = input;
    let mut out: Vec<(String, JsonValue)> = Vec::new();
    let ghost mut perm: Seq<int> = Seq::empty();
    let mut j: usize = 0;
    while j < n
        invariant
            n == orig.len(),
            j <= n,
            rest@ == orig.skip(j as int),
            out@.len() == j,
            perm.len() == j,
            forall|i: int| 0 <= i < j ==> 0 <= #[trigger] perm[i] < j,
            forall|i: int, k: int| 0 <= i < j && 0 <= k < j && i != k ==> perm[i] != perm[k],
            forall|i: int| 0 <= i < j ==> (#[trigger] out@[i]) == orig[perm[i]],
            keys_sorted(out@),
            forall|i: int, k: int|
                0 <= i < k < j && out@[i].0@ == out@[k].0@ ==> #[trigger] perm[i]
                    < #[trigger] perm[k],
        decreases n - j,
    {
        proof {
            assert(rest@.len() > 0);
            assert(rest@[0] == orig[j as int]);
        }
        let e = rest.remove(0);
        proof {
            assert(rest@ =~= orig.skip(j + 1));
        }
        let mut pos: usize = 0;
        while pos < out.len()
            invariant
                pos <= out@.len(),
                forall|q: int| 0 <= q < pos ==> !text_lt(e.0@, (#[trigger] out@[q]).0@),
            ensures
                pos <= out@.len(),
                forall|q: int| 0 <= q < pos ==> !text_lt(e.0@, (#[trigger] out@[q]).0@),
                pos < out@.len() ==> text_lt(e.0@, out@[pos as int].0@),
            decreases out@.len() - pos,
        {
            match compare_text(out[pos].0.as_str(), e.0.as_str()) {
                TextOrder::Greater => {
                    break;
                },
                _ => {
                    pos = pos + 1;
                },
            }
        }
        let ghost old_out = out@;
        let ghost ek = e.0@;
        proof {
            if pos < out@.len() {
                assert(text_lt(ek, old_out[pos as int].0@));
            }
        }
        out.insert(pos, e);
        proof {
            let old_perm = perm;
            perm = perm.insert(pos as int, j as int);
            assert forall|a: int, b: int| 0 <= a < b < out@.len() implies !text_lt(
                (#[trigger] out@[b]).0@,
                (#[trigger] out@[a]).0@,
            ) by {
                if b < pos {
                } else if b == pos {
                    assert(out@[a] == old_out[a]);
                } else if a < pos {
                    assert(out@[b] == old_out[b - 1]);
                    assert(out@[a] == old_out[a]);
                } else if a == pos {
                    assert(out@[b] == old_out[b - 1]);
                    let m = old_out[pos as int].0@;
                    let t = old_out[b - 1].0@;
                    assert(text_lt(ek, m));
                    if b - 1 > pos {
                        assert(!text_lt(t, m));
                        lemma_text_lt_total(t, m);
                        if t != m {
                            lemma_text_lt_transitive(ek, m, t);
                        }
                    }
                    lemma_text_lt_asymmetric(ek, t);
                } else {
                    assert(out@[b] == old_out[b - 1]);
                    assert(out@[a] == old_out[a - 1]);
                }
            }
            assert forall|i: int| 0 <= i < j + 1 implies 0 <= #[trigger] perm[i] < j + 1 by {
                if i < pos {
                    assert(perm[i] == old_perm[i]);
                } else if i > pos {
                    assert(perm[i] == old_perm[i - 1]);
                }
            }
            assert forall|i: int, k: int|
                0 <= i < j + 1 && 0 <= k < j + 1 && i != k implies perm[i] != perm[k] by {
                if i != pos as int && k != pos as int {
                    let i0 = if i < pos { i } else { i - 1 };
                    let k0 = if k < pos { k } else { k - 1 };
                    assert(perm[i] == old_perm[i0]);
                    assert(perm[k] == old_perm[k0]);
                } else if i == pos as int {
                    let k0 = if k < pos { k } else { k - 1 };
                    assert(perm[k] == old_perm[k0]);
                } else {
                    let i0 = if i < pos { i } else { i - 1 };
                    assert(perm[i] == old_perm[i0]);
                }
            }
            assert forall|i: int| 0 <= i < j + 1 implies (#[trigger] out@[i]) == orig[perm[i]] by {
                if i < pos {
                    assert(out@[i] == old_out[i]);
                    assert(perm[i] == old_perm[i]);
                } else if i > pos {
                    assert(out@[i] == old_out[i - 1]);
                    assert(perm[i] == old_perm[i - 1]);
                }
            }
            assert forall|i: int, k: int|
                0 <= i < k < j + 1 && out@[i].0@ == out@[k].0@ implies #[trigger] perm[i]
                < #[trigger] perm[k] by {
                if k < pos {
                    assert(out@[i] == old_out[i]);
                    assert(out@[k] == old_out[k]);
                } else if k == pos {
                    assert(perm[i] == old_perm[i]);
                } else if i < pos {
                    assert(out@[i] == old_out[i]);
                    assert(out@[k] == old_out[k - 1]);
                    assert(perm[i] == old_perm[i]);
                    assert(perm[k] == old_perm[k - 1]);
                } else if i == pos {
                    assert(out@[k] == old_out[k - 1]);
                    let m = old_out[pos as int].0@;
                    let t = old_out[k - 1].0@;
                    if k - 1 > pos {
                        lemma_text_lt_total(t, m);
                        if t != m {
                            lemma_text_lt_transitive(ek, m, t);
                        }
                    }
                    lemma_text_lt_irreflexive(ek);
                } else {
                    assert(out@[i] == old_out[i - 1]);
                    assert(out@[k] == old_out[k - 1]);
                    assert(perm[i] == old_perm[i - 1]);
                    assert(perm[k] == old_perm[k - 1]);
                }
            }
        }
        j = j + 1;
    }
    (out, Ghost(perm))
}

/// The canonical form of `v`: every object's entries sorted by key (stably),
/// recursively through arrays and object values.
/// When no object of `v` repeats a key (as in any parsed JSON document),
/// every object of the result has strictly increasing keys.
pub fn sort_json_value(v: &JsonValue) -> (r: JsonValue)
    ensures
        canonical_form_of(*v, r),
        unique_keys(*v) ==> is_strictly_canonical(r),
{
    let r = sort_value_rec(v);
    proof {
        if unique_keys(*v) {
            lemma_unique_keys_strictly_canonical(*v, r);
        }
    }
    r
}

fn sort_value_rec(v: &JsonValue) -> (r: JsonValue)
    ensures
        canonical_form_of(*v, r),
    decreases v,
{
    match v {
        JsonValue::Null => JsonValue::Null,
        JsonValue::Bool(b) => JsonValue::Bool(*b),
        JsonValue::Number(n) => JsonValue::Number(n.clone()),
        JsonValue::Str(t) => JsonValue::Str(t.clone()),
        JsonValue::Array(arr) => {
            let mut out: Vec<JsonValue> = Vec::new();
            let mut i: usize = 0;
            while i < arr.len()
                invariant
                    *v == JsonValue::Array(*arr),
                    i <= arr@.len(),
                    out@.len() == i,
                    forall|k: int| 0 <= k < i ==> canonical_form_of(#[trigger] arr@[k], out@[k]),
                decreases arr@.len() - i,
            {
                proof {
                    assert(decreases_to!(*v => v->Array_0));
                    assert(decreases_to!(*arr => arr@));
                    assert(decreases_to!(arr@ => arr@[i as int]));
                }
                let e = sort_value_rec(&arr[i]);
                out.push(e);
                i = i + 1;
            }
            JsonValue::Array(out)
        },
        JsonValue::Object(entries) => {
            let mut mapped: Vec<(String, JsonValue)> = Vec::new();
            let mut i: usize = 0;
            while i < entries.len()
                invariant
                    *v == JsonValue::Object(*entries),
                    i <= entries@.len(),
                    mapped@.len() == i,
                    forall|k: int|
                        0 <= k < i ==> (#[trigger] mapped@[k]).0@ == entries@[k].0@
                            && canonical_form_of(entries@[k].1, mapped@[k].1),
                decreases entries@.len() - i,
            {
                proof {
                    assert(decreases_to!(*v => v->Object_0));
                    assert(decreases_to!(*entries => entries@));
                    assert(decreases_to!(entries@ => entries@[i as int]));
                    assert(decreases_to!(entries@[i as int] => entries@[i as int].1));
                }
                let val = sort_value_rec(&entries[i].1);
                mapped.push((entries[i].0.clone(), val));
                i = i + 1;
            }
            let ghost m = mapped@;
            let (sorted, Ghost(p)) = sort_entries_by_key(mapped);
            proof {
                let b = sorted@;
                assert(forall|i: int|
                    0 <= i < b.len() ==> 0 <= #[trigger] p[i] < entries@.len() && b[i].0@
                        == entries@[p[i]].0@ && canonical_form_of(entries@[p[i]].1, b[i].1)) by {
                    assert forall|i: int| 0 <= i < b.len() implies 0 <= #[trigger] p[i]
                        < entries@.len() && b[i].0@ == entries@[p[i]].0@ && canonical_form_of(
                        entries@[p[i]].1,
                        b[i].1,
                    ) by {
                        assert(b[i] == m[p[i]]);
                    }
                }
            }
            JsonValue::Object(sorted)
        },
    }
}

#[verifier::external_type_specification]
#[verifier::external_body]
pub struct ExSerdeJsonValue(serde_json::Value);

/// Converts a `serde_json::Value` into a `JsonValue`, one variant for one
/// variant: numbers by their JSON text, objects by their entries in the
/// map's order. No contract: it serves `parse_json`, whose contract covers
/// the parse and this conversion together.
#[verifier::external_body]
fn json_from_serde(v: &serde_json::Value) -> JsonValue {
    match v {
        serde_json::Value::Null => JsonValue::Null,
        serde_json::Value::Bool(b) => JsonValue::Bool(*b),
        serde_json::Value::Number(n) => JsonValue::Number(n.to_string()),
        serde_json::Value::String(t) => JsonValue::Str(t.clone()),
        serde_json::Value::Array(a) => JsonValue::Array(a.iter().map(json_from_serde).collect()),
        serde_json::Value::Object(m) => JsonValue::Object(
            m.iter().map(|(k, e)| (k.clone(), json_from_serde(e))).collect(),
        ),
    }
}

/// Converts a `JsonValue` into a `serde_json::Value`, one variant for one
/// variant (`None` when a number's text is not a JSON number). No contract:
/// it serves `render_json_pretty`, whose contract covers the conversion and
/// the rendering together.
#[verifier::external_body]
fn json_to_serde(v: JsonValue) -> Option<serde_json::Value> {
    Some(match v {
        JsonValue::Null => serde_json::Value::Null,
        JsonValue::Bool(b) => serde_json::Value::Bool(b),
        JsonValue::Number(n) => serde_json::Value::Number(n.parse().ok()?),
        JsonValue::Str(t) => serde_json::Value::String(t),
        JsonValue::Array(a) => serde_json::Value::Array(a.into_iter().map(json_to_serde).collect::<Option<_>>()?),
        JsonValue::Object(e) => serde_json::Value::Object(
            e.into_iter().map(|(k, x)| json_to_serde(x).map(|y| (k, y))).collect::<Option<_>>()?,
        ),
    })
}

/// The JSON document that `serde_json::from_slice` reads from `data`
/// (`None` when `data` is not one JSON document), as a `JsonValue`.
pub uninterp spec fn json_parse(data: Seq<u8>) -> Option<JsonValue>;

/// The bytes that `serde_json::to_vec_pretty` renders for `v` (`None` when a
/// number's text is not a JSON number).
pub uninterp spec fn json_pretty(v: JsonValue) -> Option<Seq<u8>>;

/// Calls `serde_json::from_slice` into a `serde_json::Value` and converts the
/// result. Claimed: the result is `json_parse` of the bytes, and its objects
/// never repeat a key (serde_json's map holds each key once).
#[verifier::external_body]
fn parse_json(data: &[u8]) -> (r: Option<JsonValue>)
    ensures
        r == json_parse(data@),
        r matches Some(v) ==> unique_keys(v),
{
    match serde_json::from_slice::<serde_json::Value>(data) {
        Ok(v) => Some(json_from_serde(&v)),
        Err(_) => None,
    }
}

/// Converts `v` and calls `serde_json::to_vec_pretty`. Claimed: the result is
/// `json_pretty` of `v`.
#[verifier::external_body]
fn render_json_pretty(v: JsonValue) -> (r: Option<Vec<u8>>)
    ensures
        match json_pretty(v) {
            Some(b) => r matches Some(o) && o@ == b,
            None => r is None,
        },
{
    match json_to_serde(v) {
        Some(s) => serde_json::to_vec_pretty(&s).ok(),
        None => None,
    }
}

/// The bytes held by an optional vector.
pub open spec fn opt_bytes(o: Option<Vec<u8>>) -> Option<Seq<u8>> {
    match o {
        Some(v) => Some(v@),
        None => None,
    }
}

/// `r` is the canonical JSON rendering of `data`: `data` parses as one JSON
/// document, the canonical form of that document (keys strictly increasing
/// in every object) renders pretty-printed, and a newline follows. `None`
/// when the parse or the rendering fails.
pub open spec fn canonical_json_output(data: Seq<u8>, r: Option<Seq<u8>>) -> bool {
    match json_parse(data) {
        None => r is None,
        Some(v) => exists|w: JsonValue|
            #[trigger] canonical_form_of(v, w) && is_strictly_canonical(w) && match json_pretty(w) {
                Some(b) => r == Some(b.push(10u8)),
                None => r is None,
            },
    }
}

/// Canonicalize JSON output: parse, sort keys in every object, and render
/// pretty-printed with a trailing newline; `None` when `data` is not one
/// JSON document.
pub fn canonicalize_json(data: &[u8]) -> (r: Option<Vec<u8>>)
    ensures
        canonical_json_output(data@, opt_bytes(r)),
{
    let v = match parse_json(data) {
        Some(v) => v,
        None => return None,
    };
    let w = sort_json_value(&v);
    let ghost wg = w;
    let mut out = match render_json_pretty(w) {
        Some(o) => o,
        None => return None,
    };
    out.push(10u8);
    proof {
        assert(canonical_form_of(v, wg) && is_strictly_canonical(wg));
        assert(opt_bytes(Some(out)) == Some(json_pretty(wg)->0.push(10u8)));
    }
    Some(out)
}

} // verus!
