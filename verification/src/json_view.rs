//! The nullable rewrite depends on a document only through its view: two
//! values with the same content rewrite to the same content. This lets the
//! rewrite be stated on views alone.

use vstd::prelude::*;
use crate::json::{
    find_member, get_member, has_null_string, insert_member, is_null_arm, is_null_string,
    items_view, jview, lemma_find_in, lemma_jview_containers, lemma_node_step_ok, member_keys,
    members_of, members_view, merge_absent, node_step, non_null_strings, nullable_step, of_step,
    examples_step, or_insert_member, remove_member, rewrite_model, slot_items, slot_ok,
    type_step, without_null_arms, Json, JsonModel, Members, Slot,
};

verus! {

/// Two member values with the same content: input values with equal
/// views, equal made values, or item lists with equal views.
pub open spec fn slot_equiv(a: Slot, b: Slot) -> bool {
    match (a, b) {
        (Slot::Orig(x), Slot::Orig(y)) => jview(x) == jview(y),
        (Slot::Made(m), Slot::Made(n)) => m == n,
        (Slot::Items(xs), Slot::Items(ys)) => items_view(xs) == items_view(ys),
        _ => false,
    }
}

/// Two member lists with the same keys, in order, and values of the same
/// content.
pub open spec fn members_equiv(a: Members, b: Members) -> bool {
    &&& a.len() == b.len()
    &&& forall|i: int| #![trigger a[i]] 0 <= i < a.len() ==> a[i].0 == b[i].0 && slot_equiv(a[i].1, b[i].1)
}

proof fn lemma_equiv_at(a: Members, b: Members, i: int)
    requires
        members_equiv(a, b),
        0 <= i < a.len(),
    ensures
        a[i].0 == b[i].0,
        slot_equiv(a[i].1, b[i].1),
{
}

proof fn lemma_equiv_keys(a: Members, b: Members)
    requires
        members_equiv(a, b),
    ensures
        member_keys(a) == member_keys(b),
        find_member(a, "type"@) == find_member(b, "type"@),
        forall|k: Seq<char>| find_member(a, k) == find_member(b, k),
{
    assert(member_keys(a) =~= member_keys(b));
}

proof fn lemma_equiv_get(a: Members, b: Members, k: Seq<char>)
    requires
        members_equiv(a, b),
    ensures
        get_member(a, k) is Some <==> get_member(b, k) is Some,
        get_member(a, k) is Some ==> slot_equiv(get_member(a, k)->Some_0, get_member(b, k)->Some_0),
{
    lemma_equiv_keys(a, b);
    lemma_find_in(member_keys(a), k);
    let i = find_member(a, k);
    if i >= 0 {
        assert(a[i].0 == b[i].0);
    }
}

proof fn lemma_equiv_insert(a: Members, b: Members, k: Seq<char>, s: Slot, t: Slot)
    requires
        members_equiv(a, b),
        slot_equiv(s, t),
    ensures
        members_equiv(insert_member(a, k, s), insert_member(b, k, t)),
{
    lemma_equiv_keys(a, b);
    lemma_find_in(member_keys(a), k);
    let p = find_member(a, k);
    assert(p == find_member(b, k));
    let ra = insert_member(a, k, s);
    let rb = insert_member(b, k, t);
    assert forall|i: int| 0 <= i < ra.len() implies #[trigger] ra[i].0 == rb[i].0 && slot_equiv(
        ra[i].1,
        rb[i].1,
    ) by {
        if p >= 0 {
            if i == p {
                assert(ra[i] == (k, s) && rb[i] == (k, t));
            } else {
                assert(ra[i] == a[i] && rb[i] == b[i]);
                lemma_equiv_at(a, b, i);
            }
        } else if i < a.len() {
            assert(ra[i] == a[i] && rb[i] == b[i]);
            lemma_equiv_at(a, b, i);
        } else {
            assert(ra[i] == (k, s) && rb[i] == (k, t));
        }
    }
}

proof fn lemma_equiv_remove(a: Members, b: Members, k: Seq<char>)
    requires
        members_equiv(a, b),
    ensures
        members_equiv(remove_member(a, k), remove_member(b, k)),
    decreases a.len(),
{
    if a.len() > 0 {
        let pa = a.drop_last();
        let pb = b.drop_last();
        assert forall|i: int| 0 <= i < pa.len() implies #[trigger] pa[i].0 == pb[i].0 && slot_equiv(
            pa[i].1,
            pb[i].1,
        ) by {
            assert(pa[i] == a[i] && pb[i] == b[i]);
        }
        lemma_equiv_remove(pa, pb, k);
        let ra = remove_member(pa, k);
        let rb = remove_member(pb, k);
        assert(a[a.len() - 1].0 == b[b.len() - 1].0);
        assert(slot_equiv(a[a.len() - 1].1, b[b.len() - 1].1));
        if a[a.len() - 1].0 == k {
            assert(remove_member(a, k) == ra);
            assert(remove_member(b, k) == rb);
        } else {
            assert(remove_member(a, k) == ra.push(a[a.len() - 1]));
            assert(remove_member(b, k) == rb.push(b[b.len() - 1]));
            let qa = ra.push(a[a.len() - 1]);
            let qb = rb.push(b[b.len() - 1]);
            assert forall|i: int| 0 <= i < qa.len() implies #[trigger] qa[i].0 == qb[i].0
                && slot_equiv(qa[i].1, qb[i].1) by {
                if i < ra.len() {
                    assert(qa[i] == ra[i] && qb[i] == rb[i]);
                }
            }
        }
    }
}

proof fn lemma_equiv_or_insert(a: Members, b: Members, k: Seq<char>, s: Slot, t: Slot)
    requires
        members_equiv(a, b),
        slot_equiv(s, t),
    ensures
        members_equiv(or_insert_member(a, k, s), or_insert_member(b, k, t)),
{
    lemma_equiv_keys(a, b);
    assert(find_member(a, k) == find_member(b, k));
    let ra = or_insert_member(a, k, s);
    let rb = or_insert_member(b, k, t);
    assert forall|i: int| 0 <= i < ra.len() implies #[trigger] ra[i].0 == rb[i].0 && slot_equiv(
        ra[i].1,
        rb[i].1,
    ) by {
        if i < a.len() {
            assert(ra[i] == a[i] && rb[i] == b[i]);
        }
    }
}

/// The members of objects with equal views.
proof fn lemma_equiv_members_of(es: Seq<(String, Json)>, fs: Seq<(String, Json)>)
    requires
        members_view(es) == members_view(fs),
    ensures
        members_equiv(members_of(es), members_of(fs)),
{
    let a = members_of(es);
    let b = members_of(fs);
    assert(es.len() == members_view(es).len());
    assert(fs.len() == members_view(fs).len());
    assert forall|i: int| 0 <= i < a.len() implies #[trigger] a[i].0 == b[i].0 && slot_equiv(
        a[i].1,
        b[i].1,
    ) by {
        assert(members_view(es)[i] == members_view(fs)[i]);
    }
}

proof fn lemma_equiv_merge(a: Members, b: Members, am: Seq<(String, Json)>, bm: Seq<(String, Json)>)
    requires
        members_equiv(a, b),
        members_view(am) == members_view(bm),
    ensures
        members_equiv(merge_absent(a, am), merge_absent(b, bm)),
    decreases am.len(),
{
    assert(am.len() == members_view(am).len());
    assert(bm.len() == members_view(bm).len());
    if am.len() > 0 {
        let pa = am.drop_last();
        let pb = bm.drop_last();
        assert(members_view(pa) =~= members_view(am).drop_last());
        assert(members_view(pb) =~= members_view(bm).drop_last());
        lemma_equiv_merge(a, b, pa, pb);
        let n = am.len() - 1;
        assert(members_view(am)[n] == members_view(bm)[n]);
        lemma_equiv_or_insert(
            merge_absent(a, pa),
            merge_absent(b, pb),
            am[n].0@,
            Slot::Orig(am[n].1),
            Slot::Orig(bm[n].1),
        );
    }
}

/// A value's view is an array exactly when the value is one, with the
/// views of its items; likewise for objects and strings.
proof fn lemma_view_shape(x: Json, y: Json)
    requires
        jview(x) == jview(y),
    ensures
        x is Array <==> y is Array,
        x is Object <==> y is Object,
        x is Str <==> y is Str,
        (x is Array && y is Array) ==> items_view(x->Array_0@) == items_view(y->Array_0@),
        (x is Object && y is Object) ==> members_view(x->Object_0@) == members_view(y->Object_0@),
        (x is Str && y is Str) ==> x->Str_0@ == y->Str_0@,
{
    lemma_jview_containers(x);
    lemma_jview_containers(y);
}

proof fn lemma_equiv_slot_items(s: Slot, t: Slot)
    requires
        slot_equiv(s, t),
    ensures
        slot_items(s) is Some <==> slot_items(t) is Some,
        slot_items(s) is Some ==> items_view(slot_items(s)->Some_0) == items_view(
            slot_items(t)->Some_0,
        ),
{
    if let (Slot::Orig(x), Slot::Orig(y)) = (s, t) {
        lemma_view_shape(x, y);
    }
}

/// Whether a value is the string `"null"` depends on its view alone.
proof fn lemma_null_string_view(x: Json)
    ensures
        is_null_string(x) == (jview(x) == JsonModel::Str("null"@)),
{
}

proof fn lemma_items_view_at(xs: Seq<Json>, ys: Seq<Json>, i: int)
    requires
        items_view(xs) == items_view(ys),
        0 <= i < xs.len(),
    ensures
        xs.len() == ys.len(),
        jview(xs[i]) == jview(ys[i]),
{
    assert(items_view(xs).len() == xs.len());
    assert(items_view(ys).len() == ys.len());
    assert(items_view(xs)[i] == jview(xs[i]));
    assert(items_view(ys)[i] == jview(ys[i]));
}

proof fn lemma_items_view_prefix(xs: Seq<Json>, ys: Seq<Json>)
    requires
        items_view(xs) == items_view(ys),
        xs.len() > 0,
    ensures
        items_view(xs.drop_last()) == items_view(ys.drop_last()),
{
    assert(items_view(xs).len() == xs.len());
    assert(items_view(ys).len() == ys.len());
    assert(items_view(xs.drop_last()) =~= items_view(xs).drop_last());
    assert(items_view(ys.drop_last()) =~= items_view(ys).drop_last());
}

proof fn lemma_equiv_strings(xs: Seq<Json>, ys: Seq<Json>)
    requires
        items_view(xs) == items_view(ys),
    ensures
        non_null_strings(xs) == non_null_strings(ys),
        has_null_string(xs) == has_null_string(ys),
    decreases xs.len(),
{
    assert(items_view(xs).len() == xs.len());
    assert(items_view(ys).len() == ys.len());
    if xs.len() > 0 {
        lemma_items_view_prefix(xs, ys);
        lemma_equiv_strings(xs.drop_last(), ys.drop_last());
        lemma_items_view_at(xs, ys, xs.len() - 1);
        lemma_view_shape(xs[xs.len() - 1], ys[ys.len() - 1]);
    }
    assert forall|i: int| 0 <= i < xs.len() implies is_null_string(#[trigger] xs[i])
        == is_null_string(ys[i]) by {
        lemma_items_view_at(xs, ys, i);
        lemma_null_string_view(xs[i]);
        lemma_null_string_view(ys[i]);
    }
    if has_null_string(xs) {
        let i = choose|i: int| 0 <= i < xs.len() && #[trigger] is_null_string(xs[i]);
        assert(is_null_string(ys[i]));
    }
    if has_null_string(ys) {
        let i = choose|i: int| 0 <= i < ys.len() && #[trigger] is_null_string(ys[i]);
        assert(is_null_string(xs[i]));
    }
}

/// Whether a value is a null arm depends on its view alone.
proof fn lemma_null_arm_view(x: Json, y: Json)
    requires
        jview(x) == jview(y),
    ensures
        is_null_arm(x) == is_null_arm(y),
{
    lemma_view_shape(x, y);
    if let (Json::Object(es), Json::Object(fs)) = (x, y) {
        lemma_equiv_members_of(es@, fs@);
        lemma_equiv_get(members_of(es@), members_of(fs@), "type"@);
        if let (Some(Slot::Orig(p)), Some(Slot::Orig(q))) = (
            get_member(members_of(es@), "type"@),
            get_member(members_of(fs@), "type"@),
        ) {
            lemma_view_shape(p, q);
        }
    }
}

proof fn lemma_equiv_without_null_arms(xs: Seq<Json>, ys: Seq<Json>)
    requires
        items_view(xs) == items_view(ys),
    ensures
        items_view(without_null_arms(xs)) == items_view(without_null_arms(ys)),
    decreases xs.len(),
{
    assert(items_view(xs).len() == xs.len());
    assert(items_view(ys).len() == ys.len());
    if xs.len() > 0 {
        lemma_items_view_prefix(xs, ys);
        lemma_equiv_without_null_arms(xs.drop_last(), ys.drop_last());
        let n = xs.len() - 1;
        lemma_items_view_at(xs, ys, n);
        lemma_null_arm_view(xs[n], ys[n]);
        let ra = without_null_arms(xs.drop_last());
        let rb = without_null_arms(ys.drop_last());
        if !is_null_arm(xs[n]) {
            assert(items_view(ra).len() == ra.len());
            assert(items_view(rb).len() == rb.len());
            assert(items_view(ra.push(xs[n])) =~= items_view(ra).push(jview(xs[n])));
            assert(items_view(rb.push(ys[n])) =~= items_view(rb).push(jview(ys[n])));
        }
    }
}

proof fn lemma_equiv_type_step(a: Members, b: Members)
    requires
        members_equiv(a, b),
    ensures
        members_equiv(type_step(a), type_step(b)),
{
    lemma_equiv_get(a, b, "type"@);
    if let (Some(s), Some(t)) = (get_member(a, "type"@), get_member(b, "type"@)) {
        lemma_equiv_slot_items(s, t);
        if let (Some(xs), Some(ys)) = (slot_items(s), slot_items(t)) {
            lemma_equiv_strings(xs, ys);
            let nn = non_null_strings(xs);
            if nn.len() == 1 {
                let st = Slot::Made(JsonModel::Str(nn[0]));
                let nb = Slot::Made(JsonModel::Bool(true));
                lemma_equiv_insert(a, b, "type"@, st, st);
                lemma_equiv_insert(
                    insert_member(a, "type"@, st),
                    insert_member(b, "type"@, st),
                    "nullable"@,
                    nb,
                    nb,
                );
            }
        }
    }
}

proof fn lemma_equiv_of_step(a: Members, b: Members, key: Seq<char>)
    requires
        members_equiv(a, b),
    ensures
        of_step(a, key) is Some <==> of_step(b, key) is Some,
        of_step(a, key) is Some ==> members_equiv(of_step(a, key)->Some_0, of_step(b, key)->Some_0),
{
    lemma_equiv_get(a, b, key);
    if let (Some(s), Some(t)) = (get_member(a, key), get_member(b, key)) {
        lemma_equiv_slot_items(s, t);
        if let (Some(arms), Some(brms)) = (slot_items(s), slot_items(t)) {
            assert(items_view(arms).len() == arms.len());
            assert(items_view(brms).len() == brms.len());
            assert forall|i: int| 0 <= i < arms.len() implies is_null_arm(#[trigger] arms[i])
                == is_null_arm(brms[i]) by {
                lemma_items_view_at(arms, brms, i);
                lemma_null_arm_view(arms[i], brms[i]);
            }
            let ea = exists|i: int| 0 <= i < arms.len() && #[trigger] is_null_arm(arms[i]);
            let eb = exists|i: int| 0 <= i < brms.len() && #[trigger] is_null_arm(brms[i]);
            if ea {
                let i = choose|i: int| 0 <= i < arms.len() && #[trigger] is_null_arm(arms[i]);
                assert(is_null_arm(brms[i]));
            }
            if eb {
                let i = choose|i: int| 0 <= i < brms.len() && #[trigger] is_null_arm(brms[i]);
                assert(is_null_arm(arms[i]));
            }
            assert(ea == eb);
            if ea {
                let rem = without_null_arms(arms);
                let rem_b = without_null_arms(brms);
                lemma_equiv_without_null_arms(arms, brms);
                assert(items_view(rem).len() == rem.len());
                assert(items_view(rem_b).len() == rem_b.len());
                let nb = Slot::Made(JsonModel::Bool(true));
                lemma_equiv_insert(a, b, "nullable"@, nb, nb);
                let m1a = insert_member(a, "nullable"@, nb);
                let m1b = insert_member(b, "nullable"@, nb);
                if rem.len() == 1 {
                    lemma_equiv_remove(m1a, m1b, key);
                    lemma_items_view_at(rem, rem_b, 0);
                    lemma_view_shape(rem[0], rem_b[0]);
                    if let (Json::Object(am), Json::Object(bm)) = (rem[0], rem_b[0]) {
                        lemma_equiv_merge(remove_member(m1a, key), remove_member(m1b, key), am@, bm@);
                    }
                } else {
                    lemma_equiv_insert(m1a, m1b, key, Slot::Items(rem), Slot::Items(rem_b));
                }
            }
        }
    }
}

proof fn lemma_equiv_nullable_step(a: Members, b: Members)
    requires
        members_equiv(a, b),
    ensures
        members_equiv(nullable_step(a), nullable_step(b)),
{
    lemma_equiv_of_step(a, b, "oneOf"@);
    lemma_equiv_of_step(a, b, "anyOf"@);
}

proof fn lemma_equiv_examples_step(a: Members, b: Members)
    requires
        members_equiv(a, b),
    ensures
        members_equiv(examples_step(a), examples_step(b)),
{
    lemma_equiv_remove(a, b, "propertyNames"@);
    let m3a = remove_member(a, "propertyNames"@);
    let m3b = remove_member(b, "propertyNames"@);
    lemma_equiv_get(m3a, m3b, "examples"@);
    if let (Some(s), Some(t)) = (get_member(m3a, "examples"@), get_member(m3b, "examples"@)) {
        lemma_equiv_remove(m3a, m3b, "examples"@);
        lemma_equiv_slot_items(s, t);
        if let (Some(xs), Some(ys)) = (slot_items(s), slot_items(t)) {
            assert(items_view(xs).len() == xs.len());
            assert(items_view(ys).len() == ys.len());
            if xs.len() > 0 {
                lemma_items_view_at(xs, ys, 0);
                lemma_equiv_or_insert(
                    remove_member(m3a, "examples"@),
                    remove_member(m3b, "examples"@),
                    "example"@,
                    Slot::Orig(xs[0]),
                    Slot::Orig(ys[0]),
                );
            }
        }
    }
}

/// The rewrite at an object's level treats objects with equal views alike.
proof fn lemma_equiv_node_step(es: Seq<(String, Json)>, fs: Seq<(String, Json)>)
    requires
        members_view(es) == members_view(fs),
    ensures
        members_equiv(node_step(es), node_step(fs)),
{
    lemma_equiv_members_of(es, fs);
    lemma_equiv_type_step(members_of(es), members_of(fs));
    lemma_equiv_nullable_step(type_step(members_of(es)), type_step(members_of(fs)));
    lemma_equiv_examples_step(
        nullable_step(type_step(members_of(es))),
        nullable_step(type_step(members_of(fs))),
    );
}

/// Two values with the same content are rewritten to the same content.
pub proof fn lemma_rewrite_depends_on_view(a: Json, b: Json)
    requires
        jview(a) == jview(b),
    ensures
        rewrite_model(a) == rewrite_model(b),
    decreases a,
{
    lemma_view_shape(a, b);
    match (a, b) {
        (Json::Array(v), Json::Array(w)) => {
            assert(items_view(v@).len() == v@.len());
            assert(items_view(w@).len() == w@.len());
            assert forall|i: int| 0 <= i < v@.len() implies rewrite_model(#[trigger] v@[i])
                == rewrite_model(w@[i]) by {
                lemma_items_view_at(v@, w@, i);
                assert(decreases_to!(a => a->Array_0));
                assert(decreases_to!(v => v@[i]));
                lemma_rewrite_depends_on_view(v@[i], w@[i]);
            }
            assert(rewrite_model(a)->Array_0 =~= rewrite_model(b)->Array_0);
        },
        (Json::Object(es), Json::Object(fs)) => {
            lemma_equiv_node_step(es@, fs@);
            lemma_node_step_ok(a);
            lemma_node_step_ok(b);
            let ms = node_step(es@);
            let ns = node_step(fs@);
            let ra = rewrite_model(a)->Object_0;
            let rb = rewrite_model(b)->Object_0;
            assert forall|i: int| 0 <= i < ms.len() implies #[trigger] ra[i] == rb[i] by {
                lemma_equiv_at(ms, ns, i);
                assert(slot_ok(a, ms[i].1));
                assert(slot_ok(b, ns[i].1));
                match (ms[i].1, ns[i].1) {
                    (Slot::Orig(x), Slot::Orig(y)) => {
                        lemma_rewrite_depends_on_view(x, y);
                    },
                    (Slot::Items(xs), Slot::Items(ys)) => {
                        assert(items_view(xs).len() == xs.len());
                        assert(items_view(ys).len() == ys.len());
                        assert forall|k: int| 0 <= k < xs.len() implies rewrite_model(#[trigger] xs[k])
                            == rewrite_model(ys[k]) by {
                            lemma_items_view_at(xs, ys, k);
                            assert(decreases_to!(a => xs[k]));
                            lemma_rewrite_depends_on_view(xs[k], ys[k]);
                        }
                        assert(ra[i].1->Array_0 =~= rb[i].1->Array_0);
                    },
                    _ => {},
                }
            }
            assert(ra =~= rb);
        },
        _ => {},
    }
}

/// The nullable rewrite of a document's content: that of any value with
/// this content (they all agree, see [`lemma_rewrite_depends_on_view`]).
pub open spec fn rewrite_view(m: JsonModel) -> JsonModel {
    rewrite_model(choose|c: Json| jview(c) == m)
}

/// The rewrite of a value is the rewrite of its content.
pub proof fn lemma_rewrite_view(j: Json)
    ensures
        rewrite_view(jview(j)) == rewrite_model(j),
{
    let c = choose|c: Json| jview(c) == jview(j);
    lemma_rewrite_depends_on_view(c, j);
}

} // verus!
