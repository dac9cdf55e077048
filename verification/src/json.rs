//! JSON documents and the post-processing that turns a generated OpenAPI
//! 3.1 document into one that OpenAPI 3.0 tooling (progenitor) accepts.

use vstd::prelude::*;
use crate::text::str_eq;
use crate::json_view::{lemma_rewrite_view, rewrite_view};

verus! {

/// A JSON value.
#[derive(Debug)]
pub enum Json {
    /// `null`.
    Null,
    /// A boolean.
    Bool(bool),
    /// A number, as its literal text.
    Number(String),
    /// A string.
    Str(String),
    /// An array.
    Array(Vec<Json>),
    /// An object: its members, keys distinct.
    Object(Vec<(String, Json)>),
}

/// The abstract content of a JSON value.
pub enum JsonModel {
    /// `null`.
    Null,
    /// A boolean.
    Bool(bool),
    /// A number, as its literal text.
    Number(Seq<char>),
    /// A string.
    Str(Seq<char>),
    /// An array.
    Array(Seq<JsonModel>),
    /// An object's members.
    Object(Seq<(Seq<char>, JsonModel)>),
}

/// The view of a JSON value.
pub open spec fn jview(j: Json) -> JsonModel
    decreases j,
{
    match j {
        Json::Null => JsonModel::Null,
        Json::Bool(b) => JsonModel::Bool(b),
        Json::Number(n) => JsonModel::Number(n@),
        Json::Str(s) => JsonModel::Str(s@),
        Json::Array(v) => JsonModel::Array(
            Seq::new(v.len() as nat, |i: int| if 0 <= i < v.len() { jview(v[i]) } else { JsonModel::Null }),
        ),
        Json::Object(es) => JsonModel::Object(
            Seq::new(es.len() as nat, |i: int| if 0 <= i < es.len() { (es[i].0@, jview(es[i].1)) } else { (Seq::empty(), JsonModel::Null) }),
        ),
    }
}

/// The views of a list of values.
pub open spec fn items_view(s: Seq<Json>) -> Seq<JsonModel> {
    Seq::new(s.len(), |i: int| jview(s[i]))
}

/// The views of a list of members.
pub open spec fn members_view(es: Seq<(String, Json)>) -> Seq<(Seq<char>, JsonModel)> {
    Seq::new(es.len(), |i: int| (es[i].0@, jview(es[i].1)))
}

/// The view of an array is the views of its items; that of an object, the
/// views of its members.
pub proof fn lemma_jview_containers(j: Json)
    ensures
        j matches Json::Array(v) ==> jview(j) == JsonModel::Array(items_view(v@)),
        j matches Json::Object(es) ==> jview(j) == JsonModel::Object(members_view(es@)),
{
    match j {
        Json::Array(v) => {
            assert(jview(j)->Array_0 =~= items_view(v@));
        },
        Json::Object(es) => {
            assert(jview(j)->Object_0 =~= members_view(es@));
        },
        _ => {},
    }
}

// ── Boolean schemas and 2020-12 keywords ────────────────────────────────────

/// Keywords whose value is a schema, and may be a boolean schema.
pub open spec fn is_schema_keyword(k: Seq<char>) -> bool {
    k == "additionalProperties"@ || k == "additionalItems"@ || k == "items"@ || k == "not"@ || k
        == "if"@ || k == "then"@ || k == "else"@ || k == "contains"@ || k == "propertyNames"@
}

/// JSON Schema 2020-12 keywords that OpenAPI 3.0 does not know.
pub open spec fn is_2020_keyword(k: Seq<char>) -> bool {
    k == "unevaluatedProperties"@ || k == "unevaluatedItems"@ || k == "$schema"@
}

/// A document with boolean schemas replaced (`true` by the empty schema,
/// `false` removed) and the 2020-12 keywords removed, at every depth.
pub open spec fn coerce_model(m: JsonModel) -> JsonModel
    decreases m,
{
    match m {
        JsonModel::Array(s) => JsonModel::Array(
            Seq::new(
                s.len(),
                |i: int|
                    if 0 <= i < s.len() {
                        coerce_model(s[i])
                    } else {
                        JsonModel::Null
                    },
            ),
        ),
        JsonModel::Object(es) => JsonModel::Object(coerce_members(es)),
        _ => m,
    }
}

/// The members of an object after coercion, in order.
pub open spec fn coerce_members(es: Seq<(Seq<char>, JsonModel)>) -> Seq<(Seq<char>, JsonModel)>
    decreases es,
{
    if es.len() == 0 {
        Seq::empty()
    } else {
        let rest = coerce_members(es.drop_last());
        let k = es[es.len() - 1].0;
        let v = es[es.len() - 1].1;
        if is_2020_keyword(k) || (is_schema_keyword(k) && v == JsonModel::Bool(false)) {
            rest
        } else if is_schema_keyword(k) && v == JsonModel::Bool(true) {
            rest.push((k, JsonModel::Object(Seq::empty())))
        } else {
            rest.push((k, coerce_model(v)))
        }
    }
}

/// Whether a key is a schema keyword.
fn schema_keyword(k: &str) -> (r: bool)
    ensures
        r == is_schema_keyword(k@),
{
    str_eq(k, "additionalProperties") || str_eq(k, "additionalItems") || str_eq(k, "items")
        || str_eq(k, "not") || str_eq(k, "if") || str_eq(k, "then") || str_eq(k, "else")
        || str_eq(k, "contains") || str_eq(k, "propertyNames")
}

/// Whether a key is a 2020-12 keyword.
fn keyword_2020(k: &str) -> (r: bool)
    ensures
        r == is_2020_keyword(k@),
{
    str_eq(k, "unevaluatedProperties") || str_eq(k, "unevaluatedItems") || str_eq(k, "$schema")
}

/// Replace boolean schemas and remove 2020-12 keywords, at every depth.
pub fn coerce_boolean_and_2020_schemas(j: Json) -> (r: Json)
    ensures
        jview(r) == coerce_model(jview(j)),
    decreases j,
{
    proof {
        lemma_jview_containers(j);
    }
    match j {
        Json::Array(v) => {
            let w = coerce_items(v);
            let r = Json::Array(w);
            proof {
                lemma_jview_containers(r);
                assert(jview(r)->Array_0 =~= coerce_model(jview(j))->Array_0);
            }
            r
        },
        Json::Object(es) => {
            let w = coerce_object_members(es);
            let r = Json::Object(w);
            proof {
                lemma_jview_containers(r);
            }
            r
        },
        other => other,
    }
}

/// Coerce each item of an array.
fn coerce_items(v: Vec<Json>) -> (r: Vec<Json>)
    ensures
        r@.len() == v@.len(),
        forall|i: int| 0 <= i < v@.len() ==> jview(#[trigger] r@[i]) == coerce_model(jview(v@[i])),
    decreases v,
{
    let ghost orig = v@;
    let n = v.len();
    let mut rest = v;
    let mut out: Vec<Json> = Vec::new();
    let mut k: usize = 0;
    while k < n
        invariant
            n == orig.len(),
            orig == v@,
            k <= n,
            rest@ == orig.subrange(k as int, n as int),
            out@.len() == k,
            forall|i: int| 0 <= i < k ==> jview(#[trigger] out@[i]) == coerce_model(jview(orig[i])),
        decreases n - k,
    {
        let x = rest.remove(0);
        proof {
            assert(x == orig[k as int]);
            assert(decreases_to!(v => v@[k as int]));
            assert(decreases_to!(v => x));
        }
        let y = coerce_boolean_and_2020_schemas(x);
        out.push(y);
        k = k + 1;
        proof {
            assert(rest@ =~= orig.subrange(k as int, n as int));
        }
    }
    out
}

/// Coerce the members of an object.
fn coerce_object_members(es: Vec<(String, Json)>) -> (r: Vec<(String, Json)>)
    ensures
        members_view(r@) == coerce_members(members_view(es@)),
    decreases es,
{
    let ghost orig = es@;
    let n = es.len();
    let mut rest = es;
    let mut out: Vec<(String, Json)> = Vec::new();
    let mut k: usize = 0;
    proof {
        assert(members_view(orig.subrange(0, 0)) =~= Seq::<(Seq<char>, JsonModel)>::empty());
        assert(members_view(out@) =~= Seq::<(Seq<char>, JsonModel)>::empty());
    }
    while k < n
        invariant
            n == orig.len(),
            orig == es@,
            k <= n,
            rest@ == orig.subrange(k as int, n as int),
            members_view(out@) == coerce_members(members_view(orig.subrange(0, k as int))),
        decreases n - k,
    {
        let (key, value) = rest.remove(0);
        let ghost before = out@;
        let ghost mv = members_view(orig.subrange(0, k + 1));
        proof {
            assert(orig[k as int] == (key, value));
            assert(decreases_to!(es => es@[k as int]));
            assert(decreases_to!(es => value));
            assert(mv.drop_last() =~= members_view(orig.subrange(0, k as int)));
            assert(mv[mv.len() - 1] == (key@, jview(value)));
        }
        let dropped_2020 = keyword_2020(key.as_str());
        let schema = schema_keyword(key.as_str());
        match value {
            Json::Bool(b) if schema && !dropped_2020 => {
                if b {
                    let empty = Json::Object(Vec::new());
                    let ghost e = empty;
                    out.push((key, empty));
                    proof {
                        lemma_jview_containers(e);
                        assert(members_view(Seq::<(String, Json)>::empty()) =~= Seq::<(Seq<char>, JsonModel)>::empty());
                        assert(members_view(out@) =~= members_view(before).push(
                            (key@, JsonModel::Object(Seq::empty())),
                        ));
                        assert(members_view(out@) == coerce_members(mv));
                    }
                } else {
                    proof {
                        assert(members_view(out@) == coerce_members(mv));
                    }
                }
            },
            other => {
                if !dropped_2020 {
                    let ghost ov = jview(other);
                    let c = coerce_boolean_and_2020_schemas(other);
                    out.push((key, c));
                    proof {
                        assert(members_view(out@) =~= members_view(before).push((key@, coerce_model(ov))));
                        assert(members_view(out@) == coerce_members(mv));
                    }
                } else {
                    proof {
                        assert(members_view(out@) == coerce_members(mv));
                    }
                }
            },
        }
        proof {
            assert(members_view(out@) == coerce_members(mv));
        }
        k = k + 1;
        proof {
            assert(rest@ =~= orig.subrange(k as int, n as int));
        }
    }
    proof {
        assert(orig.subrange(0, n as int) =~= orig);
    }
    out
}

// ── Nullable rewriting ───────────────────────────────────────────────────────

/// Where a member's value comes from while an object is being rewritten: a
/// value of the input document, a value made by the rewrite (a string or a
/// boolean), or an array holding some items of the input document.
pub enum Slot {
    /// A value of the input document.
    Orig(Json),
    /// A scalar made by the rewrite.
    Made(JsonModel),
    /// An array of values of the input document.
    Items(Seq<Json>),
}

/// The members of an object being rewritten.
pub type Members = Seq<(Seq<char>, Slot)>;

/// The members of an input object.
pub open spec fn members_of(es: Seq<(String, Json)>) -> Members {
    Seq::new(es.len(), |i: int| (es[i].0@, Slot::Orig(es[i].1)))
}

/// The keys of a list of members.
pub open spec fn member_keys(ms: Members) -> Seq<Seq<char>> {
    Seq::new(ms.len(), |i: int| ms[i].0)
}

/// The position of the first occurrence of a key, or -1.
pub open spec fn find_in(keys: Seq<Seq<char>>, k: Seq<char>) -> int
    decreases keys.len(),
{
    if keys.len() == 0 {
        -1
    } else {
        let p = find_in(keys.drop_last(), k);
        if p >= 0 {
            p
        } else if keys[keys.len() - 1] == k {
            keys.len() - 1
        } else {
            -1
        }
    }
}

/// The position of a member, or -1.
pub open spec fn find_member(ms: Members, k: Seq<char>) -> int {
    find_in(member_keys(ms), k)
}

/// The value of a member, if present.
pub open spec fn get_member(ms: Members, k: Seq<char>) -> Option<Slot> {
    let i = find_member(ms, k);
    if i >= 0 {
        Some(ms[i].1)
    } else {
        None
    }
}

/// Set a member: its value is replaced where it is, or it is appended.
pub open spec fn insert_member(ms: Members, k: Seq<char>, s: Slot) -> Members {
    let i = find_member(ms, k);
    if i >= 0 {
        ms.update(i, (k, s))
    } else {
        ms.push((k, s))
    }
}

/// Remove every member with the key.
pub open spec fn remove_member(ms: Members, k: Seq<char>) -> Members
    decreases ms.len(),
{
    if ms.len() == 0 {
        ms
    } else {
        let r = remove_member(ms.drop_last(), k);
        if ms[ms.len() - 1].0 == k {
            r
        } else {
            r.push(ms[ms.len() - 1])
        }
    }
}

/// Add a member unless the key is present.
pub open spec fn or_insert_member(ms: Members, k: Seq<char>, s: Slot) -> Members {
    if find_member(ms, k) >= 0 {
        ms
    } else {
        ms.push((k, s))
    }
}

/// Add each member of an input object whose key is not present yet.
pub open spec fn merge_absent(ms: Members, am: Seq<(String, Json)>) -> Members
    decreases am.len(),
{
    if am.len() == 0 {
        ms
    } else {
        let m = merge_absent(ms, am.drop_last());
        or_insert_member(m, am[am.len() - 1].0@, Slot::Orig(am[am.len() - 1].1))
    }
}

/// The view of a member's value.
pub open spec fn slot_view(s: Slot) -> JsonModel {
    match s {
        Slot::Orig(x) => jview(x),
        Slot::Made(m) => m,
        Slot::Items(xs) => JsonModel::Array(items_view(xs)),
    }
}

/// The items of a member's value, when it is an array.
pub open spec fn slot_items(s: Slot) -> Option<Seq<Json>> {
    match s {
        Slot::Orig(Json::Array(v)) => Some(v@),
        Slot::Items(xs) => Some(xs),
        _ => None,
    }
}

/// The strings among some values, in order, other than `"null"`.
pub open spec fn non_null_strings(xs: Seq<Json>) -> Seq<Seq<char>>
    decreases xs.len(),
{
    if xs.len() == 0 {
        Seq::empty()
    } else {
        let r = non_null_strings(xs.drop_last());
        match xs[xs.len() - 1] {
            Json::Str(t) => if t@ != "null"@ {
                r.push(t@)
            } else {
                r
            },
            _ => r,
        }
    }
}

/// Whether a value is the string `"null"`.
pub open spec fn is_null_string(x: Json) -> bool {
    match x {
        Json::Str(t) => t@ == "null"@,
        _ => false,
    }
}

/// Whether some value is the string `"null"`.
pub open spec fn has_null_string(xs: Seq<Json>) -> bool {
    exists|i: int| 0 <= i < xs.len() && #[trigger] is_null_string(xs[i])
}

/// A `type` array naming one type besides `null` becomes that type, with
/// `nullable: true` when `null` was named.
pub open spec fn type_step(ms: Members) -> Members {
    match get_member(ms, "type"@) {
        Some(s) => match slot_items(s) {
            Some(xs) => {
                let nn = non_null_strings(xs);
                if nn.len() == 1 {
                    let m1 = insert_member(ms, "type"@, Slot::Made(JsonModel::Str(nn[0])));
                    if has_null_string(xs) {
                        insert_member(m1, "nullable"@, Slot::Made(JsonModel::Bool(true)))
                    } else {
                        m1
                    }
                } else {
                    ms
                }
            },
            None => ms,
        },
        None => ms,
    }
}

/// Whether a value is an object whose `type` member is the string `"null"`.
pub open spec fn is_null_arm(x: Json) -> bool {
    match x {
        Json::Object(es) => match get_member(members_of(es@), "type"@) {
            Some(Slot::Orig(Json::Str(t))) => t@ == "null"@,
            _ => false,
        },
        _ => false,
    }
}

/// The values that are not null arms, in order.
pub open spec fn without_null_arms(xs: Seq<Json>) -> Seq<Json>
    decreases xs.len(),
{
    if xs.len() == 0 {
        Seq::empty()
    } else {
        let r = without_null_arms(xs.drop_last());
        if is_null_arm(xs[xs.len() - 1]) {
            r
        } else {
            r.push(xs[xs.len() - 1])
        }
    }
}

/// A `oneOf` / `anyOf` list with a null arm: the object becomes nullable and
/// the null arms are dropped; a single remaining arm is merged into the
/// object (its members added where absent). `None` when the list has no
/// null arm.
pub open spec fn of_step(ms: Members, key: Seq<char>) -> Option<Members> {
    match get_member(ms, key) {
        Some(s) => match slot_items(s) {
            Some(arms) => if exists|i: int| 0 <= i < arms.len() && #[trigger] is_null_arm(arms[i]) {
                let rem = without_null_arms(arms);
                let m1 = insert_member(ms, "nullable"@, Slot::Made(JsonModel::Bool(true)));
                if rem.len() == 1 {
                    let m2 = remove_member(m1, key);
                    match rem[0] {
                        Json::Object(am) => Some(merge_absent(m2, am@)),
                        _ => Some(m2),
                    }
                } else {
                    Some(insert_member(m1, key, Slot::Items(rem)))
                }
            } else {
                None
            },
            None => None,
        },
        None => None,
    }
}

/// `oneOf` is rewritten if it has a null arm, else `anyOf`.
pub open spec fn nullable_step(ms: Members) -> Members {
    match of_step(ms, "oneOf"@) {
        Some(r) => r,
        None => match of_step(ms, "anyOf"@) {
            Some(r) => r,
            None => ms,
        },
    }
}

/// `propertyNames` is removed, and `examples` is removed with its first
/// item kept as `example` when there is none.
pub open spec fn examples_step(ms: Members) -> Members {
    let m3 = remove_member(ms, "propertyNames"@);
    match get_member(m3, "examples"@) {
        Some(s) => {
            let m4 = remove_member(m3, "examples"@);
            match slot_items(s) {
                Some(xs) => if xs.len() > 0 {
                    or_insert_member(m4, "example"@, Slot::Orig(xs[0]))
                } else {
                    m4
                },
                None => m4,
            }
        },
        None => m3,
    }
}

/// The members of an object after the rewrite at its own level, before its
/// values are rewritten.
pub open spec fn node_step(es: Seq<(String, Json)>) -> Members {
    examples_step(nullable_step(type_step(members_of(es))))
}

/// A document rewritten for OpenAPI 3.0 nullability, at every depth: each
/// object is rewritten at its own level, then its values are.
pub open spec fn rewrite_model(j: Json) -> JsonModel
    decreases j,
{
    match j {
        Json::Array(v) => JsonModel::Array(
            Seq::new(
                v.len() as nat,
                |i: int|
                    if 0 <= i < v.len() {
                        rewrite_model(v[i])
                    } else {
                        JsonModel::Null
                    },
            ),
        ),
        Json::Object(es) => {
            let ms = node_step(es@);
            JsonModel::Object(
                Seq::new(
                    ms.len(),
                    |i: int|
                        (
                            ms[i].0,
                            match ms[i].1 {
                                Slot::Orig(x) => if decreases_to!(j => x) {
                                    rewrite_model(x)
                                } else {
                                    jview(x)
                                },
                                Slot::Made(m) => m,
                                Slot::Items(xs) => JsonModel::Array(
                                    Seq::new(
                                        xs.len(),
                                        |k: int|
                                            if 0 <= k < xs.len() && decreases_to!(j => xs[k]) {
                                                rewrite_model(xs[k])
                                            } else {
                                                JsonModel::Null
                                            },
                                    ),
                                ),
                            },
                        ),
                ),
            )
        },
        _ => jview(j),
    }
}

// ── Why the rewrite terminates ───────────────────────────────────────────────

/// A member's value is below the object being rewritten: an input value
/// strictly inside it, a made scalar, or an array of input values strictly
/// inside it.
pub open spec fn slot_ok(j: Json, s: Slot) -> bool {
    match s {
        Slot::Orig(x) => decreases_to!(j => x),
        Slot::Made(m) => m is Str || m is Bool,
        Slot::Items(xs) => forall|k: int| 0 <= k < xs.len() ==> decreases_to!(j => #[trigger] xs[k]),
    }
}

/// Every member's value is below the object being rewritten.
pub open spec fn all_ok(j: Json, ms: Members) -> bool {
    forall|i: int| 0 <= i < ms.len() ==> slot_ok(j, #[trigger] ms[i].1)
}

/// `find_in` finds the first occurrence.
pub proof fn lemma_find_in(keys: Seq<Seq<char>>, k: Seq<char>)
    ensures
        -1 <= find_in(keys, k) < keys.len(),
        find_in(keys, k) >= 0 ==> keys[find_in(keys, k)] == k,
        forall|i: int| 0 <= i < keys.len() && (find_in(keys, k) == -1 || i < find_in(keys, k))
            ==> #[trigger] keys[i] != k,
    decreases keys.len(),
{
    if keys.len() > 0 {
        let p = keys.drop_last();
        lemma_find_in(p, k);
        assert forall|i: int| 0 <= i < keys.len() && (find_in(keys, k) == -1 || i < find_in(keys, k))
            implies #[trigger] keys[i] != k by {
            if i < p.len() {
                assert(p[i] == keys[i]);
            }
        }
    }
}

/// A member that is found is one of the members.
proof fn lemma_get_member(ms: Members, k: Seq<char>)
    ensures
        find_member(ms, k) >= 0 ==> find_member(ms, k) < ms.len() && ms[find_member(ms, k)].0 == k,
        find_member(ms, k) == -1 ==> forall|i: int| 0 <= i < ms.len() ==> #[trigger] ms[i].0 != k,
        find_member(ms, k) >= -1,
{
    lemma_find_in(member_keys(ms), k);
    if find_member(ms, k) == -1 {
        assert forall|i: int| 0 <= i < ms.len() implies #[trigger] ms[i].0 != k by {
            assert(member_keys(ms)[i] == ms[i].0);
        }
    }
}

/// Setting a member keeps every value below the object.
proof fn lemma_insert_ok(j: Json, ms: Members, k: Seq<char>, s: Slot)
    requires
        all_ok(j, ms),
        slot_ok(j, s),
    ensures
        all_ok(j, insert_member(ms, k, s)),
{
    lemma_get_member(ms, k);
    let r = insert_member(ms, k, s);
    assert forall|i: int| 0 <= i < r.len() implies slot_ok(j, #[trigger] r[i].1) by {
        if i < ms.len() && i != find_member(ms, k) {
            assert(r[i] == ms[i]);
        }
    }
}

/// Removing members keeps every value below the object.
proof fn lemma_remove_ok(j: Json, ms: Members, k: Seq<char>)
    requires
        all_ok(j, ms),
    ensures
        all_ok(j, remove_member(ms, k)),
    decreases ms.len(),
{
    if ms.len() > 0 {
        let p = ms.drop_last();
        assert forall|i: int| 0 <= i < p.len() implies slot_ok(j, #[trigger] p[i].1) by {
            assert(p[i] == ms[i]);
        }
        lemma_remove_ok(j, p, k);
        let r = remove_member(p, k);
        if ms[ms.len() - 1].0 != k {
            let q = r.push(ms[ms.len() - 1]);
            assert forall|i: int| 0 <= i < q.len() implies slot_ok(j, #[trigger] q[i].1) by {
                if i < r.len() {
                    assert(q[i] == r[i]);
                }
            }
        }
    }
}

/// Adding an absent member keeps every value below the object.
proof fn lemma_or_insert_ok(j: Json, ms: Members, k: Seq<char>, s: Slot)
    requires
        all_ok(j, ms),
        slot_ok(j, s),
    ensures
        all_ok(j, or_insert_member(ms, k, s)),
{
    let r = or_insert_member(ms, k, s);
    assert forall|i: int| 0 <= i < r.len() implies slot_ok(j, #[trigger] r[i].1) by {
        if i < ms.len() {
            assert(r[i] == ms[i]);
        }
    }
}

/// Merging members of an inner object keeps every value below the object.
proof fn lemma_merge_ok(j: Json, ms: Members, am: Seq<(String, Json)>)
    requires
        all_ok(j, ms),
        forall|i: int| 0 <= i < am.len() ==> decreases_to!(j => #[trigger] am[i].1),
    ensures
        all_ok(j, merge_absent(ms, am)),
    decreases am.len(),
{
    if am.len() > 0 {
        let p = am.drop_last();
        assert forall|i: int| 0 <= i < p.len() implies decreases_to!(j => #[trigger] p[i].1) by {
            assert(p[i] == am[i]);
        }
        lemma_merge_ok(j, ms, p);
        assert(decreases_to!(j => am[am.len() - 1].1));
        lemma_or_insert_ok(j, merge_absent(ms, p), am[am.len() - 1].0@, Slot::Orig(am[am.len() - 1].1));
    }
}

/// The items of an array member are below the object.
proof fn lemma_slot_items_ok(j: Json, s: Slot)
    requires
        slot_ok(j, s),
    ensures
        slot_items(s) matches Some(xs) ==> forall|k: int|
            0 <= k < xs.len() ==> decreases_to!(j => #[trigger] xs[k]),
{
    if let Slot::Orig(x) = s {
        if let Json::Array(v) = x {
            assert forall|k: int| 0 <= k < v@.len() implies decreases_to!(j => #[trigger] v@[k]) by {
                assert(decreases_to!(x => x->Array_0));
                assert(decreases_to!(v => v@[k]));
            }
        }
    }
}

/// Dropping null arms keeps only items of the list.
proof fn lemma_without_null_arms_ok(j: Json, xs: Seq<Json>)
    requires
        forall|k: int| 0 <= k < xs.len() ==> decreases_to!(j => #[trigger] xs[k]),
    ensures
        forall|k: int|
            0 <= k < without_null_arms(xs).len() ==> decreases_to!(j => #[trigger] without_null_arms(
                xs,
            )[k]),
        without_null_arms(xs).len() <= xs.len(),
    decreases xs.len(),
{
    if xs.len() > 0 {
        let p = xs.drop_last();
        assert forall|k: int| 0 <= k < p.len() implies decreases_to!(j => #[trigger] p[k]) by {
            assert(p[k] == xs[k]);
        }
        lemma_without_null_arms_ok(j, p);
        let r = without_null_arms(p);
        if !is_null_arm(xs[xs.len() - 1]) {
            let q = r.push(xs[xs.len() - 1]);
            assert forall|k: int| 0 <= k < q.len() implies decreases_to!(j => #[trigger] q[k]) by {
                if k < r.len() {
                    assert(q[k] == r[k]);
                }
            }
        }
    }
}

/// The members of an object are below it.
proof fn lemma_members_of_ok(j: Json)
    requires
        j is Object,
    ensures
        all_ok(j, members_of(j->Object_0@)),
{
    let es = j->Object_0;
    let ms = members_of(es@);
    assert forall|i: int| 0 <= i < ms.len() implies slot_ok(j, #[trigger] ms[i].1) by {
        assert(decreases_to!(j => j->Object_0));
        assert(decreases_to!(es => es@[i]));
        assert(decreases_to!(es@[i] => es@[i].1));
    }
}

/// Every value the rewrite at an object's level leaves is below the object.
pub proof fn lemma_node_step_ok(j: Json)
    requires
        j is Object,
    ensures
        all_ok(j, node_step(j->Object_0@)),
{
    let m0 = members_of(j->Object_0@);
    lemma_members_of_ok(j);
    // type
    lemma_get_member(m0, "type"@);
    let m1 = type_step(m0);
    if let Some(s) = get_member(m0, "type"@) {
        if let Some(xs) = slot_items(s) {
            let nn = non_null_strings(xs);
            if nn.len() == 1 {
                lemma_insert_ok(j, m0, "type"@, Slot::Made(JsonModel::Str(nn[0])));
                let a = insert_member(m0, "type"@, Slot::Made(JsonModel::Str(nn[0])));
                lemma_insert_ok(j, a, "nullable"@, Slot::Made(JsonModel::Bool(true)));
            }
        }
    }
    assert(all_ok(j, m1));
    // oneOf / anyOf
    lemma_of_step_ok(j, m1, "oneOf"@);
    lemma_of_step_ok(j, m1, "anyOf"@);
    let m2 = nullable_step(m1);
    assert(all_ok(j, m2));
    // propertyNames / examples
    lemma_remove_ok(j, m2, "propertyNames"@);
    let m3 = remove_member(m2, "propertyNames"@);
    lemma_get_member(m3, "examples"@);
    if let Some(s) = get_member(m3, "examples"@) {
        lemma_remove_ok(j, m3, "examples"@);
        let m4 = remove_member(m3, "examples"@);
        assert(slot_ok(j, s));
        lemma_slot_items_ok(j, s);
        if let Some(xs) = slot_items(s) {
            if xs.len() > 0 {
                assert(decreases_to!(j => xs[0]));
                lemma_or_insert_ok(j, m4, "example"@, Slot::Orig(xs[0]));
            }
        }
    }
}

/// The `oneOf` / `anyOf` rewrite keeps every value below the object.
proof fn lemma_of_step_ok(j: Json, ms: Members, key: Seq<char>)
    requires
        all_ok(j, ms),
    ensures
        of_step(ms, key) matches Some(r) ==> all_ok(j, r),
{
    lemma_get_member(ms, key);
    if let Some(s) = get_member(ms, key) {
        assert(slot_ok(j, s));
        lemma_slot_items_ok(j, s);
        if let Some(arms) = slot_items(s) {
            if exists|i: int| 0 <= i < arms.len() && #[trigger] is_null_arm(arms[i]) {
                let rem = without_null_arms(arms);
                lemma_without_null_arms_ok(j, arms);
                lemma_insert_ok(j, ms, "nullable"@, Slot::Made(JsonModel::Bool(true)));
                let m1 = insert_member(ms, "nullable"@, Slot::Made(JsonModel::Bool(true)));
                if rem.len() == 1 {
                    lemma_remove_ok(j, m1, key);
                    let m2 = remove_member(m1, key);
                    if let Json::Object(am) = rem[0] {
                        assert forall|i: int| 0 <= i < am@.len() implies decreases_to!(j => #[trigger] am@[i].1) by {
                            assert(decreases_to!(j => rem[0]));
                            assert(decreases_to!(rem[0] => rem[0]->Object_0));
                            assert(decreases_to!(am => am@[i]));
                            assert(decreases_to!(am@[i] => am@[i].1));
                        }
                        lemma_merge_ok(j, m2, am@);
                    }
                } else {
                    lemma_insert_ok(j, m1, key, Slot::Items(rem));
                }
            }
        }
    }
}

// ── Member operations on objects being rewritten ─────────────────────────────

/// An input or made value held by a member, as the slot describes it.
pub open spec fn slot_holds(x: Json, s: Slot) -> bool {
    match s {
        Slot::Orig(y) => x == y,
        Slot::Made(m) => jview(x) == m && (x is Str || x is Bool),
        Slot::Items(xs) => x is Array && x->Array_0@ == xs,
    }
}

/// The members of an object being rewritten, as the slots describe them.
pub open spec fn holds_members(ev: Seq<(String, Json)>, ms: Members) -> bool {
    &&& ev.len() == ms.len()
    &&& forall|i: int|
        #![trigger ev[i]]
        0 <= i < ev.len() ==> ev[i].0@ == ms[i].0 && slot_holds(ev[i].1, ms[i].1)
}

/// The keys of members.
pub open spec fn entry_keys(ev: Seq<(String, Json)>) -> Seq<Seq<char>> {
    Seq::new(ev.len(), |i: int| ev[i].0@)
}

proof fn lemma_holds_keys(ev: Seq<(String, Json)>, ms: Members)
    requires
        holds_members(ev, ms),
    ensures
        entry_keys(ev) == member_keys(ms),
{
    assert(entry_keys(ev) =~= member_keys(ms));
}

/// One member and its description.
proof fn lemma_holds_at(ev: Seq<(String, Json)>, ms: Members, i: int)
    requires
        holds_members(ev, ms),
        0 <= i < ev.len(),
    ensures
        ev[i].0@ == ms[i].0,
        slot_holds(ev[i].1, ms[i].1),
{
}

/// Removing the same position from members and their description keeps
/// the correspondence.
proof fn lemma_holds_remove(ev: Seq<(String, Json)>, ms: Members, i: int)
    requires
        holds_members(ev, ms),
        0 <= i < ev.len(),
    ensures
        holds_members(ev.remove(i), ms.remove(i)),
{
    let a = ev.remove(i);
    let b = ms.remove(i);
    assert forall|j: int| 0 <= j < a.len() implies #[trigger] a[j].0@ == b[j].0 && slot_holds(
        a[j].1,
        b[j].1,
    ) by {
        if j < i {
            assert(a[j] == ev[j] && b[j] == ms[j]);
            lemma_holds_at(ev, ms, j);
        } else {
            assert(a[j] == ev[j + 1] && b[j] == ms[j + 1]);
            lemma_holds_at(ev, ms, j + 1);
        }
    }
}

proof fn lemma_holds_members_of(es: Seq<(String, Json)>)
    ensures
        holds_members(es, members_of(es)),
{
}

/// The position of the first member with the key.
fn index_of_key(ev: &Vec<(String, Json)>, k: &str) -> (r: Option<usize>)
    ensures
        r matches Some(i) ==> i < ev@.len() && i as int == find_in(entry_keys(ev@), k@),
        r is None ==> find_in(entry_keys(ev@), k@) == -1,
{
    let ghost keys = entry_keys(ev@);
    proof {
        lemma_find_in(keys, k@);
    }
    let mut i: usize = 0;
    while i < ev.len()
        invariant
            i <= ev@.len(),
            keys == entry_keys(ev@),
            -1 <= find_in(keys, k@) < keys.len(),
            find_in(keys, k@) >= 0 ==> keys[find_in(keys, k@)] == k@,
            forall|q: int| 0 <= q < keys.len() && (find_in(keys, k@) == -1 || q < find_in(keys, k@))
                ==> #[trigger] keys[q] != k@,
            forall|q: int| 0 <= q < i ==> keys[q] != k@,
        decreases ev@.len() - i,
    {
        if str_eq(ev[i].0.as_str(), k) {
            proof {
                assert(keys[i as int] == k@);
            }
            return Some(i);
        }
        i = i + 1;
    }
    None
}

/// Inserting a different key leaves a key's position and value alone.
proof fn lemma_insert_other(ms: Members, k2: Seq<char>, s: Slot, key: Seq<char>)
    requires
        k2 != key,
    ensures
        find_member(insert_member(ms, k2, s), key) == find_member(ms, key),
        find_member(ms, key) >= 0 ==> insert_member(ms, k2, s)[find_member(ms, key)] == ms[find_member(ms, key)],
{
    lemma_get_member(ms, k2);
    lemma_get_member(ms, key);
    let r = insert_member(ms, k2, s);
    if find_member(ms, k2) >= 0 {
        assert(member_keys(r) =~= member_keys(ms));
    } else {
        assert(member_keys(r).drop_last() =~= member_keys(ms));
    }
}

/// Removing a member found at a position, then every other member with its
/// key, is removing every member with the key.
proof fn lemma_remove_at(ms: Members, i: int, k: Seq<char>)
    requires
        0 <= i < ms.len(),
        ms[i].0 == k,
    ensures
        remove_member(ms.remove(i), k) == remove_member(ms, k),
    decreases ms.len(),
{
    if i == ms.len() - 1 {
        assert(ms.remove(i) =~= ms.drop_last());
    } else {
        let p = ms.drop_last();
        lemma_remove_at(p, i, k);
        assert(ms.remove(i).drop_last() =~= p.remove(i));
        assert(ms.remove(i)[ms.remove(i).len() - 1] == ms[ms.len() - 1]);
    }
}

/// Set a member (replace its value where it is, or append it).
fn set_member(ev: &mut Vec<(String, Json)>, k: String, x: Json, Ghost(ms): Ghost<Members>, Ghost(s): Ghost<Slot>)
    requires
        holds_members(old(ev)@, ms),
        slot_holds(x, s),
    ensures
        holds_members(final(ev)@, insert_member(ms, k@, s)),
{
    proof {
        lemma_holds_keys(ev@, ms);
    }
    match index_of_key(ev, k.as_str()) {
        Some(i) => {
            let ghost e0 = ev@;
            let _old = ev.remove(i);
            let ghost e1 = ev@;
            ev.insert(i, (k, x));
            proof {
                let t = insert_member(ms, k@, s);
                assert(t == ms.update(i as int, (k@, s)));
                assert forall|q: int| 0 <= q < ev@.len() implies #[trigger] ev@[q].0@ == t[q].0
                    && slot_holds(ev@[q].1, t[q].1) by {
                    if q != i {
                        assert(ev@[q] == e0[q]);
                        assert(e0[q].0@ == ms[q].0);
                    }
                }
                assert(ev@.len() == t.len());
                assert(holds_members(ev@, t));
            }
        },
        None => {
            ev.push((k, x));
            proof {
                assert(holds_members(ev@, insert_member(ms, k@, s)));
            }
        },
    }
}

/// Add a member unless its key is present.
fn add_absent(ev: &mut Vec<(String, Json)>, k: String, x: Json, Ghost(ms): Ghost<Members>, Ghost(s): Ghost<Slot>)
    requires
        holds_members(old(ev)@, ms),
        slot_holds(x, s),
    ensures
        holds_members(final(ev)@, or_insert_member(ms, k@, s)),
{
    proof {
        lemma_holds_keys(ev@, ms);
    }
    if index_of_key(ev, k.as_str()).is_none() {
        ev.push((k, x));
        proof {
            assert(holds_members(ev@, or_insert_member(ms, k@, s)));
        }
    }
}

/// Remove every member with the key, returning the value of the first.
fn take_member(ev: &mut Vec<(String, Json)>, k: &str, Ghost(ms): Ghost<Members>) -> (r: Option<Json>)
    requires
        holds_members(old(ev)@, ms),
    ensures
        holds_members(final(ev)@, remove_member(ms, k@)),
        r is None <==> get_member(ms, k@) is None,
        r matches Some(x) ==> slot_holds(x, get_member(ms, k@)->Some_0),
{
    let ghost keys = member_keys(ms);
    let n = ev.len();
    let mut rest: Vec<(String, Json)> = Vec::new();
    std::mem::swap(&mut rest, ev);
    let ghost orig = rest@;
    let mut first: Option<Json> = None;
    let mut i: usize = 0;
    proof {
        assert(ms.subrange(0, 0) =~= Seq::<(Seq<char>, Slot)>::empty());
        assert(member_keys(ms.subrange(0, 0)) =~= Seq::<Seq<char>>::empty());
    }
    while i < n
        invariant
            n == orig.len(),
            holds_members(orig, ms),
            i <= n,
            rest@ == orig.subrange(i as int, n as int),
            holds_members(ev@, remove_member(ms.subrange(0, i as int), k@)),
            first is None <==> find_member(ms.subrange(0, i as int), k@) == -1,
            first matches Some(x) ==> (find_member(ms.subrange(0, i as int), k@) >= 0 && slot_holds(
                x,
                ms[find_member(ms.subrange(0, i as int), k@)].1,
            )),
        decreases n - i,
    {
        let ghost pre = ms.subrange(0, i as int);
        let ghost next = ms.subrange(0, i + 1);
        let ghost before = ev@;
        proof {
            assert(next.drop_last() =~= pre);
            assert(member_keys(next).drop_last() =~= member_keys(pre));
            assert(member_keys(next)[i as int] == ms[i as int].0);
            lemma_find_in(member_keys(pre), k@);
        }
        let (key, value) = rest.remove(0);
        proof {
            assert(orig[i as int] == (key, value));
        }
        if str_eq(key.as_str(), k) {
            if first.is_none() {
                first = Some(value);
            }
        } else {
            ev.push((key, value));
            proof {
                assert(holds_members(ev@, remove_member(next, k@)));
            }
        }
        i = i + 1;
        proof {
            assert(rest@ =~= orig.subrange(i as int, n as int));
        }
    }
    proof {
        assert(ms.subrange(0, n as int) =~= ms);
        lemma_get_member(ms, k@);
    }
    first
}

/// Add each member of an inner object whose key is not present yet.
fn merge_members(ev: &mut Vec<(String, Json)>, am: Vec<(String, Json)>, Ghost(ms): Ghost<Members>)
    requires
        holds_members(old(ev)@, ms),
    ensures
        holds_members(final(ev)@, merge_absent(ms, am@)),
{
    let ghost orig = am@;
    let n = am.len();
    let mut rest = am;
    let mut i: usize = 0;
    proof {
        assert(orig.subrange(0, 0) =~= Seq::<(String, Json)>::empty());
    }
    while i < n
        invariant
            n == orig.len(),
            i <= n,
            rest@ == orig.subrange(i as int, n as int),
            holds_members(ev@, merge_absent(ms, orig.subrange(0, i as int))),
        decreases n - i,
    {
        let ghost cur = merge_absent(ms, orig.subrange(0, i as int));
        let (key, value) = rest.remove(0);
        proof {
            assert(orig[i as int] == (key, value));
            assert(orig.subrange(0, i + 1).drop_last() =~= orig.subrange(0, i as int));
        }
        add_absent(ev, key, value, Ghost(cur), Ghost(Slot::Orig(value)));
        i = i + 1;
        proof {
            assert(rest@ =~= orig.subrange(i as int, n as int));
        }
    }
    proof {
        assert(orig.subrange(0, n as int) =~= orig);
    }
}

/// The strings among some values other than `"null"`, and whether `"null"`
/// is among them.
fn type_names(v: &Vec<Json>) -> (r: (Vec<String>, bool))
    ensures
        crate::config::strings_view(r.0@) == non_null_strings(v@),
        r.1 == has_null_string(v@),
{
    let mut names: Vec<String> = Vec::new();
    let mut has_null = false;
    let mut i: usize = 0;
    proof {
        assert(v@.subrange(0, 0) =~= Seq::<Json>::empty());
        assert(crate::config::strings_view(names@) =~= Seq::<Seq<char>>::empty());
    }
    while i < v.len()
        invariant
            i <= v@.len(),
            crate::config::strings_view(names@) == non_null_strings(v@.subrange(0, i as int)),
            has_null == has_null_string(v@.subrange(0, i as int)),
        decreases v@.len() - i,
    {
        let ghost pre = v@.subrange(0, i as int);
        let ghost next = v@.subrange(0, i + 1);
        let ghost before = names@;
        proof {
            assert(next.drop_last() =~= pre);
            assert(next[i as int] == v@[i as int]);
        }
        match &v[i] {
            Json::Str(t) => {
                let is_null = str_eq(t.as_str(), "null");
                if !is_null {
                    names.push(String::from_str(t.as_str()));
                    proof {
                        assert(crate::config::strings_view(names@) =~= crate::config::strings_view(
                            before,
                        ).push(t@));
                    }
                }
                proof {
                    if is_null {
                        assert(is_null_string(next[i as int]));
                    }
                    if has_null_string(next) && !is_null {
                        let q = choose|q: int| 0 <= q < next.len() && #[trigger] is_null_string(next[q]);
                        assert(q < i);
                        assert(pre[q] == next[q]);
                    }
                    if has_null_string(pre) {
                        let q = choose|q: int| 0 <= q < pre.len() && #[trigger] is_null_string(pre[q]);
                        assert(next[q] == pre[q]);
                    }
                }
                has_null = has_null || is_null;
            },
            _ => {
                proof {
                    if has_null_string(next) {
                        let q = choose|q: int| 0 <= q < next.len() && #[trigger] is_null_string(next[q]);
                        assert(q < i);
                        assert(pre[q] == next[q]);
                    }
                    if has_null_string(pre) {
                        let q = choose|q: int| 0 <= q < pre.len() && #[trigger] is_null_string(pre[q]);
                        assert(next[q] == pre[q]);
                    }
                }
            },
        }
        i = i + 1;
    }
    proof {
        assert(v@.subrange(0, v@.len() as int) =~= v@);
    }
    (names, has_null)
}

/// The `type` rewrite of an object's members.
fn apply_type_step(ev: &mut Vec<(String, Json)>, Ghost(ms): Ghost<Members>)
    requires
        holds_members(old(ev)@, ms),
    ensures
        holds_members(final(ev)@, type_step(ms)),
{
    proof {
        lemma_holds_keys(ev@, ms);
        lemma_get_member(ms, "type"@);
    }
    let i = match index_of_key(ev, "type") {
        Some(i) => i,
        None => {
            return;
        },
    };
    let (names, has_null) = match &ev[i].1 {
        Json::Array(v) => type_names(v),
        _ => {
            return;
        },
    };
    if names.len() != 1 {
        return;
    }
    let t = String::from_str(names[0].as_str());
    let ghost m1 = insert_member(ms, "type"@, Slot::Made(JsonModel::Str(t@)));
    proof {
        assert(crate::config::strings_view(names@)[0] == names@[0]@);
    }
    let tv = Json::Str(t);
    proof {
        assert(slot_holds(tv, Slot::Made(JsonModel::Str(names@[0]@))));
    }
    set_member(ev, String::from_str("type"), tv, Ghost(ms), Ghost(Slot::Made(JsonModel::Str(names@[0]@))));
    if has_null {
        let b = Json::Bool(true);
        proof {
            assert(slot_holds(b, Slot::Made(JsonModel::Bool(true))));
        }
        set_member(ev, String::from_str("nullable"), b, Ghost(m1), Ghost(Slot::Made(JsonModel::Bool(true))));
    }
}

/// Whether a value is an object whose `type` member is the string `"null"`.
fn null_arm(x: &Json) -> (r: bool)
    ensures
        r == is_null_arm(*x),
{
    match x {
        Json::Object(es) => {
            proof {
                lemma_holds_members_of(es@);
                lemma_holds_keys(es@, members_of(es@));
                lemma_get_member(members_of(es@), "type"@);
            }
            match index_of_key(es, "type") {
                Some(i) => match &es[i].1 {
                    Json::Str(t) => str_eq(t.as_str(), "null"),
                    _ => false,
                },
                None => false,
            }
        },
        _ => false,
    }
}

/// Whether some value is a null arm.
fn any_null_arm(arms: &Vec<Json>) -> (r: bool)
    ensures
        r == exists|q: int| 0 <= q < arms@.len() && #[trigger] is_null_arm(arms@[q]),
{
    let mut i: usize = 0;
    while i < arms.len()
        invariant
            i <= arms@.len(),
            forall|q: int| 0 <= q < i ==> !#[trigger] is_null_arm(arms@[q]),
        decreases arms@.len() - i,
    {
        if null_arm(&arms[i]) {
            return true;
        }
        i = i + 1;
    }
    false
}

/// The values that are not null arms, in order.
fn drop_null_arms(arms: Vec<Json>) -> (r: Vec<Json>)
    ensures
        r@ == without_null_arms(arms@),
{
    let ghost orig = arms@;
    let n = arms.len();
    let mut rest = arms;
    let mut out: Vec<Json> = Vec::new();
    let mut i: usize = 0;
    proof {
        assert(orig.subrange(0, 0) =~= Seq::<Json>::empty());
    }
    while i < n
        invariant
            n == orig.len(),
            i <= n,
            rest@ == orig.subrange(i as int, n as int),
            out@ == without_null_arms(orig.subrange(0, i as int)),
        decreases n - i,
    {
        let x = rest.remove(0);
        proof {
            assert(orig[i as int] == x);
            assert(orig.subrange(0, i + 1).drop_last() =~= orig.subrange(0, i as int));
        }
        if !null_arm(&x) {
            out.push(x);
        }
        i = i + 1;
        proof {
            assert(rest@ =~= orig.subrange(i as int, n as int));
        }
    }
    proof {
        assert(orig.subrange(0, n as int) =~= orig);
    }
    out
}

/// The `oneOf` / `anyOf` rewrite of an object's members; `false`, with the
/// members unchanged, when the list has no null arm.
fn apply_of_step(ev: &mut Vec<(String, Json)>, key: &str, Ghost(ms): Ghost<Members>) -> (applied: bool)
    requires
        holds_members(old(ev)@, ms),
        key@ != "nullable"@,
    ensures
        applied == (of_step(ms, key@) is Some),
        applied ==> holds_members(final(ev)@, of_step(ms, key@)->Some_0),
        !applied ==> final(ev)@ == old(ev)@,
{
    proof {
        lemma_holds_keys(ev@, ms);
        lemma_get_member(ms, key@);
    }
    let i = match index_of_key(ev, key) {
        Some(i) => i,
        None => {
            proof {
                assert(get_member(ms, key@) is None);
                assert(of_step(ms, key@) is None);
            }
            return false;
        },
    };
    let ghost ev0 = ev@;
    proof {
        assert(find_member(ms, key@) == i);
        assert(get_member(ms, key@) == Some(ms[i as int].1));
        assert(ev0[i as int].0@ == ms[i as int].0);
        assert(slot_holds(ev0[i as int].1, ms[i as int].1));
    }
    let is_array = matches!(ev[i].1, Json::Array(_));
    if !is_array {
        proof {
            assert(slot_items(ms[i as int].1) is None);
            assert(of_step(ms, key@) is None);
        }
        return false;
    }
    let any_null = match &ev[i].1 {
        Json::Array(arms) => any_null_arm(arms),
        _ => false,
    };
    if !any_null {
        return false;
    }
    let ghost s = ms[i as int].1;
    proof {
        assert(ev0[i as int].1 is Array);
        assert(slot_items(s) == Some(ev0[i as int].1->Array_0@));
    }
    let ghost arms_s = slot_items(s)->Some_0;
    let ghost m1 = insert_member(ms, "nullable"@, Slot::Made(JsonModel::Bool(true)));
    let b = Json::Bool(true);
    proof {
        assert(slot_holds(b, Slot::Made(JsonModel::Bool(true))));
    }
    set_member(ev, String::from_str("nullable"), b, Ghost(ms), Ghost(Slot::Made(JsonModel::Bool(true))));
    proof {
        lemma_insert_other(ms, "nullable"@, Slot::Made(JsonModel::Bool(true)), key@);
        lemma_get_member(m1, key@);
        assert(m1[i as int] == ms[i as int]);
    }
    let ghost ev1 = ev@;
    let (kk, val) = ev.remove(i);
    proof {
        assert(ev1[i as int] == (kk, val));
        assert(ev1[i as int].0@ == m1[i as int].0);
        assert(slot_holds(val, s));
        lemma_holds_remove(ev1, m1, i as int);
        assert(ev@ == ev1.remove(i as int));
        assert(holds_members(ev@, m1.remove(i as int)));
    }
    let arms = match val {
        Json::Array(a) => a,
        _ => {
            proof {
                assert(false);
            }
            return false;
        },
    };
    proof {
        assert(arms@ == arms_s);
    }
    let mut rem = drop_null_arms(arms);
    if rem.len() == 1 {
        let _dups = take_member(ev, key, Ghost(m1.remove(i as int)));
        proof {
            lemma_remove_at(m1, i as int, key@);
        }
        let ghost m2 = remove_member(m1, key@);
        let arm = rem.pop().unwrap();
        match arm {
            Json::Object(am) => {
                merge_members(ev, am, Ghost(m2));
            },
            _ => {},
        }
    } else {
        let ghost rv = rem@;
        let ghost ev2 = ev@;
        proof {
            assert(m1[i as int].0 == key@);
            assert(kk@ == key@);
        }
        let xa = Json::Array(rem);
        proof {
            assert(slot_holds(xa, Slot::Items(rv)));
            lemma_holds_insert_at(ev2, m1, i as int, kk, xa, Slot::Items(rv));
        }
        ev.insert(i, (kk, xa));
    }
    true
}

/// Putting a member back at a position it was removed from, with a new
/// value, is updating the member there.
proof fn lemma_holds_insert_at(
    ev: Seq<(String, Json)>,
    ms: Members,
    i: int,
    k: String,
    x: Json,
    s: Slot,
)
    requires
        0 <= i < ms.len(),
        holds_members(ev, ms.remove(i)),
        k@ == ms[i].0,
        slot_holds(x, s),
    ensures
        holds_members(ev.insert(i, (k, x)), ms.update(i, (k@, s))),
{
    let e = ev.insert(i, (k, x));
    let t = ms.update(i, (k@, s));
    let mr = ms.remove(i);
    assert forall|q: int| 0 <= q < e.len() implies #[trigger] e[q].0@ == t[q].0 && slot_holds(
        e[q].1,
        t[q].1,
    ) by {
        if q < i {
            assert(e[q] == ev[q]);
            assert(ev[q].0@ == mr[q].0);
            assert(mr[q] == ms[q]);
        } else if q > i {
            assert(e[q] == ev[q - 1]);
            assert(ev[q - 1].0@ == mr[q - 1].0);
            assert(mr[q - 1] == ms[q]);
        }
    }
}

/// The `oneOf` / `anyOf` rewrite: `oneOf` first, `anyOf` when `oneOf` has no
/// null arm.
fn apply_nullable_step(ev: &mut Vec<(String, Json)>, Ghost(ms): Ghost<Members>)
    requires
        holds_members(old(ev)@, ms),
    ensures
        holds_members(final(ev)@, nullable_step(ms)),
{
    proof {
        reveal_strlit("oneOf");
        reveal_strlit("anyOf");
        reveal_strlit("nullable");
        assert("oneOf"@.len() == 5);
        assert("anyOf"@.len() == 5);
        assert("nullable"@.len() == 8);
    }
    if !apply_of_step(ev, "oneOf", Ghost(ms)) {
        apply_of_step(ev, "anyOf", Ghost(ms));
    }
}

/// `propertyNames` is removed; `examples` is removed, its first item kept as
/// `example` when there is none.
fn apply_examples_step(ev: &mut Vec<(String, Json)>, Ghost(ms): Ghost<Members>)
    requires
        holds_members(old(ev)@, ms),
    ensures
        holds_members(final(ev)@, examples_step(ms)),
{
    let _names = take_member(ev, "propertyNames", Ghost(ms));
    let ghost m3 = remove_member(ms, "propertyNames"@);
    let ex = take_member(ev, "examples", Ghost(m3));
    let ghost m4 = remove_member(m3, "examples"@);
    let ghost g = get_member(m3, "examples"@);
    match ex {
        Some(Json::Array(items)) => {
            let mut v = items;
            let ghost v0 = v@;
            proof {
                assert(slot_items(g->Some_0) == Some(v0));
            }
            if v.len() > 0 {
                let first = v.remove(0);
                proof {
                    assert(first == v0[0]);
                    assert(examples_step(ms) == or_insert_member(m4, "example"@, Slot::Orig(v0[0])));
                }
                add_absent(ev, String::from_str("example"), first, Ghost(m4), Ghost(Slot::Orig(first)));
                proof {
                    assert(holds_members(ev@, examples_step(ms)));
                }
            } else {
                proof {
                    assert(examples_step(ms) == m4);
                    assert(holds_members(ev@, examples_step(ms)));
                }
            }
        },
        Some(other) => {
            proof {
                assert(slot_items(g->Some_0) is None);
                assert(examples_step(ms) == m4);
            }
        },
        None => {
            proof {
                assert(examples_step(ms) == m3);
                lemma_get_member(m3, "examples"@);
                lemma_remove_absent(m3, "examples"@);
            }
        },
    }
}

/// Removing a key that no member has changes nothing.
proof fn lemma_remove_absent(ms: Members, k: Seq<char>)
    requires
        forall|i: int| 0 <= i < ms.len() ==> #[trigger] ms[i].0 != k,
    ensures
        remove_member(ms, k) == ms,
    decreases ms.len(),
{
    if ms.len() > 0 {
        let p = ms.drop_last();
        assert forall|i: int| 0 <= i < p.len() implies #[trigger] p[i].0 != k by {
            assert(p[i] == ms[i]);
        }
        lemma_remove_absent(p, k);
        assert(ms[ms.len() - 1].0 != k);
        assert(p.push(ms[ms.len() - 1]) =~= ms);
    }
}

/// What a member's value becomes in the rewritten object.
pub open spec fn finished_slot(j: Json, s: Slot) -> JsonModel {
    match s {
        Slot::Orig(x) => if decreases_to!(j => x) {
            rewrite_model(x)
        } else {
            jview(x)
        },
        Slot::Made(m) => m,
        Slot::Items(xs) => JsonModel::Array(
            Seq::new(
                xs.len(),
                |k: int|
                    if 0 <= k < xs.len() && decreases_to!(j => xs[k]) {
                        rewrite_model(xs[k])
                    } else {
                        JsonModel::Null
                    },
            ),
        ),
    }
}

/// Rewrite a document for OpenAPI 3.0 tooling, at every depth: a `type`
/// array naming one type besides `null` becomes that type with
/// `nullable: true`; a `oneOf` / `anyOf` with a null arm becomes nullable,
/// losing its null arms (a single remaining arm is merged into the
/// object); `propertyNames` is dropped; `examples` becomes `example` (its
/// first item).
pub fn rewrite_nullable_for_progenitor(j: Json) -> (r: Json)
    ensures
        jview(r) == rewrite_model(j),
    decreases j, 1nat,
{
    match j {
        Json::Array(v) => {
            let ghost orig = v@;
            let n = v.len();
            let mut rest = v;
            let mut out: Vec<Json> = Vec::new();
            let mut k: usize = 0;
            while k < n
                invariant
                    n == orig.len(),
                    orig == v@,
                    j is Array && j->Array_0 == v,
                    k <= n,
                    rest@ == orig.subrange(k as int, n as int),
                    out@.len() == k,
                    forall|i: int| 0 <= i < k ==> jview(#[trigger] out@[i]) == rewrite_model(orig[i]),
                decreases n - k,
            {
                let x = rest.remove(0);
                proof {
                    assert(x == orig[k as int]);
                    assert(decreases_to!(j => j->Array_0));
                    assert(decreases_to!(v => v@[k as int]));
                }
                let y = rewrite_nullable_for_progenitor(x);
                out.push(y);
                k = k + 1;
                proof {
                    assert(rest@ =~= orig.subrange(k as int, n as int));
                }
            }
            let r = Json::Array(out);
            proof {
                lemma_jview_containers(r);
                assert(jview(r)->Array_0 =~= rewrite_model(j)->Array_0);
            }
            r
        },
        Json::Object(es) => {
            let ghost es0 = es@;
            let ghost m0 = members_of(es0);
            proof {
                assert(j->Object_0@ == es0);
            }
            let mut ev = es;
            proof {
                lemma_holds_members_of(es0);
                lemma_node_step_ok(j);
            }
            apply_type_step(&mut ev, Ghost(m0));
            apply_nullable_step(&mut ev, Ghost(type_step(m0)));
            apply_examples_step(&mut ev, Ghost(nullable_step(type_step(m0))));
            let ghost ms = node_step(es0);
            let out = finish_members(ev, Ghost(ms), Ghost(j));
            let r = Json::Object(out);
            proof {
                lemma_jview_containers(r);
                assert forall|i: int| 0 <= i < ms.len() implies #[trigger] rewrite_model(j)->Object_0[i]
                    == (ms[i].0, finished_slot(j, ms[i].1)) by {
                    if let Slot::Items(xs) = ms[i].1 {
                        assert(rewrite_model(j)->Object_0[i].1->Array_0 =~= finished_slot(
                            j,
                            ms[i].1,
                        )->Array_0);
                    }
                }
                assert(jview(r)->Object_0 =~= rewrite_model(j)->Object_0);
            }
            r
        },
        other => other,
    }
}

/// Rewrite the values of an object's members after the rewrite at its own
/// level.
fn finish_members(ev: Vec<(String, Json)>, Ghost(ms): Ghost<Members>, Ghost(top): Ghost<Json>) -> (r:
    Vec<(String, Json)>)
    requires
        holds_members(ev@, ms),
        all_ok(top, ms),
    ensures
        r@.len() == ms.len(),
        forall|i: int|
            0 <= i < ms.len() ==> #[trigger] r@[i].0@ == ms[i].0 && jview(r@[i].1) == finished_slot(
                top,
                ms[i].1,
            ),
    decreases top, 0nat,
{
    let ghost orig = ev@;
    let n = ev.len();
    let mut rest = ev;
    let mut out: Vec<(String, Json)> = Vec::new();
    let mut i: usize = 0;
    while i < n
        invariant
            n == orig.len(),
            holds_members(orig, ms),
            all_ok(top, ms),
            i <= n,
            rest@ == orig.subrange(i as int, n as int),
            out@.len() == i,
            forall|q: int|
                0 <= q < i ==> #[trigger] out@[q].0@ == ms[q].0 && jview(out@[q].1) == finished_slot(
                    top,
                    ms[q].1,
                ),
        decreases n - i,
    {
        let (key, x) = rest.remove(0);
        let ghost s = ms[i as int].1;
        proof {
            assert(orig[i as int] == (key, x));
            assert(orig[i as int].0@ == ms[i as int].0);
            assert(slot_holds(x, s));
            assert(slot_ok(top, s));
        }
        let y = match x {
            Json::Object(o) => {
                let xo = Json::Object(o);
                proof {
                    assert(s is Orig);
                }
                rewrite_nullable_for_progenitor(xo)
            },
            Json::Array(v) => {
                let ghost xv = Json::Array(v);
                proof {
                    assert forall|k: int| 0 <= k < v@.len() implies decreases_to!(top => #[trigger] v@[k]) by {
                        if let Slot::Orig(y0) = s {
                            assert(decreases_to!(xv => xv->Array_0));
                            assert(decreases_to!(v => v@[k]));
                        }
                    }
                }
                let ghost items = v@;
                let n2 = v.len();
                let mut rest2 = v;
                let mut w: Vec<Json> = Vec::new();
                let mut k: usize = 0;
                while k < n2
                    invariant
                        n2 == items.len(),
                        k <= n2,
                        rest2@ == items.subrange(k as int, n2 as int),
                        forall|q: int| 0 <= q < items.len() ==> decreases_to!(top => #[trigger] items[q]),
                        w@.len() == k,
                        forall|q: int| 0 <= q < k ==> jview(#[trigger] w@[q]) == rewrite_model(items[q]),
                    decreases n2 - k,
                {
                    let e = rest2.remove(0);
                    proof {
                        assert(e == items[k as int]);
                        assert(decreases_to!(top => items[k as int]));
                    }
                    let f = rewrite_nullable_for_progenitor(e);
                    w.push(f);
                    k = k + 1;
                    proof {
                        assert(rest2@ =~= items.subrange(k as int, n2 as int));
                    }
                }
                let ya = Json::Array(w);
                proof {
                    lemma_jview_containers(ya);
                    match s {
                        Slot::Orig(y0) => {
                            assert(y0 == xv);
                            assert(rewrite_model(y0)->Array_0 =~= jview(ya)->Array_0);
                        },
                        Slot::Items(xs) => {
                            assert(xs == items);
                            assert(finished_slot(top, s)->Array_0 =~= jview(ya)->Array_0);
                        },
                        Slot::Made(_) => {},
                    }
                }
                ya
            },
            other => other,
        };
        out.push((key, y));
        i = i + 1;
        proof {
            assert(rest@ =~= orig.subrange(i as int, n as int));
        }
    }
    out
}

// ── OpenAPI 3.0.3 document ───────────────────────────────────────────────────

/// The keys of an object's members.
pub open spec fn model_keys(ms: Seq<(Seq<char>, JsonModel)>) -> Seq<Seq<char>> {
    Seq::new(ms.len(), |i: int| ms[i].0)
}

/// Set a member of an object: replaced where it is, or appended.
pub open spec fn model_set(ms: Seq<(Seq<char>, JsonModel)>, k: Seq<char>, v: JsonModel) -> Seq<
    (Seq<char>, JsonModel),
> {
    let i = find_in(model_keys(ms), k);
    if i >= 0 {
        ms.update(i, (k, v))
    } else {
        ms.push((k, v))
    }
}

/// Remove every member with the key.
pub open spec fn model_remove(ms: Seq<(Seq<char>, JsonModel)>, k: Seq<char>) -> Seq<
    (Seq<char>, JsonModel),
>
    decreases ms.len(),
{
    if ms.len() == 0 {
        ms
    } else {
        let r = model_remove(ms.drop_last(), k);
        if ms[ms.len() - 1].0 == k {
            r
        } else {
            r.push(ms[ms.len() - 1])
        }
    }
}

/// A document marked as OpenAPI `3.0.3`, with the license `identifier`
/// (a 3.1 field) removed from `info.license`.
pub open spec fn finalize_3_0(m: JsonModel) -> JsonModel {
    match m {
        JsonModel::Object(ms) => {
            let ms1 = model_set(ms, "openapi"@, JsonModel::Str("3.0.3"@));
            let i = find_in(model_keys(ms1), "info"@);
            if i >= 0 {
                match ms1[i].1 {
                    JsonModel::Object(info) => {
                        let li = find_in(model_keys(info), "license"@);
                        let info2 = if li >= 0 {
                            match info[li].1 {
                                JsonModel::Object(lic) => info.update(
                                    li,
                                    (info[li].0, JsonModel::Object(model_remove(lic, "identifier"@))),
                                ),
                                _ => info,
                            }
                        } else {
                            info
                        };
                        JsonModel::Object(ms1.update(i, (ms1[i].0, JsonModel::Object(info2))))
                    },
                    _ => JsonModel::Object(ms1),
                }
            } else {
                JsonModel::Object(ms1)
            }
        },
        _ => m,
    }
}

proof fn lemma_model_keys(es: Seq<(String, Json)>)
    ensures
        model_keys(members_view(es)) == entry_keys(es),
{
    assert(model_keys(members_view(es)) =~= entry_keys(es));
}

/// Set a member of an object.
fn json_set(es: &mut Vec<(String, Json)>, k: String, x: Json)
    ensures
        members_view(final(es)@) == model_set(members_view(old(es)@), k@, jview(x)),
{
    proof {
        lemma_model_keys(es@);
    }
    let ghost before = members_view(es@);
    match index_of_key(es, k.as_str()) {
        Some(i) => {
            let _old = es.remove(i);
            es.insert(i, (k, x));
            proof {
                assert(members_view(es@) =~= before.update(i as int, (k@, jview(x))));
            }
        },
        None => {
            es.push((k, x));
            proof {
                assert(members_view(es@) =~= before.push((k@, jview(x))));
            }
        },
    }
}

/// Remove every member with the key.
fn json_remove(es: &mut Vec<(String, Json)>, k: &str)
    ensures
        members_view(final(es)@) == model_remove(members_view(old(es)@), k@),
{
    let ghost orig = es@;
    let ghost mv = members_view(orig);
    let n = es.len();
    let mut rest: Vec<(String, Json)> = Vec::new();
    std::mem::swap(&mut rest, es);
    let mut i: usize = 0;
    proof {
        assert(mv.subrange(0, 0) =~= Seq::<(Seq<char>, JsonModel)>::empty());
        assert(members_view(es@) =~= Seq::<(Seq<char>, JsonModel)>::empty());
    }
    while i < n
        invariant
            n == orig.len(),
            mv == members_view(orig),
            i <= n,
            rest@ == orig.subrange(i as int, n as int),
            members_view(es@) == model_remove(mv.subrange(0, i as int), k@),
        decreases n - i,
    {
        let ghost before = es@;
        let (key, value) = rest.remove(0);
        proof {
            assert(orig[i as int] == (key, value));
            assert(mv.subrange(0, i + 1).drop_last() =~= mv.subrange(0, i as int));
            assert(mv.subrange(0, i + 1)[i as int] == (key@, jview(value)));
        }
        if !str_eq(key.as_str(), k) {
            es.push((key, value));
            proof {
                assert(members_view(es@) =~= members_view(before).push((key@, jview(value))));
            }
        }
        i = i + 1;
        proof {
            assert(rest@ =~= orig.subrange(i as int, n as int));
        }
    }
    proof {
        assert(mv.subrange(0, n as int) =~= mv);
    }
}

/// Mark a document as OpenAPI `3.0.3` and drop `info.license.identifier`.
pub fn finalize_openapi_3_0(doc: Json) -> (r: Json)
    ensures
        jview(r) == finalize_3_0(jview(doc)),
{
    proof {
        lemma_jview_containers(doc);
    }
    match doc {
        Json::Object(es) => {
            let ghost es0 = es@;
            let mut es = es;
            let ver = Json::Str(String::from_str("3.0.3"));
            proof {
                assert(jview(ver) == JsonModel::Str("3.0.3"@));
                assert(jview(doc) == JsonModel::Object(members_view(es0)));
            }
            json_set(&mut es, String::from_str("openapi"), ver);
            let ghost ms1 = members_view(es@);
            proof {
                assert(ms1 == model_set(members_view(es0), "openapi"@, JsonModel::Str("3.0.3"@)));
            }
            proof {
                lemma_model_keys(es@);
            }
            match index_of_key(&es, "info") {
                Some(i) => {
                    let ghost e1 = es@;
                    let (ik, iv) = es.remove(i);
                    proof {
                        assert(e1[i as int] == (ik, iv));
                        assert(ms1[i as int] == (ik@, jview(iv)));
                        lemma_jview_containers(iv);
                    }
                    let ghost ivm = jview(iv);
                    let new_iv = match iv {
                        Json::Object(info) => {
                            let mut info = info;
                            let ghost iv0 = members_view(info@);
                            proof {
                                lemma_model_keys(info@);
                                assert(ivm == JsonModel::Object(iv0));
                            }
                            let ghost li_s = find_in(model_keys(iv0), "license"@);
                            let ghost info2 = if li_s >= 0 {
                                match iv0[li_s].1 {
                                    JsonModel::Object(lic) => iv0.update(
                                        li_s,
                                        (iv0[li_s].0, JsonModel::Object(model_remove(lic, "identifier"@))),
                                    ),
                                    _ => iv0,
                                }
                            } else {
                                iv0
                            };
                            match index_of_key(&info, "license") {
                                Some(li) => {
                                    let ghost i1 = info@;
                                    let (lk, lv) = info.remove(li);
                                    proof {
                                        assert(i1[li as int] == (lk, lv));
                                        assert(iv0[li as int] == (lk@, jview(lv)));
                                        lemma_jview_containers(lv);
                                    }
                                    let new_lv = match lv {
                                        Json::Object(lic) => {
                                            let mut lic = lic;
                                            json_remove(&mut lic, "identifier");
                                            let o = Json::Object(lic);
                                            proof {
                                                lemma_jview_containers(o);
                                            }
                                            o
                                        },
                                        other => other,
                                    };
                                    let ghost nl = new_lv;
                                    info.insert(li, (lk, new_lv));
                                    proof {
                                        assert(members_view(info@) =~= iv0.update(li as int, (lk@, jview(nl))));
                                        if !(iv0[li as int].1 is Object) {
                                            assert(iv0.update(li as int, (lk@, jview(nl))) =~= iv0);
                                        }
                                        assert(members_view(info@) == info2);
                                    }
                                },
                                None => {
                                    proof {
                                        assert(members_view(info@) == info2);
                                    }
                                },
                            }
                            let o = Json::Object(info);
                            proof {
                                lemma_jview_containers(o);
                                assert(jview(o) == JsonModel::Object(info2));
                            }
                            o
                        },
                        other => other,
                    };
                    let ghost ni = new_iv;
                    es.insert(i, (ik, new_iv));
                    proof {
                        assert(members_view(es@) =~= ms1.update(i as int, (ik@, jview(ni))));
                        if !(ivm is Object) {
                            assert(ms1.update(i as int, (ik@, jview(ni))) =~= ms1);
                        }
                    }
                    let r = Json::Object(es);
                    proof {
                        lemma_jview_containers(r);
                        assert(find_in(model_keys(ms1), "info"@) == i);
                        assert(jview(r) == finalize_3_0(jview(doc)));
                    }
                    r
                },
                None => {
                    let r = Json::Object(es);
                    proof {
                        lemma_jview_containers(r);
                    }
                    r
                },
            }
        },
        other => other,
    }
}

/// Post-process a generated document for OpenAPI 3.0.3 tooling: boolean
/// schemas and 2020-12 keywords first, then nullability, then the version
/// marker and the license identifier.
pub fn to_3_0(doc: Json) -> (r: Json)
    ensures
        jview(r) == finalize_3_0(rewrite_view(coerce_model(jview(doc)))),
{
    let c = coerce_boolean_and_2020_schemas(doc);
    proof {
        lemma_rewrite_view(c);
    }
    let w = rewrite_nullable_for_progenitor(c);
    finalize_openapi_3_0(w)
}

// ── Laws ─────────────────────────────────────────────────────────────────────

/// No object at any depth has a 2020-12 keyword, or a schema keyword with a
/// boolean value.
pub open spec fn free_of_boolean_schemas(m: JsonModel) -> bool
    decreases m,
{
    match m {
        JsonModel::Array(s) => forall|i: int| 0 <= i < s.len() ==> free_of_boolean_schemas(#[trigger] s[i]),
        JsonModel::Object(es) => forall|i: int|
            0 <= i < es.len() ==> {
                &&& !is_2020_keyword(#[trigger] es[i].0)
                &&& !(is_schema_keyword(es[i].0) && es[i].1 is Bool)
                &&& free_of_boolean_schemas(es[i].1)
            },
        _ => true,
    }
}

/// After coercion, no object at any depth has a 2020-12 keyword or a
/// boolean schema.
pub proof fn lemma_coerce_removes_boolean_schemas(m: JsonModel)
    ensures
        free_of_boolean_schemas(coerce_model(m)),
    decreases m,
{
    match m {
        JsonModel::Array(s) => {
            let c = coerce_model(m)->Array_0;
            assert forall|i: int| 0 <= i < c.len() implies free_of_boolean_schemas(#[trigger] c[i]) by {
                lemma_coerce_removes_boolean_schemas(s[i]);
            }
        },
        JsonModel::Object(es) => {
            lemma_coerce_members_clean(m, es);
        },
        _ => {},
    }
}

/// The coerced members of an object are free of boolean schemas.
proof fn lemma_coerce_members_clean(m: JsonModel, es: Seq<(Seq<char>, JsonModel)>)
    requires
        decreases_to!(m => es),
    ensures
        forall|i: int|
            0 <= i < coerce_members(es).len() ==> {
                &&& !is_2020_keyword(#[trigger] coerce_members(es)[i].0)
                &&& !(is_schema_keyword(coerce_members(es)[i].0) && coerce_members(es)[i].1 is Bool)
                &&& free_of_boolean_schemas(coerce_members(es)[i].1)
            },
    decreases m, es.len(),
{
    if es.len() > 0 {
        let p = es.drop_last();
        assert(decreases_to!(es => p));
        lemma_coerce_members_clean(m, p);
        let k = es[es.len() - 1].0;
        let v = es[es.len() - 1].1;
        assert(decreases_to!(es => es[es.len() - 1]));
        assert(decreases_to!(m => v));
        lemma_coerce_removes_boolean_schemas(v);
        let r = coerce_members(p);
        let c = coerce_members(es);
        assert forall|i: int| 0 <= i < c.len() implies {
            &&& !is_2020_keyword(#[trigger] c[i].0)
            &&& !(is_schema_keyword(c[i].0) && c[i].1 is Bool)
            &&& free_of_boolean_schemas(c[i].1)
        } by {
            if i < r.len() {
                assert(c[i] == r[i]);
            } else {
                let e = JsonModel::Object(Seq::<(Seq<char>, JsonModel)>::empty());
                assert(free_of_boolean_schemas(e));
            }
        }
    }
}

/// The document produced for OpenAPI 3.0 tooling is marked `3.0.3`.
pub proof fn lemma_finalize_marks_version(m: JsonModel)
    requires
        m is Object,
    ensures
        ({
            let f = finalize_3_0(m)->Object_0;
            let p = find_in(model_keys(f), "openapi"@);
            finalize_3_0(m) is Object && p >= 0 && f[p].1 == JsonModel::Str("3.0.3"@)
        }),
{
    let ms = m->Object_0;
    let ms1 = model_set(ms, "openapi"@, JsonModel::Str("3.0.3"@));
    lemma_find_in(model_keys(ms), "openapi"@);
    if find_in(model_keys(ms), "openapi"@) >= 0 {
        assert(model_keys(ms1) =~= model_keys(ms));
    } else {
        assert(model_keys(ms1).drop_last() =~= model_keys(ms));
    }
    lemma_find_in(model_keys(ms1), "openapi"@);
    lemma_find_in(model_keys(ms1), "info"@);
    let p = find_in(model_keys(ms1), "openapi"@);
    assert(p >= 0 && ms1[p].1 == JsonModel::Str("3.0.3"@));
    let i = find_in(model_keys(ms1), "info"@);
    if i >= 0 {
        if let JsonModel::Object(info) = ms1[i].1 {
            let f = finalize_3_0(m)->Object_0;
            assert(model_keys(f) =~= model_keys(ms1));
            assert(i != p);
            assert(f[p] == ms1[p]);
        }
    }
}

/// No object at any depth has a member with the key.
pub open spec fn lacks_key(m: JsonModel, k: Seq<char>) -> bool
    decreases m,
{
    match m {
        JsonModel::Array(s) => forall|i: int| 0 <= i < s.len() ==> lacks_key(#[trigger] s[i], k),
        JsonModel::Object(es) => forall|i: int|
            0 <= i < es.len() ==> #[trigger] es[i].0 != k && lacks_key(es[i].1, k),
        _ => true,
    }
}

/// An array lacks a key when each of its items does.
proof fn lemma_array_lacks_key(r: Seq<JsonModel>, k: Seq<char>)
    requires
        forall|i: int| 0 <= i < r.len() ==> lacks_key(#[trigger] r[i], k),
    ensures
        lacks_key(JsonModel::Array(r), k),
{
}

/// Removing a key leaves no member with it, and adds no key.
proof fn lemma_remove_member_keys(ms: Members, k: Seq<char>, other: Seq<char>)
    ensures
        forall|i: int| 0 <= i < remove_member(ms, k).len() ==> #[trigger] remove_member(ms, k)[i].0 != k,
        (forall|i: int| 0 <= i < ms.len() ==> #[trigger] ms[i].0 != other) ==> forall|i: int|
            0 <= i < remove_member(ms, k).len() ==> #[trigger] remove_member(ms, k)[i].0 != other,
    decreases ms.len(),
{
    if ms.len() > 0 {
        let p = ms.drop_last();
        lemma_remove_member_keys(p, k, other);
        let r = remove_member(p, k);
        if (forall|i: int| 0 <= i < ms.len() ==> #[trigger] ms[i].0 != other) {
            assert forall|i: int| 0 <= i < p.len() implies #[trigger] p[i].0 != other by {
                assert(p[i] == ms[i]);
            }
        }
        if ms[ms.len() - 1].0 != k {
            let q = r.push(ms[ms.len() - 1]);
            assert forall|i: int| 0 <= i < q.len() implies #[trigger] q[i].0 != k by {
                if i < r.len() {
                    assert(q[i] == r[i]);
                }
            }
            if (forall|i: int| 0 <= i < ms.len() ==> #[trigger] ms[i].0 != other) {
                assert forall|i: int| 0 <= i < q.len() implies #[trigger] q[i].0 != other by {
                    if i < r.len() {
                        assert(q[i] == r[i]);
                    }
                }
            }
        }
    }
}

/// After the rewrite, no object at any depth has a `propertyNames` or an
/// `examples` member.
#[verifier::spinoff_prover]
pub proof fn lemma_rewrite_drops_property_names_and_examples(j: Json)
    ensures
        lacks_key(rewrite_model(j), "propertyNames"@),
        lacks_key(rewrite_model(j), "examples"@),
    decreases j,
{
    match j {
        Json::Array(v) => {
            let r = rewrite_model(j)->Array_0;
            assert forall|i: int| 0 <= i < r.len() implies lacks_key(#[trigger] r[i], "propertyNames"@)
                && lacks_key(r[i], "examples"@) by {
                assert(decreases_to!(j => j->Array_0));
                assert(decreases_to!(v => v@[i]));
                lemma_rewrite_drops_property_names_and_examples(v@[i]);
            }
            assert(rewrite_model(j) == JsonModel::Array(r));
            lemma_array_lacks_key(r, "propertyNames"@);
            lemma_array_lacks_key(r, "examples"@);
        },
        Json::Object(es) => {
            lemma_node_step_ok(j);
            let ms = node_step(es@);
            let m2 = nullable_step(type_step(members_of(es@)));
            let m3 = remove_member(m2, "propertyNames"@);
            lemma_remove_member_keys(m2, "propertyNames"@, "examples"@);
            lemma_remove_member_keys(m3, "examples"@, "propertyNames"@);
            reveal_strlit("example");
            reveal_strlit("examples");
            reveal_strlit("propertyNames");
            assert("example"@.len() == 7 && "examples"@.len() == 8 && "propertyNames"@.len() == 13);
            assert(forall|i: int| 0 <= i < m3.len() ==> #[trigger] m3[i].0 != "propertyNames"@);
            lemma_get_member(m3, "examples"@);
            assert forall|i: int| 0 <= i < ms.len() implies #[trigger] ms[i].0 != "propertyNames"@
                && ms[i].0 != "examples"@ by {
                let m4 = remove_member(m3, "examples"@);
                if get_member(m3, "examples"@) is Some {
                    if i < m4.len() {
                        assert(ms[i] == m4[i]);
                    } else {
                        assert(ms[i].0 == "example"@);
                    }
                }
            }
            let r = rewrite_model(j)->Object_0;
            assert forall|i: int| 0 <= i < r.len() implies #[trigger] r[i].0 != "propertyNames"@
                && lacks_key(r[i].1, "propertyNames"@) && r[i].0 != "examples"@ && lacks_key(
                r[i].1,
                "examples"@,
            ) by {
                assert(r[i].0 == ms[i].0);
                assert(slot_ok(j, ms[i].1));
                match ms[i].1 {
                    Slot::Orig(x) => {
                        lemma_rewrite_drops_property_names_and_examples(x);
                    },
                    Slot::Made(m) => {},
                    Slot::Items(xs) => {
                        let a = r[i].1->Array_0;
                        assert forall|k: int| 0 <= k < a.len() implies lacks_key(#[trigger] a[k], "propertyNames"@)
                            && lacks_key(a[k], "examples"@) by {
                            lemma_rewrite_drops_property_names_and_examples(xs[k]);
                        }
                    },
                }
            }
        },
        _ => {
            assert(rewrite_model(j) == jview(j));
            assert(!(jview(j) is Array) && !(jview(j) is Object));
        },
    }
}

/// The value of the first member of an object with the key, if any.
pub open spec fn member_value(es: Seq<(String, Json)>, k: Seq<char>) -> Option<Json> {
    match get_member(members_of(es), k) {
        Some(Slot::Orig(x)) => Some(x),
        _ => None,
    }
}

/// An object level that the nullable rewrite leaves as it is: its `type`,
/// when an array, does not name exactly one type besides `null`; its
/// `oneOf` and `anyOf`, when arrays, have no null arm; and it has no
/// `propertyNames` or `examples` member.
pub open spec fn level_untouched(es: Seq<(String, Json)>) -> bool {
    &&& (member_value(es, "type"@) matches Some(Json::Array(v)) ==> non_null_strings(v@).len()
        != 1)
    &&& (member_value(es, "oneOf"@) matches Some(Json::Array(v)) ==> forall|i: int|
        0 <= i < v@.len() ==> !is_null_arm(#[trigger] v@[i]))
    &&& (member_value(es, "anyOf"@) matches Some(Json::Array(v)) ==> forall|i: int|
        0 <= i < v@.len() ==> !is_null_arm(#[trigger] v@[i]))
    &&& member_value(es, "propertyNames"@) is None
    &&& member_value(es, "examples"@) is None
}

/// A document in which every object, at every depth, is left as it is by
/// the nullable rewrite.
pub open spec fn untouched(j: Json) -> bool
    decreases j,
{
    match j {
        Json::Array(v) => forall|i: int| 0 <= i < v@.len() ==> untouched(#[trigger] v@[i]),
        Json::Object(es) => level_untouched(es@) && forall|i: int|
            0 <= i < es@.len() ==> untouched(#[trigger] es@[i].1),
        _ => true,
    }
}

/// A member that is absent from an object is absent from its members.
proof fn lemma_absent_member(es: Seq<(String, Json)>, k: Seq<char>)
    requires
        member_value(es, k) is None,
    ensures
        get_member(members_of(es), k) is None,
        remove_member(members_of(es), k) == members_of(es),
{
    let ms = members_of(es);
    lemma_get_member(ms, k);
    if find_member(ms, k) >= 0 {
        let i = find_member(ms, k);
        assert(ms[i].1 == Slot::Orig(es[i].1));
    }
    lemma_remove_absent(ms, k);
}

/// The rewrite at an object's level changes nothing on an untouched level.
proof fn lemma_untouched_node_step(es: Seq<(String, Json)>)
    requires
        level_untouched(es),
    ensures
        node_step(es) == members_of(es),
{
    let ms = members_of(es);
    lemma_get_member(ms, "type"@);
    if find_member(ms, "type"@) >= 0 {
        let i = find_member(ms, "type"@);
        assert(ms[i].1 == Slot::Orig(es[i].1));
    }
    assert(type_step(ms) == ms);
    lemma_get_member(ms, "oneOf"@);
    if find_member(ms, "oneOf"@) >= 0 {
        let i = find_member(ms, "oneOf"@);
        assert(ms[i].1 == Slot::Orig(es[i].1));
    }
    assert(of_step(ms, "oneOf"@) is None);
    lemma_get_member(ms, "anyOf"@);
    if find_member(ms, "anyOf"@) >= 0 {
        let i = find_member(ms, "anyOf"@);
        assert(ms[i].1 == Slot::Orig(es[i].1));
    }
    assert(of_step(ms, "anyOf"@) is None);
    assert(nullable_step(type_step(ms)) == ms);
    lemma_absent_member(es, "propertyNames"@);
    lemma_absent_member(es, "examples"@);
    assert(examples_step(ms) == ms);
}

/// A document without nullable patterns and without `propertyNames` or
/// `examples` members is left unchanged by the nullable rewrite.
pub proof fn lemma_untouched_rewrite_is_identity(j: Json)
    requires
        untouched(j),
    ensures
        rewrite_model(j) == jview(j),
    decreases j,
{
    match j {
        Json::Array(v) => {
            assert forall|i: int| 0 <= i < v@.len() implies rewrite_model(#[trigger] v@[i]) == jview(
                v@[i],
            ) by {
                assert(decreases_to!(j => j->Array_0));
                assert(decreases_to!(v => v@[i]));
                lemma_untouched_rewrite_is_identity(v@[i]);
            }
            assert(rewrite_model(j)->Array_0 =~= jview(j)->Array_0);
        },
        Json::Object(es) => {
            lemma_untouched_node_step(es@);
            let ms = members_of(es@);
            assert forall|i: int| 0 <= i < es@.len() implies rewrite_model(#[trigger] es@[i].1)
                == jview(es@[i].1) by {
                assert(decreases_to!(j => j->Object_0));
                assert(decreases_to!(es => es@[i]));
                assert(decreases_to!(es@[i] => es@[i].1));
                lemma_untouched_rewrite_is_identity(es@[i].1);
            }
            assert(rewrite_model(j)->Object_0 =~= jview(j)->Object_0);
        },
        _ => {},
    }
}

} // verus!
