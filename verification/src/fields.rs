//! Reading typed fields out of a parsed JSON object: lookup by key (with an
//! optional historical alias), and extractors for each field shape the
//! models use. Every extractor has a specification-level mirror, and the
//! executable one returns exactly what the mirror describes.
use vstd::prelude::*;

use crate::json::{is_number_text, jv_view, obj_view, JKv, JsonField, JsonVal, JsonValue};
use crate::nums::{int_val, is_int_text};
use crate::text::str_eq;

verus! {

broadcast use vstd::seq::group_seq_axioms, vstd::std_specs::vec::group_vec_axioms;

/// The view of an optional string.
pub open spec fn opt_view(o: Option<String>) -> Option<Seq<char>> {
    match o {
        Option::None => Option::None,
        Option::Some(s) => Option::Some(s@),
    }
}

/// The views of a sequence's elements.
pub open spec fn views_of<T: View>(s: Seq<T>) -> Seq<T::V> {
    Seq::new(s.len(), |i: int| s[i]@)
}

/// The first value stored under `key`, walking pairs in document order.
pub open spec fn lookup_spec(fs: Seq<JKv>, key: Seq<char>) -> Option<JsonVal>
    decreases fs.len(),
{
    if fs.len() == 0 {
        Option::None
    } else if fs[0].k == key {
        Option::Some(fs[0].v)
    } else {
        lookup_spec(fs.drop_first(), key)
    }
}

/// The first value stored under `key` or under the historical alias `alias`.
pub open spec fn lookup2_spec(fs: Seq<JKv>, key: Seq<char>, alias: Seq<char>) -> Option<JsonVal>
    decreases fs.len(),
{
    if fs.len() == 0 {
        Option::None
    } else if fs[0].k == key || fs[0].k == alias {
        Option::Some(fs[0].v)
    } else {
        lookup2_spec(fs.drop_first(), key, alias)
    }
}

pub fn lookup<'a>(fields: &'a Vec<JsonField>, key: &str) -> (r: Option<&'a JsonValue>)
    ensures
        match r {
            Some(x) => lookup_spec(obj_view(fields@), key@) == Some(jv_view(*x)),
            None => lookup_spec(obj_view(fields@), key@) is None,
        },
{
    let n = fields.len();
    let mut i: usize = 0;
    proof {
        assert(obj_view(fields@).skip(0) =~= obj_view(fields@));
    }
    while i < n
        invariant
            i <= n,
            n == fields@.len(),
            lookup_spec(obj_view(fields@), key@) == lookup_spec(
                obj_view(fields@).skip(i as int),
                key@,
            ),
        decreases n - i,
    {
        if str_eq(fields[i].key.as_str(), key) {
            proof {
                assert(obj_view(fields@).skip(i as int)[0] == obj_view(fields@)[i as int]);
            }
            return Some(&fields[i].value);
        }
        proof {
            assert(obj_view(fields@).skip(i as int)[0] == obj_view(fields@)[i as int]);
            assert(obj_view(fields@).skip(i as int).drop_first() =~= obj_view(fields@).skip(
                i + 1 as int,
            ));
        }
        i = i + 1;
    }
    proof {
        assert(obj_view(fields@).skip(n as int) =~= Seq::<JKv>::empty());
    }
    None
}

pub fn lookup2<'a>(fields: &'a Vec<JsonField>, key: &str, alias: &str) -> (r: Option<
    &'a JsonValue,
>)
    ensures
        match r {
            Some(x) => lookup2_spec(obj_view(fields@), key@, alias@) == Some(jv_view(*x)),
            None => lookup2_spec(obj_view(fields@), key@, alias@) is None,
        },
{
    let n = fields.len();
    let mut i: usize = 0;
    proof {
        assert(obj_view(fields@).skip(0) =~= obj_view(fields@));
    }
    while i < n
        invariant
            i <= n,
            n == fields@.len(),
            lookup2_spec(obj_view(fields@), key@, alias@) == lookup2_spec(
                obj_view(fields@).skip(i as int),
                key@,
                alias@,
            ),
        decreases n - i,
    {
        if str_eq(fields[i].key.as_str(), key) || str_eq(fields[i].key.as_str(), alias) {
            proof {
                assert(obj_view(fields@).skip(i as int)[0] == obj_view(fields@)[i as int]);
            }
            return Some(&fields[i].value);
        }
        proof {
            assert(obj_view(fields@).skip(i as int)[0] == obj_view(fields@)[i as int]);
            assert(obj_view(fields@).skip(i as int).drop_first() =~= obj_view(fields@).skip(
                i + 1 as int,
            ));
        }
        i = i + 1;
    }
    proof {
        assert(obj_view(fields@).skip(n as int) =~= Seq::<JKv>::empty());
    }
    None
}

// ---------------------------------------------------------------------------
// Field shapes.
// ---------------------------------------------------------------------------
/// A required string field.
pub open spec fn str_field(v: Option<JsonVal>) -> Option<Seq<char>> {
    match v {
        Option::Some(JsonVal::Str(s)) => Option::Some(s),
        _ => Option::None,
    }
}

/// An optional string field: absent or `null` is an explicit `None`.
pub open spec fn opt_str_field(v: Option<JsonVal>) -> Option<Option<Seq<char>>> {
    match v {
        Option::None => Option::Some(Option::None),
        Option::Some(JsonVal::Null) => Option::Some(Option::None),
        Option::Some(JsonVal::Str(s)) => Option::Some(Option::Some(s)),
        _ => Option::None,
    }
}

/// A required boolean field.
pub open spec fn bool_field(v: Option<JsonVal>) -> Option<bool> {
    match v {
        Option::Some(JsonVal::Bool(b)) => Option::Some(b),
        _ => Option::None,
    }
}

/// A required numeric field kept as its source text, which must be a valid
/// number token.
pub open spec fn num_text_field(v: Option<JsonVal>) -> Option<Seq<char>> {
    match v {
        Option::Some(JsonVal::Num(t)) => if is_number_text(t) {
            Option::Some(t)
        } else {
            Option::None
        },
        _ => Option::None,
    }
}

/// A required integer field within the given inclusive range.
pub open spec fn int_field(v: Option<JsonVal>, lo: int, hi: int) -> Option<int> {
    match v {
        Option::Some(JsonVal::Num(t)) => if is_int_text(t) && lo <= int_val(t) <= hi {
            Option::Some(int_val(t))
        } else {
            Option::None
        },
        _ => Option::None,
    }
}

/// An optional integer field within the given inclusive range.
pub open spec fn opt_int_field(v: Option<JsonVal>, lo: int, hi: int) -> Option<Option<int>> {
    match v {
        Option::None => Option::Some(Option::None),
        Option::Some(JsonVal::Null) => Option::Some(Option::None),
        Option::Some(JsonVal::Num(t)) => if is_int_text(t) && lo <= int_val(t) <= hi {
            Option::Some(Option::Some(int_val(t)))
        } else {
            Option::None
        },
        _ => Option::None,
    }
}

pub fn get_str(v: Option<&JsonValue>) -> (r: Option<String>)
    ensures
        opt_view(r) == str_field(match v {
            Some(x) => Some(jv_view(*x)),
            None => None,
        }),
{
    match v {
        Some(JsonValue::Str(s)) => Some(s.clone()),
        _ => None,
    }
}

pub fn get_opt_str(v: Option<&JsonValue>) -> (r: Option<Option<String>>)
    ensures
        ({
            let sv = opt_str_field(match v {
                Some(x) => Some(jv_view(*x)),
                None => None,
            });
            match r {
                Some(o) => sv == Some(opt_view(o)),
                None => sv is None,
            }
        }),
{
    match v {
        None => Some(None),
        Some(JsonValue::Null) => Some(None),
        Some(JsonValue::Str(s)) => Some(Some(s.clone())),
        _ => None,
    }
}

pub fn get_bool(v: Option<&JsonValue>) -> (r: Option<bool>)
    ensures
        r == bool_field(match v {
            Some(x) => Some(jv_view(*x)),
            None => None,
        }),
{
    match v {
        Some(JsonValue::Bool(b)) => Some(*b),
        _ => None,
    }
}

pub fn get_num_text(v: Option<&JsonValue>) -> (r: Option<String>)
    ensures
        opt_view(r) == num_text_field(match v {
            Some(x) => Some(jv_view(*x)),
            None => None,
        }),
{
    match v {
        Some(JsonValue::Num(t)) => {
            if crate::parse::is_number_text_exec(t.as_str()) {
                Some(t.clone())
            } else {
                None
            }
        },
        _ => None,
    }
}

pub fn get_i64(v: Option<&JsonValue>) -> (r: Option<i64>)
    ensures
        ({
            let sv = int_field(
                match v {
                    Some(x) => Some(jv_view(*x)),
                    None => None,
                },
                i64::MIN as int,
                i64::MAX as int,
            );
            match r {
                Some(n) => sv == Some(n as int),
                None => sv is None,
            }
        }),
{
    match v {
        Some(JsonValue::Num(t)) => crate::nums::parse_i64_dec(t.as_str()),
        _ => None,
    }
}

pub fn get_i32(v: Option<&JsonValue>) -> (r: Option<i32>)
    ensures
        ({
            let sv = int_field(
                match v {
                    Some(x) => Some(jv_view(*x)),
                    None => None,
                },
                i32::MIN as int,
                i32::MAX as int,
            );
            match r {
                Some(n) => sv == Some(n as int),
                None => sv is None,
            }
        }),
{
    match get_i64(v) {
        Some(n) => {
            if i32::MIN as i64 <= n && n <= i32::MAX as i64 {
                Some(n as i32)
            } else {
                None
            }
        },
        None => None,
    }
}

pub fn get_u64(v: Option<&JsonValue>) -> (r: Option<u64>)
    ensures
        ({
            let sv = int_field(
                match v {
                    Some(x) => Some(jv_view(*x)),
                    None => None,
                },
                0,
                u64::MAX as int,
            );
            match r {
                Some(n) => sv == Some(n as int),
                None => sv is None,
            }
        }),
{
    match v {
        Some(JsonValue::Num(t)) => {
            let cs = crate::text::str_to_chars(t.as_str());
            if cs.len() > 0 && cs[0] == '-' {
                proof {
                    assert(cs@.skip(1) =~= t@.drop_first());
                }
                match crate::nums::parse_u64_from(&cs, 1) {
                    Some(m) => {
                        if m == 0 {
                            Some(0)
                        } else {
                            None
                        }
                    },
                    None => None,
                }
            } else {
                proof {
                    assert(cs@.skip(0) =~= t@);
                }
                match crate::nums::parse_u64_from(&cs, 0) {
                    Some(n) => Some(n),
                    None => None,
                }
            }
        },
        _ => None,
    }
}

pub fn get_u32(v: Option<&JsonValue>) -> (r: Option<u32>)
    ensures
        ({
            let sv = int_field(
                match v {
                    Some(x) => Some(jv_view(*x)),
                    None => None,
                },
                0,
                u32::MAX as int,
            );
            match r {
                Some(n) => sv == Some(n as int),
                None => sv is None,
            }
        }),
{
    match get_u64(v) {
        Some(n) => {
            if n <= u32::MAX as u64 {
                Some(n as u32)
            } else {
                None
            }
        },
        None => None,
    }
}

pub fn get_opt_i32(v: Option<&JsonValue>) -> (r: Option<Option<i32>>)
    ensures
        ({
            let sv = opt_int_field(
                match v {
                    Some(x) => Some(jv_view(*x)),
                    None => None,
                },
                i32::MIN as int,
                i32::MAX as int,
            );
            match r {
                Some(Some(n)) => sv == Some(Some(n as int)),
                Some(None) => sv == Some(None::<int>),
                None => sv is None,
            }
        }),
{
    match v {
        None => Some(None),
        Some(JsonValue::Null) => Some(None),
        _ => match get_i32(v) {
            Some(n) => Some(Some(n)),
            None => None,
        },
    }
}



/// If neither name appears before position `j` and one of them is there,
/// the aliased lookup returns that pair's value.
pub proof fn lemma_lookup2_at(fs: Seq<JKv>, key: Seq<char>, alias: Seq<char>, j: int)
    requires
        0 <= j < fs.len(),
        fs[j].k == key || fs[j].k == alias,
        forall|i: int| 0 <= i < j ==> (#[trigger] fs[i]).k != key && fs[i].k != alias,
    ensures
        lookup2_spec(fs, key, alias) == Some(fs[j].v),
    decreases j,
{
    if j > 0 {
        let tail = fs.drop_first();
        assert(tail[j - 1] == fs[j]);
        assert(forall|i: int| 0 <= i < j - 1 ==> (#[trigger] tail[i]).k == fs[i + 1].k);
        lemma_lookup2_at(tail, key, alias, j - 1);
    }
}

/// If the key first appears at position `j`, lookup returns that pair's
/// value.
pub proof fn lemma_lookup_at(fs: Seq<JKv>, key: Seq<char>, j: int)
    requires
        0 <= j < fs.len(),
        fs[j].k == key,
        forall|i: int| 0 <= i < j ==> (#[trigger] fs[i]).k != key,
    ensures
        lookup_spec(fs, key) == Some(fs[j].v),
    decreases j,
{
    if j > 0 {
        let tail = fs.drop_first();
        assert(tail[j - 1] == fs[j]);
        assert(forall|i: int| 0 <= i < j - 1 ==> (#[trigger] tail[i]).k == fs[i + 1].k);
        lemma_lookup_at(tail, key, j - 1);
    }
}

// ---------------------------------------------------------------------------
// Arrays of typed elements: all-or-nothing extraction.
// ---------------------------------------------------------------------------
/// Extract every element of `items` with `f`; fail if any element fails.
pub open spec fn seq_extract<V>(items: Seq<JsonVal>, f: spec_fn(JsonVal) -> Option<V>) -> Option<
    Seq<V>,
>
    decreases items.len(),
{
    if items.len() == 0 {
        Option::Some(Seq::empty())
    } else {
        match f(items[0]) {
            Option::None => Option::None,
            Option::Some(x) => match seq_extract(items.drop_first(), f) {
                Option::None => Option::None,
                Option::Some(rest) => Option::Some(seq![x] + rest),
            },
        }
    }
}

pub proof fn lemma_views_of_push<T: View>(s: Seq<T>, x: T)
    ensures
        views_of(s.push(x)) == views_of(s).push(x@),
{
    assert(views_of(s.push(x)) =~= views_of(s).push(x@));
}

/// Extracting what was built element by element gives the elements back.
pub proof fn lemma_seq_extract_map<V>(
    ps: Seq<V>,
    g: spec_fn(V) -> JsonVal,
    f: spec_fn(JsonVal) -> Option<V>,
)
    requires
        forall|i: int| 0 <= i < ps.len() ==> f(g(#[trigger] ps[i])) == Some(ps[i]),
    ensures
        seq_extract(Seq::new(ps.len(), |i: int| g(ps[i])), f) == Some(ps),
    decreases ps.len(),
{
    let js = Seq::new(ps.len(), |i: int| g(ps[i]));
    if ps.len() == 0 {
        assert(Seq::<V>::empty() =~= ps);
    } else {
        let tail = ps.drop_first();
        assert(forall|i: int| 0 <= i < tail.len() ==> f(g(#[trigger] tail[i])) == Some(tail[i]));
        lemma_seq_extract_map(tail, g, f);
        assert(js.drop_first() =~= Seq::new(tail.len(), |i: int| g(tail[i])));
        assert(f(js[0]) == Some(ps[0]));
        assert(seq![ps[0]] + tail =~= ps);
    }
}

} // verus!
