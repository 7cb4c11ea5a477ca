//! The structured parameter values that travel with serialized nodes.
//!
//! Per-node parameters are opaque to the graph machinery and interpreted
//! only by the matching registry factory. This type is the library's data
//! model for them; turning it into JSON text and back is the business of an
//! outside text layer. A floating-point number is carried as its IEEE bit
//! pattern, which the text layer renders as a number.

use vstd::prelude::*;

verus! {

broadcast use vstd::std_specs::vec::group_vec_axioms, vstd::seq::group_seq_axioms;

/// A structured parameter value: the JSON data model over plain values.
#[derive(Debug)]
pub enum JsonValue {
    Null,
    Bool(bool),
    Num(u64),
    FloatBits(u32),
    Str(String),
    Arr(Vec<JsonValue>),
    Obj(Vec<(String, JsonValue)>),
}

/// The mathematical value of a [`JsonValue`].
pub enum JsonView {
    Null,
    Bool(bool),
    Num(u64),
    FloatBits(u32),
    Str(Seq<char>),
    Arr(Seq<JsonView>),
    Obj(Seq<(Seq<char>, JsonView)>),
}

/// The views of a list of values, in order.
pub open spec fn arr_views(items: Seq<JsonValue>) -> Seq<JsonView>
    decreases items,
{
    if items.len() == 0 {
        Seq::empty()
    } else {
        seq![items[0]@] + arr_views(items.drop_first())
    }
}

/// The views of a list of key-value pairs, in order.
pub open spec fn obj_views(pairs: Seq<(String, JsonValue)>) -> Seq<(Seq<char>, JsonView)>
    decreases pairs,
{
    if pairs.len() == 0 {
        Seq::empty()
    } else {
        seq![(pairs[0].0@, pairs[0].1@)] + obj_views(pairs.drop_first())
    }
}

impl View for JsonValue {
    type V = JsonView;

    open spec fn view(&self) -> JsonView
        decreases self,
    {
        match self {
            JsonValue::Null => JsonView::Null,
            JsonValue::Bool(b) => JsonView::Bool(*b),
            JsonValue::Num(n) => JsonView::Num(*n),
            JsonValue::FloatBits(f) => JsonView::FloatBits(*f),
            JsonValue::Str(s) => JsonView::Str(s@),
            JsonValue::Arr(items) => JsonView::Arr(arr_views(items@)),
            JsonValue::Obj(pairs) => JsonView::Obj(obj_views(pairs@)),
        }
    }
}

/// `arr_views` maps the list pointwise.
pub proof fn lemma_arr_views_index(items: Seq<JsonValue>)
    ensures
        arr_views(items).len() == items.len(),
        forall|i: int| 0 <= i < items.len() ==> arr_views(items)[i] == items[i]@,
    decreases items,
{
    if items.len() > 0 {
        assert(arr_views(items) == seq![items[0]@] + arr_views(items.drop_first()));
        assert(items.drop_first().len() == items.len() - 1);
        lemma_arr_views_index(items.drop_first());
        assert forall|i: int| 0 <= i < items.len()
            implies arr_views(items)[i] == items[i]@ by {
            if i > 0 {
                assert(items.drop_first()[i - 1] == items[i]);
            }
        }
    }
}

/// `obj_views` maps the pair list pointwise.
pub proof fn lemma_obj_views_index(pairs: Seq<(String, JsonValue)>)
    ensures
        obj_views(pairs).len() == pairs.len(),
        forall|i: int| 0 <= i < pairs.len()
            ==> obj_views(pairs)[i] == (pairs[i].0@, pairs[i].1@),
    decreases pairs,
{
    if pairs.len() > 0 {
        assert(obj_views(pairs) == seq![(pairs[0].0@, pairs[0].1@)] + obj_views(pairs.drop_first()));
        assert(pairs.drop_first().len() == pairs.len() - 1);
        lemma_obj_views_index(pairs.drop_first());
        assert forall|i: int| 0 <= i < pairs.len()
            implies obj_views(pairs)[i] == (pairs[i].0@, pairs[i].1@) by {
            if i > 0 {
                assert(pairs.drop_first()[i - 1] == pairs[i]);
            }
        }
    }
}

/// The value under the first pair with key `k`, if any.
pub open spec fn obj_lookup(pairs: Seq<(Seq<char>, JsonView)>, k: Seq<char>) -> Option<JsonView>
    decreases pairs.len(),
{
    if pairs.len() == 0 {
        None
    } else if pairs[0].0 == k {
        Some(pairs[0].1)
    } else {
        obj_lookup(pairs.drop_first(), k)
    }
}

impl JsonValue {
    /// Look `key` up in an object value; `None` for other values or for an
    /// absent key.
    pub fn obj_get(&self, key: &String) -> (r: Option<&JsonValue>)
        ensures
            match self@ {
                JsonView::Obj(pairs) => {
                    match r {
                        Some(v) => obj_lookup(pairs, key@) == Some(v@),
                        None => obj_lookup(pairs, key@) is None,
                    }
                },
                _ => r is None,
            },
    {
        match self {
            JsonValue::Obj(pairs) => {
                let ghost pview = obj_views(pairs@);
                let n = pairs.len();
                let mut i: usize = 0;
                proof {
                    lemma_obj_views_index(pairs@);
                    assert(self@ == JsonView::Obj(pview));
                    assert(pview.skip(0) =~= pview);
                }
                while i < n
                    invariant
                        i <= n,
                        n == pairs@.len(),
                        self@ == JsonView::Obj(pview),
                        pview.len() == n,
                        forall|j: int| 0 <= j < n ==> pview[j] == (pairs@[j].0@, pairs@[j].1@),
                        obj_lookup(pview, key@) == obj_lookup(pview.skip(i as int), key@),
                        forall|j: int| 0 <= j < i ==> pview[j].0 != key@,
                    decreases n - i,
                {
                    proof {
                        assert(pview.skip(i as int).len() > 0);
                        assert(pview.skip(i as int)[0] == pview[i as int]);
                    }
                    if pairs[i].0.eq(key) {
                        proof {
                            assert(obj_lookup(pview.skip(i as int), key@)
                                == Some(pview[i as int].1));
                        }
                        return Some(&pairs[i].1);
                    }
                    proof {
                        assert(pview.skip(i as int).drop_first()
                            =~= pview.skip(i as int + 1));
                    }
                    i = i + 1;
                }
                proof {
                    assert(pview.skip(n as int) =~= Seq::<(Seq<char>, JsonView)>::empty());
                }
                None
            }
            _ => None,
        }
    }

    /// The number carried by a `Num` value.
    pub fn as_num(&self) -> (r: Option<u64>)
        ensures
            match self@ {
                JsonView::Num(n) => r == Some(n),
                _ => r is None,
            },
    {
        match self {
            JsonValue::Num(n) => Some(*n),
            _ => None,
        }
    }

    /// The text carried by a `Str` value.
    pub fn as_str(&self) -> (r: Option<&String>)
        ensures
            match self@ {
                JsonView::Str(s) => r matches Some(v) && v@ == s,
                _ => r is None,
            },
    {
        match self {
            JsonValue::Str(s) => Some(s),
            _ => None,
        }
    }
}

} // verus!
