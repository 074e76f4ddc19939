//! JSON documents as trees, and the ordering of their object keys.

use crate::sorting::{text_before_or_equal, text_le};
use crate::text::chars_of;
use vstd::prelude::*;

verus! {

/// A JSON document.  A number is held by its text.
#[derive(Debug)]
pub enum JsonTree {
    Null,
    Bool(bool),
    Number(String),
    Text(String),
    Array(Vec<JsonTree>),
    /// The members of an object, in their order.
    Object(Vec<(String, JsonTree)>),
}

/// What a `JsonTree` stands for.
pub enum TreeModel {
    Null,
    Bool(bool),
    Number(Seq<char>),
    Text(Seq<char>),
    Array(Seq<TreeModel>),
    Object(Seq<(Seq<char>, TreeModel)>),
}

/// A member of an object: its key and its value.
pub type Member = (Seq<char>, TreeModel);

impl JsonTree {
    /// The document as plain values.
    pub open spec fn model(&self) -> TreeModel
        decreases self,
    {
        match self {
            JsonTree::Null => TreeModel::Null,
            JsonTree::Bool(b) => TreeModel::Bool(*b),
            JsonTree::Number(n) => TreeModel::Number(n@),
            JsonTree::Text(t) => TreeModel::Text(t@),
            JsonTree::Array(items) => TreeModel::Array(
                Seq::new(
                    items@.len(),
                    |i: int|
                        if 0 <= i < items@.len() {
                            items@[i].model()
                        } else {
                            TreeModel::Null
                        },
                ),
            ),
            JsonTree::Object(members) => TreeModel::Object(
                Seq::new(
                    members@.len(),
                    |i: int|
                        if 0 <= i < members@.len() {
                            (members@[i].0@, members@[i].1.model())
                        } else {
                            (Seq::empty(), TreeModel::Null)
                        },
                ),
            ),
        }
    }
}

/// The members as plain values.
pub open spec fn member_models(members: Seq<(String, JsonTree)>) -> Seq<Member> {
    Seq::new(members.len(), |i: int| (members[i].0@, members[i].1.model()))
}

/// Where a member of that key is put into members that are in the order of
/// their keys: behind the members whose keys do not come after it.
pub open spec fn insertion_point(sorted: Seq<Member>, key: Seq<char>, from: int) -> int
    decreases sorted.len() - from,
{
    if from < 0 || from >= sorted.len() {
        sorted.len() as int
    } else if !text_le(sorted[from].0, key) {
        from
    } else {
        insertion_point(sorted, key, from + 1)
    }
}

/// The members in the order of their keys; members of the same key keep
/// their order.
pub open spec fn members_sorted(members: Seq<Member>) -> Seq<Member>
    decreases members.len(),
{
    if members.len() == 0 {
        Seq::empty()
    } else {
        let rest = members_sorted(members.drop_last());
        rest.insert(insertion_point(rest, members.last().0, 0), members.last())
    }
}

/// The document with the members of every object in the order of their
/// keys.
pub open spec fn sorted_model(m: TreeModel) -> TreeModel
    decreases m,
{
    match m {
        TreeModel::Array(items) => TreeModel::Array(
            Seq::new(
                items.len(),
                |i: int|
                    if 0 <= i < items.len() {
                        sorted_model(items[i])
                    } else {
                        TreeModel::Null
                    },
            ),
        ),
        TreeModel::Object(members) => TreeModel::Object(members_sorted(members_within(members))),
        _ => m,
    }
}

/// The members, each with its value sorted within.
pub open spec fn members_within(members: Seq<Member>) -> Seq<Member>
    decreases members,
{
    Seq::new(
        members.len(),
        |i: int|
            if 0 <= i < members.len() {
                (members[i].0, sorted_model(members[i].1))
            } else {
                (Seq::empty(), TreeModel::Null)
            },
    )
}

/// The insertion point lies behind all members whose keys do not come after
/// the key, and before a member whose key does.
pub proof fn lemma_insertion_point(sorted: Seq<Member>, key: Seq<char>, from: int)
    requires
        0 <= from <= sorted.len(),
    ensures
        from <= insertion_point(sorted, key, from) <= sorted.len(),
        forall|k: int|
            from <= k < insertion_point(sorted, key, from) ==> text_le(
                (#[trigger] sorted[k]).0,
                key,
            ),
        insertion_point(sorted, key, from) < sorted.len() ==> !text_le(
            sorted[insertion_point(sorted, key, from)].0,
            key,
        ),
    decreases sorted.len() - from,
{
    if from < sorted.len() && text_le(sorted[from].0, key) {
        lemma_insertion_point(sorted, key, from + 1);
    }
}

/// The keys stand in ascending order.
pub open spec fn keys_ascend(members: Seq<Member>) -> bool {
    forall|i: int, j: int| 0 <= i < j < members.len() ==> text_le(members[i].0, members[j].0)
}

/// Sorting the members puts their keys in ascending order and keeps every
/// member, as often as it stood there.
pub proof fn lemma_members_sorted(members: Seq<Member>)
    ensures
        keys_ascend(members_sorted(members)),
        members_sorted(members).to_multiset() == members.to_multiset(),
        members_sorted(members).len() == members.len(),
    decreases members.len(),
{
    if members.len() > 0 {
        let front = members.drop_last();
        lemma_members_sorted(front);
        let rest = members_sorted(front);
        let x = members.last();
        let j = insertion_point(rest, x.0, 0);
        lemma_insertion_point(rest, x.0, 0);
        let after = rest.insert(j, x);
        vstd::seq_lib::to_multiset_insert(rest, j, x);
        assert(members =~= front.push(x));
        vstd::seq_lib::to_multiset_build(front, x);
        assert forall|p: int, q: int| 0 <= p < q < after.len() implies text_le(
            after[p].0,
            after[q].0,
        ) by {
            if q < j {
                assert(after[p] == rest[p] && after[q] == rest[q]);
            } else if q == j {
                assert(after[p] == rest[p]);
            } else if p == j {
                assert(after[q] == rest[q - 1]);
                crate::sorting::lemma_text_le_total(rest[j].0, x.0);
                if q - 1 > j {
                    assert(text_le(rest[j].0, rest[q - 1].0));
                    crate::sorting::lemma_text_le_transitive(x.0, rest[j].0, rest[q - 1].0);
                }
            } else if p < j {
                assert(after[p] == rest[p] && after[q] == rest[q - 1]);
            } else {
                assert(after[p] == rest[p - 1] && after[q] == rest[q - 1]);
            }
        }
    } else {
        assert(members =~= Seq::<Member>::empty());
    }
}

/// A copy of the document.
pub fn copy_tree(value: &JsonTree) -> (r: JsonTree)
    ensures
        r.model() == value.model(),
    decreases value,
{
    match value {
        JsonTree::Null => JsonTree::Null,
        JsonTree::Bool(b) => JsonTree::Bool(*b),
        JsonTree::Number(n) => JsonTree::Number(n.clone()),
        JsonTree::Text(t) => JsonTree::Text(t.clone()),
        JsonTree::Array(items) => {
            let mut out: Vec<JsonTree> = Vec::new();
            let mut i: usize = 0;
            assert(decreases_to!(value => items));
            while i < items.len()
                invariant
                    i <= items.len(),
                    decreases_to!(value => items),
                    out.len() == i,
                    forall|k: int| 0 <= k < i ==> out[k].model() == items[k].model(),
                decreases items.len() - i,
            {
                assert(decreases_to!(items => items[i as int]));
                out.push(copy_tree(&items[i]));
                i += 1;
            }
            let r = JsonTree::Array(out);
            assert(r.model() =~= value.model()) by {
                assert(r.model()->Array_0 =~= value.model()->Array_0);
            }
            r
        },
        JsonTree::Object(members) => {
            let mut out: Vec<(String, JsonTree)> = Vec::new();
            let mut i: usize = 0;
            assert(decreases_to!(value => members));
            while i < members.len()
                invariant
                    i <= members.len(),
                    decreases_to!(value => members),
                    out.len() == i,
                    forall|k: int|
                        0 <= k < i ==> out[k].0@ == members[k].0@ && out[k].1.model()
                            == members[k].1.model(),
                decreases members.len() - i,
            {
                assert(decreases_to!(members => members[i as int]));
                assert(decreases_to!(members[i as int] => members[i as int].1));
                let v = copy_tree(&members[i].1);
                out.push((members[i].0.clone(), v));
                i += 1;
            }
            let r = JsonTree::Object(out);
            assert(r.model() =~= value.model()) by {
                assert(r.model()->Object_0 =~= value.model()->Object_0);
            }
            r
        },
    }
}

/// Puts the members of every object of the document in the order of their
/// keys.
pub fn sort_json_object(value: &JsonTree) -> (r: JsonTree)
    ensures
        r.model() == sorted_model(value.model()),
    decreases value,
{
    match value {
        JsonTree::Array(items) => {
            let mut out: Vec<JsonTree> = Vec::new();
            let mut i: usize = 0;
            assert(decreases_to!(value => items));
            while i < items.len()
                invariant
                    i <= items.len(),
                    decreases_to!(value => items),
                    out.len() == i,
                    forall|k: int| 0 <= k < i ==> out[k].model() == sorted_model(items[k].model()),
                decreases items.len() - i,
            {
                assert(decreases_to!(items => items[i as int]));
                out.push(sort_json_object(&items[i]));
                i += 1;
            }
            let r = JsonTree::Array(out);
            assert(r.model() =~= sorted_model(value.model())) by {
                assert(r.model()->Array_0 =~= sorted_model(value.model())->Array_0);
            }
            r
        },
        JsonTree::Object(members) => {
            let ghost mapped = Seq::new(
                members@.len(),
                |k: int| (members@[k].0@, sorted_model(members@[k].1.model())),
            );
            let mut out: Vec<(String, JsonTree)> = Vec::new();
            let mut i: usize = 0;
            assert(decreases_to!(value => members));
            proof {
                assert(mapped.take(0) =~= Seq::<Member>::empty());
                assert(member_models(out@) =~= Seq::<Member>::empty());
            }
            while i < members.len()
                invariant
                    i <= members.len(),
                    decreases_to!(value => members),
                    mapped == Seq::new(
                        members@.len(),
                        |k: int| (members@[k].0@, sorted_model(members@[k].1.model())),
                    ),
                    member_models(out@) == members_sorted(mapped.take(i as int)),
                decreases members.len() - i,
            {
                assert(decreases_to!(members => members[i as int]));
                assert(decreases_to!(members[i as int] => members[i as int].1));
                let v = sort_json_object(&members[i].1);
                let key = members[i].0.clone();
                let key_chars = chars_of(key.as_str());
                let ghost rest = member_models(out@);
                let mut j: usize = 0;
                while j < out.len() && text_before_or_equal(&chars_of(out[j].0.as_str()), &key_chars)
                    invariant
                        j <= out.len(),
                        key_chars@ == key@,
                        rest == member_models(out@),
                        insertion_point(rest, key@, 0) == insertion_point(rest, key@, j as int),
                    decreases out.len() - j,
                {
                    j += 1;
                }
                out.insert(j, (key, v));
                proof {
                    let x = (key@, v.model());
                    assert(mapped.take(i + 1).drop_last() == mapped.take(i as int));
                    assert(mapped.take(i + 1).last() == x);
                    assert(member_models(out@) =~= rest.insert(j as int, x));
                }
                i += 1;
            }
            let r = JsonTree::Object(out);
            proof {
                assert(mapped.take(members@.len() as int) == mapped);
                assert(members_within(value.model()->Object_0) =~= mapped);
                assert(r.model()->Object_0 =~= member_models(out@));
            }
            r
        },
        _ => copy_tree(value),
    }
}

} // verus!
