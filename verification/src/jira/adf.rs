//! Plain text of an Atlassian Document Format (ADF) tree.

use vstd::prelude::*;
use vstd::string::*;
use crate::json_doc::{
    JsonData, data_as_str, data_get, field_value, members, json_as_str, json_at, json_get,
    json_is_array, json_len,
};

verus! {

/// The text a node carries itself (its `text` member), or nothing.
pub open spec fn own_text(d: JsonData) -> Seq<char> {
    match data_as_str(data_get(d, "text"@)) {
        Some(t) => t,
        None => Seq::empty(),
    }
}

/// The child nodes of a node (the members of its `content` array).
pub open spec fn child_nodes(d: JsonData) -> Seq<JsonData> {
    members(data_get(d, "content"@))
}

/// A value found in an object's entries is smaller than the entries.
proof fn lemma_field_value_smaller(fields: Seq<(Seq<char>, JsonData)>, key: Seq<char>)
    ensures
        field_value(fields, key) is Array ==> exists|i: int|
            0 <= i < fields.len() && #[trigger] fields[i].1 == field_value(fields, key),
    decreases fields.len(),
{
    if fields.len() > 0 && fields[0].0 != key {
        let rest = fields.drop_first();
        lemma_field_value_smaller(rest, key);
        if field_value(rest, key) is Array {
            let i = choose|i: int| 0 <= i < rest.len() && #[trigger] rest[i].1 == field_value(rest, key);
            assert(fields[i + 1] == rest[i]);
        }
    }
}

/// Every child of a node is smaller than the node.
pub proof fn lemma_child_smaller(d: JsonData, j: int)
    requires
        0 <= j < child_nodes(d).len(),
    ensures
        decreases_to!(d => child_nodes(d)[j]),
{
    if let JsonData::Object(fields) = d {
        lemma_field_value_smaller(fields, "content"@);
        let i = choose|i: int| 0 <= i < fields.len() && #[trigger] fields[i].1 == field_value(fields, "content"@);
        let v = fields[i].1;
        if let JsonData::Array(items) = v {
            assert(decreases_to!(d => fields));
            assert(decreases_to!(fields => fields[i]));
            assert(decreases_to!(fields[i] => fields[i].1));
            assert(decreases_to!(v => items));
            assert(decreases_to!(items => items[j]));
        }
    }
}

/// The text of a node and of its subtree: its own text, then the text of
/// each child that has any, joined by single spaces.
pub open spec fn adf_text(d: JsonData) -> Seq<char>
    decreases d, child_nodes(d).len() + 1,
{
    adf_join(d, child_nodes(d).len() as int)
}

/// The text of a node with its first `n` children.
pub open spec fn adf_join(d: JsonData, n: int) -> Seq<char>
    decreases d, n,
{
    if n <= 0 || n > child_nodes(d).len() {
        own_text(d)
    } else {
        let prev = adf_join(d, n - 1);
        let t = {
            proof {
                lemma_child_smaller(d, n - 1);
            }
            adf_text(child_nodes(d)[n - 1])
        };
        if t.len() == 0 {
            prev
        } else if prev.len() == 0 {
            t
        } else {
            prev + seq![' '] + t
        }
    }
}

/// Recursively extract plain text from an Atlassian Document Format (ADF)
/// node.
pub fn extract_adf_text(node: &json::JsonValue) -> (r: String)
    ensures
        r@ == adf_text(crate::json_doc::json_data(*node)),
    decreases crate::json_doc::json_data(*node),
{
    let ghost d = crate::json_doc::json_data(*node);
    let mut text = match json_as_str(json_get(node, "text")) {
        Some(t) => String::from_str(t),
        None => String::new(),
    };
    assert(text@ == adf_join(d, 0));
    let content = json_get(node, "content");
    if !json_is_array(content) {
        assert(child_nodes(d).len() == 0);
        return text;
    }
    let n = json_len(content);
    let mut i: usize = 0;
    while i < n
        invariant
            d == crate::json_doc::json_data(*node),
            crate::json_doc::json_data(*content) == data_get(d, "content"@),
            crate::json_doc::json_data(*content) is Array,
            n == child_nodes(d).len(),
            i <= n,
            text@ == adf_join(d, i as int),
        decreases n - i,
    {
        let child = json_at(content, i);
        assert(crate::json_doc::json_data(*child) == child_nodes(d)[i as int]);
        proof {
            lemma_child_smaller(d, i as int);
        }
        let child_text = extract_adf_text(child);
        if !child_text.as_str().is_empty() {
            if !text.as_str().is_empty() {
                text.append(" ");
            }
            text.append(child_text.as_str());
        }
        proof {
            reveal_strlit(" ");
        }
        i = i + 1;
        assert(text@ =~= adf_join(d, i as int));
    }
    text
}

} // verus!
