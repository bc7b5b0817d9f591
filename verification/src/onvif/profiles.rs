//! Reading the camera's lists of profiles and presets.

use vstd::prelude::*;
use vstd::string::StringExecFns;
use crate::onvif::models::{Named, OnvifPreset, OnvifProfile};
use crate::onvif::service::OnvifError;
use crate::outside::{nodes_view, parse_xml, xml_nodes, XmlNode, XmlNodeView};
use crate::text::{is_space, law_trimmed_empty, trim, trimmed};

verus! {

/// The token of a node, without white space around it.
pub open spec fn node_token(node: XmlNodeView) -> Seq<char> {
    match node.attribute {
        Some(token) => trimmed(token),
        None => Seq::empty(),
    }
}

/// End of the part of the document that the node at index `i` is the root of.
pub open spec fn subtree_end(nodes: Seq<XmlNodeView>, i: int) -> int {
    if i + nodes[i].subtree < nodes.len() {
        i + nodes[i].subtree
    } else {
        nodes.len() as int
    }
}

/// Index of the first node from `from` up to `to` that is called `Name`.
pub open spec fn first_name(nodes: Seq<XmlNodeView>, from: int, to: int) -> Option<int>
    decreases to - from,
{
    if from >= to {
        None
    } else if nodes[from].name == "Name"@ {
        Some(from)
    } else {
        first_name(nodes, from + 1, to)
    }
}

/// The name that stands in the part of the document that the node at index `i` is
/// the root of, without white space around it; empty if there is none.
pub open spec fn node_label(nodes: Seq<XmlNodeView>, i: int) -> Seq<char> {
    match first_name(nodes, i, subtree_end(nodes, i)) {
        Some(j) => match nodes[j].text {
            Some(text) => trimmed(text),
            None => Seq::empty(),
        },
        None => Seq::empty(),
    }
}

/// The node at index `i` is one of the entries that are asked for: it is called
/// `kind` and has a token.
pub open spec fn is_entry(nodes: Seq<XmlNodeView>, kind: Seq<char>, i: int) -> bool {
    nodes[i].name == kind && node_token(nodes[i]).len() > 0
}

/// The entries among the first `n` nodes, in document order.
pub open spec fn entries(nodes: Seq<XmlNodeView>, kind: Seq<char>, n: int) -> Seq<Named>
    decreases n,
{
    if n <= 0 {
        Seq::empty()
    } else {
        let before = entries(nodes, kind, n - 1);
        if is_entry(nodes, kind, n - 1) {
            before.push(
                Named { token: node_token(nodes[n - 1]), name: node_label(nodes, n - 1) },
            )
        } else {
            before
        }
    }
}

/// The entries of a document.
pub open spec fn listed(nodes: Seq<XmlNodeView>, kind: Seq<char>) -> Seq<Named> {
    entries(nodes, kind, nodes.len() as int)
}

/// The text without white space around it; empty if there is none.
fn trimmed_or_empty(text: &Option<String>) -> (out: String)
    ensures
        out@ == match *text {
            Some(s) => trimmed(s@),
            None => Seq::empty(),
        },
{
    match text {
        Some(s) => trim(s.as_str()),
        None => String::new(),
    }
}

/// The name that stands below a node.
fn label_of(nodes: &Vec<XmlNode>, i: usize) -> (label: String)
    requires
        i < nodes@.len(),
    ensures
        label@ == node_label(nodes_view(nodes@), i as int),
{
    let ghost all = nodes_view(nodes@);
    let len = nodes.len();
    let size = nodes[i].subtree;
    let end: usize = if size < len - i {
        i + size
    } else {
        len
    };
    assert(end == subtree_end(all, i as int));
    let mut j: usize = i;
    while j < end
        invariant
            all == nodes_view(nodes@),
            len == nodes@.len(),
            i <= j,
            end <= len,
            first_name(all, i as int, end as int) == first_name(all, j as int, end as int),
            end == subtree_end(all, i as int),
        decreases end - j,
    {
        assert(all[j as int] == nodes@[j as int]@);
        if nodes[j].name == "Name".to_owned() {
            return trimmed_or_empty(&nodes[j].text);
        }
        j += 1;
    }
    String::new()
}

/// What is known of the tokens and labels of the entries.
pub open spec fn pairs_view(pairs: Seq<(String, String)>) -> Seq<Named> {
    pairs.map_values(|pair: (String, String)| Named { token: pair.0@, name: pair.1@ })
}

/// Tokens and labels of the entries of a document, in document order.
pub fn list_entries(nodes: &Vec<XmlNode>, kind: &str) -> (pairs: Vec<(String, String)>)
    ensures
        pairs_view(pairs@) == listed(nodes_view(nodes@), kind@),
{
    let ghost all = nodes_view(nodes@);
    let wanted = kind.to_owned();
    let len = nodes.len();
    let mut pairs: Vec<(String, String)> = Vec::new();
    let mut i: usize = 0;
    assert(pairs_view(pairs@) =~= Seq::empty());
    while i < len
        invariant
            all == nodes_view(nodes@),
            len == nodes@.len(),
            wanted@ == kind@,
            i <= len,
            pairs_view(pairs@) == entries(all, kind@, i as int),
        decreases len - i,
    {
        assert(all[i as int] == nodes@[i as int]@);
        let ghost before = pairs_view(pairs@);
        if nodes[i].name == wanted {
            let token = trimmed_or_empty(&nodes[i].attribute);
            if !token.as_str().is_empty() {
                let label = label_of(nodes, i);
                let ghost entry = Named { token: token@, name: label@ };
                pairs.push((token, label));
                assert(pairs_view(pairs@) =~= before.push(entry));
            }
        }
        i += 1;
    }
    pairs
}

/// The profiles of a document.
pub fn profiles_in(nodes: &Vec<XmlNode>) -> (profiles: Vec<OnvifProfile>)
    ensures
        profiles@.map_values(|p: OnvifProfile| p@) == listed(nodes_view(nodes@), "Profiles"@),
{
    let pairs = list_entries(nodes, "Profiles");
    let ghost goal = pairs_view(pairs@);
    let mut profiles: Vec<OnvifProfile> = Vec::new();
    let len = pairs.len();
    let mut i: usize = 0;
    while i < len
        invariant
            len == pairs@.len(),
            i <= len,
            goal == pairs_view(pairs@),
            profiles@.len() == i,
            forall|j: int| 0 <= j < i ==> (#[trigger] profiles@[j])@ == goal[j],
        decreases len - i,
    {
        let pair = &pairs[i];
        profiles.push(OnvifProfile { token: pair.0.clone(), name: pair.1.clone() });
        i += 1;
    }
    assert(profiles@.map_values(|p: OnvifProfile| p@) =~= goal);
    profiles
}

/// The presets of a document.
pub fn presets_in(nodes: &Vec<XmlNode>) -> (presets: Vec<OnvifPreset>)
    ensures
        presets@.map_values(|p: OnvifPreset| p@) == listed(nodes_view(nodes@), "Preset"@),
{
    let pairs = list_entries(nodes, "Preset");
    let ghost goal = pairs_view(pairs@);
    let mut presets: Vec<OnvifPreset> = Vec::new();
    let len = pairs.len();
    let mut i: usize = 0;
    while i < len
        invariant
            len == pairs@.len(),
            i <= len,
            goal == pairs_view(pairs@),
            presets@.len() == i,
            forall|j: int| 0 <= j < i ==> (#[trigger] presets@[j])@ == goal[j],
        decreases len - i,
    {
        let pair = &pairs[i];
        presets.push(OnvifPreset { token: pair.0.clone(), name: pair.1.clone() });
        i += 1;
    }
    assert(presets@.map_values(|p: OnvifPreset| p@) =~= goal);
    presets
}

/// Reads the camera's answer to the question for its profiles.
pub fn parse_profiles_response(xml: &str) -> (outcome: Result<Vec<OnvifProfile>, OnvifError>)
    ensures
        match xml_nodes(xml@, "token"@) {
            Ok(nodes) => outcome matches Ok(list) && list@.map_values(|p: OnvifProfile| p@)
                == listed(nodes, "Profiles"@),
            Err(reason) => outcome matches Err(OnvifError::Upstream(message)) && message@
                == "failed to parse ONVIF profile XML: "@ + reason,
        },
{
    match parse_xml(xml, "token") {
        Ok(nodes) => Ok(profiles_in(&nodes)),
        Err(reason) => {
            let mut message = "failed to parse ONVIF profile XML: ".to_owned();
            message.append(reason.as_str());
            Err(OnvifError::Upstream(message))
        },
    }
}

/// Reads the camera's answer to the question for its presets.
pub fn parse_presets_response(xml: &str) -> (outcome: Result<Vec<OnvifPreset>, OnvifError>)
    ensures
        match xml_nodes(xml@, "token"@) {
            Ok(nodes) => outcome matches Ok(list) && list@.map_values(|p: OnvifPreset| p@)
                == listed(nodes, "Preset"@),
            Err(reason) => outcome matches Err(OnvifError::Upstream(message)) && message@
                == "failed to parse ONVIF presets XML: "@ + reason,
        },
{
    match parse_xml(xml, "token") {
        Ok(nodes) => Ok(presets_in(&nodes)),
        Err(reason) => {
            let mut message = "failed to parse ONVIF presets XML: ".to_owned();
            message.append(reason.as_str());
            Err(OnvifError::Upstream(message))
        },
    }
}

/// Every entry that is listed has a token.
pub proof fn law_listed_entries_have_tokens(nodes: Seq<XmlNodeView>, kind: Seq<char>, n: int)
    ensures
        forall|k: int|
            0 <= k < entries(nodes, kind, n).len() ==> (#[trigger] entries(
                nodes,
                kind,
                n,
            )[k]).token.len() > 0,
        entries(nodes, kind, n).len() <= if n < 0 {
            0
        } else {
            n
        },
    decreases n,
{
    if n > 0 {
        law_listed_entries_have_tokens(nodes, kind, n - 1);
    }
}

/// Every node that is called `kind` and has a token is listed.
pub proof fn law_no_entry_is_lost(nodes: Seq<XmlNodeView>, kind: Seq<char>, n: int, i: int)
    requires
        0 <= i < n,
        is_entry(nodes, kind, i),
    ensures
        entries(nodes, kind, n).contains(
            Named { token: node_token(nodes[i]), name: node_label(nodes, i) },
        ),
    decreases n,
{
    let entry = Named { token: node_token(nodes[i]), name: node_label(nodes, i) };
    let all = entries(nodes, kind, n);
    if i == n - 1 {
        assert(all[all.len() - 1] == entry);
    } else {
        law_no_entry_is_lost(nodes, kind, n - 1, i);
        let before = entries(nodes, kind, n - 1);
        let k = choose|k: int| 0 <= k < before.len() && before[k] == entry;
        assert(all[k] == entry);
    }
}

/// The label of a node is the trimmed text of the first node called `Name` in its own part of
/// the document, the node itself included, and of no other; if there is no such node, or it has
/// no text, the label is empty.
pub proof fn law_label_is_the_first_name(nodes: Seq<XmlNodeView>, i: int, j: int)
    requires
        0 <= i <= j < nodes.len(),
        j < i + nodes[i].subtree,
        nodes[j].name == "Name"@,
        forall|k: int| i <= k < j ==> (#[trigger] nodes[k]).name != "Name"@,
    ensures
        nodes[j].text is Some ==> node_label(nodes, i) == trimmed(nodes[j].text->0),
        nodes[j].text is None ==> node_label(nodes, i).len() == 0,
{
    lemma_first_name(nodes, i, subtree_end(nodes, i), j);
}

/// A node in whose own part of the document no node is called `Name` has an empty label,
/// whatever stands elsewhere.
pub proof fn law_label_without_a_name(nodes: Seq<XmlNodeView>, i: int)
    requires
        0 <= i < nodes.len(),
        forall|k: int|
            i <= k < nodes.len() && k < i + nodes[i].subtree ==> (#[trigger] nodes[k]).name
                != "Name"@,
    ensures
        node_label(nodes, i).len() == 0,
{
    lemma_no_first_name(nodes, i, subtree_end(nodes, i));
}

proof fn lemma_first_name(nodes: Seq<XmlNodeView>, from: int, to: int, j: int)
    requires
        from <= j < to,
        nodes[j].name == "Name"@,
        forall|k: int| from <= k < j ==> (#[trigger] nodes[k]).name != "Name"@,
    ensures
        first_name(nodes, from, to) == Some(j),
    decreases to - from,
{
    if from < j {
        assert(nodes[from].name != "Name"@);
        lemma_first_name(nodes, from + 1, to, j);
    }
}

proof fn lemma_no_first_name(nodes: Seq<XmlNodeView>, from: int, to: int)
    requires
        forall|k: int| from <= k < to ==> (#[trigger] nodes[k]).name != "Name"@,
    ensures
        first_name(nodes, from, to) is None,
    decreases to - from,
{
    if from < to {
        assert(nodes[from].name != "Name"@);
        lemma_no_first_name(nodes, from + 1, to);
    }
}

/// A node is an entry exactly if it has the name that is asked for and an attribute that holds
/// more than white space; its token is that attribute without the white space around it.
pub proof fn law_entry_has_a_token(nodes: Seq<XmlNodeView>, kind: Seq<char>, i: int)
    ensures
        is_entry(nodes, kind, i) <==> nodes[i].name == kind && nodes[i].attribute is Some && exists|
            k: int,
        | 0 <= k < nodes[i].attribute->0.len() && !is_space(#[trigger] nodes[i].attribute->0[k]),
        nodes[i].attribute is Some ==> node_token(nodes[i]) == trimmed(nodes[i].attribute->0),
{
    if nodes[i].attribute is Some {
        law_trimmed_empty(nodes[i].attribute->0);
    }
}

/// The entries stand in the order of the document: each at the place that is the number of
/// entries before it, with its own token and label; and a node that is no entry adds none.
pub proof fn law_entries_are_in_order(nodes: Seq<XmlNodeView>, kind: Seq<char>, n: int, i: int)
    requires
        0 <= i < n,
    ensures
        entries(nodes, kind, 0).len() == 0,
        is_entry(nodes, kind, i) ==> {
            let place = entries(nodes, kind, i).len() as int;
            &&& place < entries(nodes, kind, n).len()
            &&& entries(nodes, kind, n)[place].token == node_token(nodes[i])
            &&& entries(nodes, kind, n)[place].name == node_label(nodes, i)
            &&& entries(nodes, kind, i + 1).len() == place + 1
        },
        !is_entry(nodes, kind, i) ==> entries(nodes, kind, i + 1) == entries(nodes, kind, i),
        entries(nodes, kind, i).is_prefix_of(entries(nodes, kind, n)),
    decreases n,
{
    if i < n - 1 {
        law_entries_are_in_order(nodes, kind, n - 1, i);
    }
}

/// All entries of a document are listed, and as many as there are nodes that are entries.
pub proof fn law_all_entries_are_listed(nodes: Seq<XmlNodeView>, kind: Seq<char>, i: int)
    requires
        0 <= i < nodes.len(),
        is_entry(nodes, kind, i),
    ensures
        listed(nodes, kind).contains(
            Named { token: node_token(nodes[i]), name: node_label(nodes, i) },
        ),
        entries(nodes, kind, i + 1).is_prefix_of(listed(nodes, kind)),
{
    law_no_entry_is_lost(nodes, kind, nodes.len() as int, i);
    if i + 1 < nodes.len() {
        law_entries_are_in_order(nodes, kind, nodes.len() as int, i + 1);
    }
}

} // verus!
