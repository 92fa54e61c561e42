//! What the code generator decides about the nodes of the parser's schema:
//! which of them get a generated accessor for their source location, and
//! whether a node has a location of its own.

use vstd::prelude::*;
use vstd::string::StringExecFns;

verus! {

/// The type of a field, as far as locations are concerned.
#[derive(Clone, Copy, Debug, PartialEq, Eq, Structural)]
pub enum FieldType {
    Int32,
    /// Every other type.
    Other,
}

/// A field of a node of the schema.
#[derive(Debug, PartialEq, Eq)]
pub struct Field {
    pub name: String,
    pub field_type: FieldType,
}

/// A node of the schema.
#[derive(Debug, PartialEq, Eq)]
pub struct Node {
    pub name: String,
    pub fields: Vec<Field>,
}

/// The nodes whose location lies behind that of their children, and whose
/// accessor is therefore written by hand.
pub fn manual_node_names() -> (names: Vec<&'static str>)
    ensures
        name_views(names@) == seq!["BoolExpr"@, "AExpr"@],
{
    let mut names: Vec<&'static str> = Vec::new();
    names.push("BoolExpr");
    names.push("AExpr");
    assert(name_views(names@) =~= seq!["BoolExpr"@, "AExpr"@]);
    names
}

/// The names as sequences of characters.
pub open spec fn name_views(names: Seq<&str>) -> Seq<Seq<char>> {
    names.map_values(|name: &str| name@)
}

/// The node is not among the excluded ones.
pub open spec fn generated(exclude: Seq<Seq<char>>) -> spec_fn(Node) -> bool {
    |node: Node| !exclude.contains(node.name@)
}

/// The node has a field `location` of type `Int32`.
pub open spec fn located(node: Node) -> bool {
    exists|i: int|
        0 <= i < node.fields@.len() && (#[trigger] node.fields@[i]).name@ == "location"@
            && node.fields@[i].field_type is Int32
}

fn is_excluded(name: &String, exclude: &Vec<&str>) -> (b: bool)
    ensures
        b == name_views(exclude@).contains(name@),
{
    let ghost names = name_views(exclude@);
    let mut i: usize = 0;
    while i < exclude.len()
        invariant
            i <= exclude.len(),
            names == name_views(exclude@),
            forall|k: int| 0 <= k < i ==> names[k] != name@,
        decreases exclude.len() - i,
    {
        let other = String::from_str(exclude[i]);
        if *name == other {
            assert(names[i as int] == name@);
            return true;
        }
        i += 1;
    }
    false
}

/// Whether the node has a location of its own.
pub fn has_location(node: &Node) -> (b: bool)
    ensures
        b == located(*node),
{
    let location = String::from_str("location");
    let mut i: usize = 0;
    while i < node.fields.len()
        invariant
            i <= node.fields.len(),
            location@ == "location"@,
            forall|k: int|
                0 <= k < i ==> !((#[trigger] node.fields@[k]).name@ == "location"@
                    && node.fields@[k].field_type is Int32),
        decreases node.fields.len() - i,
    {
        let field = &node.fields[i];
        if field.name == location && field.field_type == FieldType::Int32 {
            return true;
        }
        i += 1;
    }
    false
}

/// The names of the nodes that get a generated accessor: all but the
/// excluded ones, in the order of the schema.
pub fn node_identifiers(nodes: &Vec<Node>, exclude: &Vec<&str>) -> (names: Vec<String>)
    ensures
        names@.map_values(|name: String| name@) == nodes@.filter(
            generated(name_views(exclude@)),
        ).map_values(|node: Node| node.name@),
{
    let ghost keep = generated(name_views(exclude@));
    let mut names: Vec<String> = Vec::new();
    let mut i: usize = 0;
    proof {
        reveal(Seq::filter);
        assert(nodes@.take(0).filter(keep) =~= Seq::<Node>::empty());
        assert(names@.map_values(|name: String| name@) =~= nodes@.take(0).filter(keep).map_values(
            |node: Node| node.name@,
        ));
    }
    while i < nodes.len()
        invariant
            i <= nodes.len(),
            keep == generated(name_views(exclude@)),
            names@.map_values(|name: String| name@) == nodes@.take(i as int).filter(keep).map_values(
                |node: Node| node.name@,
            ),
        decreases nodes.len() - i,
    {
        let ghost before = nodes@.take(i as int).filter(keep);
        let ghost old_names = names@;
        proof {
            reveal(Seq::filter);
            assert(nodes@.take(i + 1).drop_last() =~= nodes@.take(i as int));
        }
        if !is_excluded(&nodes[i].name, exclude) {
            names.push(nodes[i].name.clone());
            proof {
                assert(nodes@.take(i + 1).filter(keep) == before.push(nodes@[i as int]));
                let was = old_names.map_values(|name: String| name@);
                let now = names@.map_values(|name: String| name@);
                let kept = before.push(nodes@[i as int]).map_values(|node: Node| node.name@);
                assert(was == before.map_values(|node: Node| node.name@));
                assert(was.len() == old_names.len());
                assert(was.len() == before.len());
                assert(names@.len() == old_names.len() + 1);
                assert(now.len() == kept.len());
                assert forall|k: int| 0 <= k < now.len() implies now[k] == kept[k] by {
                    if k < was.len() {
                        assert(now[k] == was[k]);
                    }
                }
                assert(now =~= kept);
            }
        }
        i += 1;
    }
    assert(nodes@.take(nodes.len() as int) =~= nodes@);
    names
}

/// For each node that gets a generated accessor, in the order of the
/// schema, whether the accessor has a location to return.
pub fn location_idents(nodes: &Vec<Node>, exclude: &Vec<&str>) -> (located_flags: Vec<bool>)
    ensures
        located_flags@ == nodes@.filter(generated(name_views(exclude@))).map_values(
            |node: Node| located(node),
        ),
{
    let ghost keep = generated(name_views(exclude@));
    let mut flags: Vec<bool> = Vec::new();
    let mut i: usize = 0;
    proof {
        reveal(Seq::filter);
        assert(nodes@.take(0).filter(keep) =~= Seq::<Node>::empty());
        assert(flags@ =~= nodes@.take(0).filter(keep).map_values(|node: Node| located(node)));
    }
    while i < nodes.len()
        invariant
            i <= nodes.len(),
            keep == generated(name_views(exclude@)),
            flags@ == nodes@.take(i as int).filter(keep).map_values(|node: Node| located(node)),
        decreases nodes.len() - i,
    {
        let ghost before = nodes@.take(i as int).filter(keep);
        proof {
            reveal(Seq::filter);
            assert(nodes@.take(i + 1).drop_last() =~= nodes@.take(i as int));
        }
        if !is_excluded(&nodes[i].name, exclude) {
            flags.push(has_location(&nodes[i]));
            proof {
                assert(nodes@.take(i + 1).filter(keep) == before.push(nodes@[i as int]));
                assert(flags@ =~= before.push(nodes@[i as int]).map_values(
                    |node: Node| located(node),
                ));
            }
        }
        i += 1;
    }
    assert(nodes@.take(nodes.len() as int) =~= nodes@);
    flags
}

} // verus!
