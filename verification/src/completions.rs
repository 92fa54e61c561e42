//! What a completion needs to know about the place of the cursor in a
//! syntax tree: the clause around it, the schema named before it and
//! whether it stands in an invocation.
//!
//! The tree is walked from the root towards the cursor by whoever holds it;
//! this module decides what each node on the way means.

use vstd::prelude::*;
use vstd::std_specs::convert::TryFromSpecImpl;
use vstd::string::{StrSliceExecFns, StringExecFns};

verus! {

/// The clause that wraps the cursor.
#[derive(Clone, Copy, Debug, PartialEq, Eq, Structural)]
pub enum ClauseType {
    Select,
    Where,
    From,
    Update,
    Delete,
}

/// The clause that a node kind names, if it names one.
pub open spec fn clause_named(kind: Seq<char>) -> Option<ClauseType> {
    if kind == "select"@ {
        Some(ClauseType::Select)
    } else if kind == "where"@ {
        Some(ClauseType::Where)
    } else if kind == "from"@ {
        Some(ClauseType::From)
    } else if kind == "update"@ {
        Some(ClauseType::Update)
    } else if kind == "delete"@ {
        Some(ClauseType::Delete)
    } else {
        None
    }
}

/// `res` is the clause that `kind` names, or the complaint that it names none.
pub open spec fn names_clause(kind: Seq<char>, res: Result<ClauseType, String>) -> bool {
    match clause_named(kind) {
        Some(clause) => res == Ok::<ClauseType, String>(clause),
        None => res matches Err(message) && message@ == "Unimplemented ClauseType: "@ + kind,
    }
}

fn same(a: &str, b: &str) -> (eq: bool)
    ensures
        eq == (a@ == b@),
{
    let a = String::from_str(a);
    let b = String::from_str(b);
    a == b
}

impl TryFrom<&str> for ClauseType {
    type Error = String;

    fn try_from(value: &str) -> (res: Result<Self, String>)
        ensures
            names_clause(value@, res),
    {
        if same(value, "select") {
            Ok(ClauseType::Select)
        } else if same(value, "where") {
            Ok(ClauseType::Where)
        } else if same(value, "from") {
            Ok(ClauseType::From)
        } else if same(value, "update") {
            Ok(ClauseType::Update)
        } else if same(value, "delete") {
            Ok(ClauseType::Delete)
        } else {
            let mut message = String::from_str("Unimplemented ClauseType: ");
            message.append(value);
            Err(message)
        }
    }
}

impl TryFromSpecImpl<&str> for ClauseType {
    open spec fn obeys_try_from_spec() -> bool {
        false
    }

    open spec fn try_from_spec(value: &str) -> Result<Self, String> {
        arbitrary()
    }
}

impl TryFrom<String> for ClauseType {
    type Error = String;

    fn try_from(value: String) -> (res: Result<Self, String>)
        ensures
            names_clause(value@, res),
    {
        ClauseType::try_from(value.as_str())
    }
}

impl TryFromSpecImpl<String> for ClauseType {
    open spec fn obeys_try_from_spec() -> bool {
        false
    }

    open spec fn try_from_spec(value: String) -> Result<Self, String> {
        arbitrary()
    }
}

/// What has been learned on the way from the root of the tree to the cursor.
#[derive(Debug, PartialEq, Eq)]
pub struct CompletionContext {
    /// The schema named in the object reference around the cursor.
    pub schema_name: Option<String>,
    /// The clause that wraps the cursor.
    pub wrapping_clause_type: Option<ClauseType>,
    /// Whether the cursor stands in an invocation.
    pub is_invocation: bool,
}

/// Where the walk goes after a node.
#[derive(Clone, Copy, Debug, PartialEq, Eq, Structural)]
pub enum Walk {
    /// Go on with the child that holds the cursor.
    Descend,
    /// The node is a leaf: it is the node under the cursor.
    Stop,
}

/// `text` holds exactly one `.`, at index `at`.
pub open spec fn sole_dot(text: Seq<char>, at: int) -> bool {
    &&& 0 <= at < text.len()
    &&& forall|i: int| 0 <= i < text.len() ==> (#[trigger] text[i] == '.' <==> i == at)
}

/// The schema that the text of an object reference names: what stands
/// before the dot, if the text holds exactly one dot.
pub open spec fn names_schema(text: Seq<char>, schema: Option<Seq<char>>) -> bool {
    &&& forall|at: int| sole_dot(text, at) ==> schema == Some(text.take(at))
    &&& schema is Some ==> exists|at: int| sole_dot(text, at)
}

/// The clause around the cursor once a node of kind `current` has been
/// entered from a node of kind `previous`: a `where` node always sets it, and
/// so does any child of a statement, to the clause that it names or to none.
pub open spec fn clause_after(
    before: Option<ClauseType>,
    previous: Seq<char>,
    current: Seq<char>,
) -> Option<ClauseType> {
    if current == "where"@ {
        Some(ClauseType::Where)
    } else if previous == "statement"@ {
        clause_named(current)
    } else {
        before
    }
}

/// The view of an optional string.
pub open spec fn text_of(s: Option<String>) -> Option<Seq<char>> {
    match s {
        Some(s) => Some(s@),
        None => None,
    }
}

/// The schema known once a node of kind `current` with the text `content`
/// has been entered: an object reference whose text holds exactly one dot
/// names it, and any other node leaves it as it was.
pub open spec fn schema_after(
    before: Option<Seq<char>>,
    current: Seq<char>,
    content: Option<&str>,
    after: Option<Seq<char>>,
) -> bool {
    if current == "object_reference"@ && content is Some && (exists|at: int|
        sole_dot(content->0@, at)) {
        names_schema(content->0@, after)
    } else {
        after == before
    }
}

/// The schema that `text` names before its only dot, if it has exactly one.
pub fn schema_before_dot(text: &str) -> (schema: Option<String>)
    ensures
        names_schema(text@, text_of(schema)),
{
    let n = text.unicode_len();
    let mut dot: Option<usize> = None;
    let mut i: usize = 0;
    while i < n
        invariant
            n == text@.len(),
            i <= n,
            dot is None ==> forall|k: int| 0 <= k < i ==> text@[k] != '.',
            dot matches Some(at) ==> at < i && sole_dot(text@.take(i as int), at as int),
        decreases n - i,
    {
        let ghost seen = text@.take(i as int);
        let ghost next = text@.take(i + 1);
        if text.get_char(i) == '.' {
            match dot {
                Some(first) => {
                    proof {
                        assert forall|at: int| !sole_dot(text@, at) by {
                            if sole_dot(text@, at) {
                                assert(seen[first as int] == '.');
                                assert(text@[first as int] == '.');
                                assert(text@[i as int] == '.');
                            }
                        }
                    }
                    return None;
                },
                None => {
                    dot = Some(i);
                    proof {
                        assert forall|k: int| 0 <= k < next.len() implies (#[trigger] next[k] == '.'
                            <==> k == i) by {}
                    }
                },
            }
        } else {
            proof {
                if let Some(at) = dot {
                    assert forall|k: int| 0 <= k < next.len() implies (#[trigger] next[k] == '.'
                        <==> k == at) by {
                        if k < i {
                            assert(seen[k] == next[k]);
                        }
                    }
                }
            }
        }
        i += 1;
    }
    assert(text@.take(n as int) =~= text@);
    match dot {
        None => {
            proof {
                assert forall|at: int| !sole_dot(text@, at) by {
                    if sole_dot(text@, at) {
                        assert(text@[at] == '.');
                    }
                }
            }
            None
        },
        Some(at) => {
            let schema = String::from_str(text.substring_char(0, at));
            proof {
                assert(text@.subrange(0, at as int) =~= text@.take(at as int));
                assert forall|other: int| sole_dot(text@, other) implies other == at by {
                    assert(text@[at as int] == '.');
                }
            }
            Some(schema)
        },
    }
}

impl CompletionContext {
    /// Nothing is known before the walk.
    pub fn new() -> (ctx: CompletionContext)
        ensures
            ctx.schema_name is None,
            ctx.wrapping_clause_type is None,
            !ctx.is_invocation,
    {
        CompletionContext { schema_name: None, wrapping_clause_type: None, is_invocation: false }
    }

    /// Takes in one node on the way to the cursor: its kind, the kind of the
    /// node it was entered from, its text if that can be had, and the number
    /// of its children. Says whether the walk goes on below the node.
    pub fn visit(
        &mut self,
        previous_kind: &str,
        current_kind: &str,
        content: Option<&str>,
        child_count: usize,
    ) -> (walk: Walk)
        ensures
            walk == (if child_count == 0 {
                Walk::Stop
            } else {
                Walk::Descend
            }),
            final(self).is_invocation == (old(self).is_invocation || previous_kind@
                == "invocation"@),
            final(self).wrapping_clause_type == clause_after(
                old(self).wrapping_clause_type,
                previous_kind@,
                current_kind@,
            ),
            schema_after(
                text_of(old(self).schema_name),
                current_kind@,
                content,
                text_of(final(self).schema_name),
            ),
    {
        proof {
            reveal_strlit("statement");
            reveal_strlit("invocation");
            reveal_strlit("where");
            reveal_strlit("object_reference");
            assert("statement"@.len() != "invocation"@.len());
            assert("where"@.len() != "object_reference"@.len());
        }
        if same(previous_kind, "statement") {
            self.wrapping_clause_type = match ClauseType::try_from(current_kind) {
                Ok(clause) => Some(clause),
                Err(_) => None,
            };
        } else if same(previous_kind, "invocation") {
            self.is_invocation = true;
        }
        if same(current_kind, "object_reference") {
            if let Some(text) = content {
                if let Some(schema) = schema_before_dot(text) {
                    self.schema_name = Some(schema);
                }
            }
        } else if same(current_kind, "where") {
            self.wrapping_clause_type = Some(ClauseType::Where);
        }
        if child_count == 0 {
            Walk::Stop
        } else {
            Walk::Descend
        }
    }
}

} // verus!
