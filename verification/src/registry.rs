//! The tool registry: which executable stands behind a tool name, and which
//! schema is advertised to the model for it.

use crate::text::{find_pair, lookup, pair_map};
use vstd::prelude::*;

verus! {

/// One registered tool. The schema is JSON text that is handed to the model as
/// it is.
#[derive(Debug)]
pub struct ToolSpec {
    pub name: String,
    pub schema: String,
    pub executable: String,
    pub embedding_model: Option<String>,
}

/// The mathematical value of a [`ToolSpec`].
pub ghost struct ToolSpecModel {
    pub name: Seq<char>,
    pub schema: Seq<char>,
    pub executable: Seq<char>,
    pub embedding_model: Option<Seq<char>>,
}

impl View for ToolSpec {
    type V = ToolSpecModel;

    open spec fn view(&self) -> ToolSpecModel {
        ToolSpecModel {
            name: self.name@,
            schema: self.schema@,
            executable: self.executable@,
            embedding_model: self.embedding_model.deep_view(),
        }
    }
}

impl DeepView for ToolSpec {
    type V = ToolSpecModel;

    open spec fn deep_view(&self) -> ToolSpecModel {
        self@
    }
}

impl Clone for ToolSpec {
    fn clone(&self) -> (copy: ToolSpec)
        ensures
            copy@ == self@,
    {
        ToolSpec {
            name: self.name.clone(),
            schema: self.schema.clone(),
            executable: self.executable.clone(),
            embedding_model: self.embedding_model.clone(),
        }
    }
}

/// The position of the first tool with the given name, or the length of the
/// list where there is none.
pub open spec fn name_position(specs: Seq<ToolSpecModel>, name: Seq<char>) -> int
    decreases specs.len(),
{
    if specs.len() == 0 {
        0
    } else if specs.first().name == name {
        0
    } else {
        1 + name_position(specs.drop_first(), name)
    }
}

/// Whether a tool with the given name is registered.
pub open spec fn is_registered(specs: Seq<ToolSpecModel>, name: Seq<char>) -> bool {
    name_position(specs, name) < specs.len()
}

/// The tool registered under the given name.
pub open spec fn resolution(specs: Seq<ToolSpecModel>, name: Seq<char>) -> Option<ToolSpecModel> {
    if is_registered(specs, name) {
        Some(specs[name_position(specs, name)])
    } else {
        None
    }
}

/// Whether no two tools of a list share a name.
pub open spec fn names_distinct(specs: Seq<ToolSpecModel>) -> bool {
    forall|i: int, j: int|
        0 <= i < j < specs.len() ==> (#[trigger] specs[i]).name != (#[trigger] specs[j]).name
}

/// The schemas of a list of tools, in registration order.
pub open spec fn schemas_of(specs: Seq<ToolSpecModel>) -> Seq<Seq<char>> {
    Seq::new(specs.len(), |i: int| specs[i].schema)
}

proof fn lemma_name_position_bounds(specs: Seq<ToolSpecModel>, name: Seq<char>)
    ensures
        0 <= name_position(specs, name) <= specs.len(),
        name_position(specs, name) < specs.len() ==> specs[name_position(specs, name)].name
            == name,
        forall|j: int| 0 <= j < name_position(specs, name) ==> (#[trigger] specs[j]).name != name,
    decreases specs.len(),
{
    if specs.len() > 0 && specs.first().name != name {
        let rest = specs.drop_first();
        lemma_name_position_bounds(rest, name);
        assert forall|j: int| 0 <= j < name_position(specs, name) implies (
        #[trigger] specs[j]).name != name by {
            if j > 0 {
                assert(specs[j] == rest[j - 1]);
            }
        }
    }
}

proof fn lemma_name_position_is(specs: Seq<ToolSpecModel>, name: Seq<char>, at: int)
    requires
        0 <= at <= specs.len(),
        forall|j: int| 0 <= j < at ==> (#[trigger] specs[j]).name != name,
        at < specs.len() ==> specs[at].name == name,
    ensures
        name_position(specs, name) == at,
{
    lemma_name_position_bounds(specs, name);
    let found = name_position(specs, name);
    if found < at {
        assert(specs[found].name != name);
    } else if found > at {
        assert(specs[at].name == name);
    }
}

/// The set of registered tools. No two of them share a name.
#[derive(Debug)]
pub struct ToolRegistry {
    specs: Vec<ToolSpec>,
}

impl View for ToolRegistry {
    type V = Seq<ToolSpecModel>;

    closed spec fn view(&self) -> Seq<ToolSpecModel> {
        self.specs.deep_view()
    }
}

impl ToolRegistry {
    /// The invariant of a registry: tool names are unique.
    pub open spec fn wf(&self) -> bool {
        names_distinct(self@)
    }

    /// The registry without any tool.
    pub fn new() -> (registry: ToolRegistry)
        ensures
            registry@ == Seq::<ToolSpecModel>::empty(),
            registry.wf(),
    {
        let registry = ToolRegistry { specs: Vec::new() };
        assert(registry.specs.deep_view() =~= Seq::empty());
        registry
    }

    fn position(&self, name: &str) -> (at: usize)
        ensures
            at == name_position(self@, name@),
            at <= self.specs.len(),
            self.specs.len() == self@.len(),
    {
        let mut at: usize = 0;
        while at < self.specs.len() && !self.specs[at].name.as_str().eq(name)
            invariant
                at <= self.specs.len(),
                forall|j: int| 0 <= j < at ==> (#[trigger] self.specs.deep_view()[j]).name != name@,
            decreases self.specs.len() - at,
        {
            at += 1;
        }
        proof {
            lemma_name_position_is(self@, name@, at as int);
        }
        at
    }

    /// Registers a tool, unless a tool of that name is registered already.
    /// Says whether the tool was added.
    pub fn register(&mut self, spec: ToolSpec) -> (added: bool)
        requires
            old(self).wf(),
        ensures
            final(self).wf(),
            added == !is_registered(old(self)@, spec@.name),
            added ==> final(self)@ == old(self)@.push(spec@),
            !added ==> final(self)@ == old(self)@,
    {
        let at = self.position(spec.name.as_str());
        if at < self.specs.len() {
            false
        } else {
            let ghost before = self@;
            proof {
                lemma_name_position_bounds(before, spec@.name);
            }
            self.specs.push(spec);
            assert(self.specs.deep_view() =~= before.push(spec@));
            true
        }
    }

    /// The tool registered under `name`, if there is one.
    pub fn resolve(&self, name: &str) -> (found: Option<&ToolSpec>)
        ensures
            found.deep_view() == resolution(self@, name@),
    {
        let at = self.position(name);
        if at < self.specs.len() {
            Some(&self.specs[at])
        } else {
            None
        }
    }

    /// The number of registered tools.
    pub fn len(&self) -> (count: usize)
        ensures
            count == self@.len(),
    {
        self.specs.len()
    }

    /// The schemas of all registered tools, in registration order.
    pub fn schemas(&self) -> (schemas: Vec<String>)
        ensures
            schemas.deep_view() == schemas_of(self@),
    {
        let mut schemas: Vec<String> = Vec::new();
        let mut i: usize = 0;
        while i < self.specs.len()
            invariant
                i <= self.specs.len(),
                schemas.len() == i,
                forall|j: int| 0 <= j < i ==> schemas[j]@ == #[trigger] schemas_of(self@)[j],
            decreases self.specs.len() - i,
        {
            schemas.push(self.specs[i].schema.clone());
            i += 1;
        }
        assert(schemas.deep_view() =~= schemas_of(self@));
        schemas
    }
}

/// The commands behind tool names.
#[derive(Debug)]
pub struct Exec {
    pub commands: Vec<(String, String)>,
}

impl View for Exec {
    type V = Map<Seq<char>, Seq<char>>;

    open spec fn view(&self) -> Map<Seq<char>, Seq<char>> {
        pair_map(self.commands.deep_view())
    }
}

impl Exec {
    /// The commands given by a list of `(name, command)` pairs.
    pub fn init(exec_path: Vec<(String, String)>) -> (registry: Exec)
        ensures
            registry@ == pair_map(exec_path.deep_view()),
    {
        Exec { commands: exec_path }
    }

    /// The command registered under `name`, if there is one.
    pub fn find_exec(&self, name: &str) -> (command: Option<String>)
        ensures
            command.deep_view() == lookup(self@, name@),
    {
        match find_pair(&self.commands, name) {
            Some(command) => Some(command.clone()),
            None => None,
        }
    }
}

} // verus!
