//! Agents and their tools: which tool files an agent needs, which executable
//! answers a tool name, and how retrieved context is wrapped around a query.

use crate::rag::Rag;
use crate::text::{find_pair, lookup, pair_map, replace_all, replace_text};
use vstd::prelude::*;

verus! {

/// The template that wraps retrieved context around a query. `__CONTEXT__`
/// stands for the context and `__INPUT__` for the query.
pub const RAG_TEMPLATE: &'static str =
    "Answer the query based on the context while respecting the rules. (user query, some textual context and rules, all inside xml tags)\n\n<context>\n__CONTEXT__\n</context>\n\n<rules>\n- If you don't know, just say so.\n- If you are not sure, ask for clarification.\n- Answer in the same language as the user query.\n- If the context appears unreadable or of poor quality, tell the user then answer as best as you can.\n- If the answer is not in the context but you think you know the answer, explain that to the user then answer with your own knowledge.\n- Answer directly and without using xml tags.\n</rules>\n\n<user_query>\n__INPUT__\n</user_query>";

/// A set of tools read from one tool file: where the schema of each tool
/// lies, which executable runs it, and the schemas once they were read.
#[derive(Debug)]
pub struct Tool {
    pub tool_json: Vec<(String, String)>,
    pub tool_exec: Vec<(String, String)>,
    pub tool: Vec<String>,
}

impl Tool {
    /// The executable of the tool `tool_name`, if this set holds it.
    pub fn tool_exec<'a>(&'a self, tool_name: &str) -> (command: Option<&'a str>)
        ensures
            command.deep_view() == lookup(pair_map(self.tool_exec.deep_view()), tool_name@),
    {
        match find_pair(&self.tool_exec, tool_name) {
            Some(command) => Some(command.as_str()),
            None => None,
        }
    }
}

/// Why an agent cannot be set up.
#[derive(Clone, Copy, Debug, PartialEq, Eq, Structural)]
pub enum AgentError {
    /// The agent names a tool that the configuration does not know.
    NoToolFound,
    /// The agent names a retrieval store that the configuration does not know.
    NoRagFound,
}

impl AgentError {
    /// The error as a sentence.
    pub fn message(&self) -> (text: String)
        ensures
            text@ == match self {
                AgentError::NoToolFound => "There is no tool found."@,
                AgentError::NoRagFound => "There is no rag found."@,
            },
    {
        match self {
            AgentError::NoToolFound => "There is no tool found.".to_string(),
            AgentError::NoRagFound => "There is no rag found.".to_string(),
        }
    }
}

/// An agent: its instructions, the tools and the retrieval store that it
/// names, and the tools once they were loaded.
#[derive(Debug)]
pub struct Agent {
    pub name: String,
    pub description: String,
    pub instructions: String,
    pub tools: Vec<String>,
    pub rags: Option<String>,
    pub rag: Rag,
    pub tool: Vec<Tool>,
}

/// Whether every name of a list is known to a map.
pub open spec fn all_known(names: Seq<Seq<char>>, map: Map<Seq<char>, Seq<char>>) -> bool {
    forall|i: int| 0 <= i < names.len() ==> map.contains_key(#[trigger] names[i])
}

/// The schemas of the first `count` tool sets, one set after the other.
pub open spec fn schemas_of_sets(sets: Seq<Seq<Seq<char>>>, count: nat) -> Seq<Seq<char>>
    decreases count,
{
    if count == 0 || count > sets.len() {
        Seq::empty()
    } else {
        schemas_of_sets(sets, (count - 1) as nat) + sets[count - 1]
    }
}

/// The schema lists of the tool sets of an agent.
pub open spec fn schema_sets(tools: Seq<Tool>) -> Seq<Seq<Seq<char>>> {
    Seq::new(tools.len(), |i: int| tools[i].tool.deep_view())
}

/// The executable that the first `count` tool sets give for a tool name: that
/// of the first set that holds the name.
pub open spec fn first_command(tools: Seq<Tool>, name: Seq<char>, from: int) -> Option<Seq<char>>
    decreases tools.len() - from,
{
    if from < 0 || from >= tools.len() {
        None
    } else {
        match lookup(pair_map(tools[from].tool_exec.deep_view()), name) {
            Some(command) => Some(command),
            None => first_command(tools, name, from + 1),
        }
    }
}

/// A query wrapped in retrieved context; the query itself where there is no
/// context.
pub open spec fn rag_prompt(embeddings: Seq<char>, text: Seq<char>) -> Seq<char> {
    if embeddings.len() == 0 {
        text
    } else {
        replace_all(
            replace_all(RAG_TEMPLATE@, "__CONTEXT__"@, embeddings),
            "__INPUT__"@,
            text,
        )
    }
}

impl Agent {
    /// An agent without tools, store or instructions.
    pub fn empty() -> (agent: Agent)
        ensures
            agent.name@.len() == 0,
            agent.description@.len() == 0,
            agent.instructions@.len() == 0,
            agent.tools@.len() == 0,
            agent.rags is None,
            agent.rag.rag_embedding_model@.len() == 0,
            agent.rag.rag_top_k == 0,
            agent.rag.rag_chunk_size == 0,
            agent.rag.rag_chunk_overlap == 0,
            agent.rag.documents@.len() == 0,
            agent.tool@.len() == 0,
    {
        Agent {
            name: String::new(),
            description: String::new(),
            instructions: String::new(),
            tools: Vec::new(),
            rags: None,
            rag: Rag::default(),
            tool: Vec::new(),
        }
    }

    /// The tool files that the agent needs, as `(name, path)` pairs in the
    /// order of its tool names; an error where the configuration does not know
    /// one of the names.
    pub fn tool_files(&self, tools: &Vec<(String, String)>) -> (files: Result<
        Vec<(String, String)>,
        AgentError,
    >)
        ensures
            files is Ok <==> all_known(self.tools.deep_view(), pair_map(tools.deep_view())),
            files matches Err(error) ==> error == AgentError::NoToolFound,
            files matches Ok(list) ==> list.len() == self.tools.len() && forall|i: int|
                0 <= i < list.len() ==> (#[trigger] list[i]).0@ == self.tools[i]@ && list[i].1@
                    == pair_map(tools.deep_view())[self.tools[i]@],
    {
        let ghost names = self.tools.deep_view();
        let ghost map = pair_map(tools.deep_view());
        let mut files: Vec<(String, String)> = Vec::new();
        let mut i: usize = 0;
        while i < self.tools.len()
            invariant
                i <= self.tools.len(),
                names == self.tools.deep_view(),
                map == pair_map(tools.deep_view()),
                files.len() == i,
                forall|j: int| 0 <= j < i ==> map.contains_key(#[trigger] names[j]),
                forall|j: int|
                    0 <= j < i ==> (#[trigger] files[j]).0@ == self.tools[j]@ && files[j].1@
                        == map[self.tools[j]@],
            decreases self.tools.len() - i,
        {
            let name = &self.tools[i];
            match find_pair(tools, name.as_str()) {
                Some(path) => {
                    files.push((name.clone(), path.clone()));
                },
                None => {
                    assert(!map.contains_key(names[i as int]));
                    return Err(AgentError::NoToolFound);
                },
            }
            i += 1;
        }
        Ok(files)
    }

    /// The file of the retrieval store that the agent names, as a `(name,
    /// path)` pair; nothing where it names none; an error where the
    /// configuration does not know the name.
    pub fn rag_file(&self, rags: &Vec<(String, String)>) -> (file: Result<
        Option<(String, String)>,
        AgentError,
    >)
        ensures
            self.rags is None ==> file matches Ok(None),
            self.rags matches Some(name) ==> match lookup(pair_map(rags.deep_view()), name@) {
                Some(path) => file matches Ok(Some(pair)) && pair.0@ == name@ && pair.1@ == path,
                None => file matches Err(error) && error == AgentError::NoRagFound,
            },
    {
        match &self.rags {
            None => Ok(None),
            Some(name) => match find_pair(rags, name.as_str()) {
                Some(path) => Ok(Some((name.clone(), path.clone()))),
                None => Err(AgentError::NoRagFound),
            },
        }
    }

    /// The schemas of all tools of the agent, one tool set after the other.
    pub fn echo_tool(&self) -> (schemas: Vec<String>)
        ensures
            schemas.deep_view() == schemas_of_sets(schema_sets(self.tool@), self.tool@.len()),
    {
        let ghost sets = schema_sets(self.tool@);
        let mut schemas: Vec<String> = Vec::new();
        assert(schemas.deep_view() =~= Seq::empty());
        let mut i: usize = 0;
        while i < self.tool.len()
            invariant
                i <= self.tool.len(),
                sets == schema_sets(self.tool@),
                schemas.deep_view() == schemas_of_sets(sets, i as nat),
            decreases self.tool.len() - i,
        {
            let set = &self.tool[i].tool;
            let ghost before = schemas.deep_view();
            let mut j: usize = 0;
            assert(before + set.deep_view().take(0) =~= before);
            while j < set.len()
                invariant
                    j <= set.len(),
                    schemas.deep_view() == before + set.deep_view().take(j as int),
                decreases set.len() - j,
            {
                let ghost built = schemas.deep_view();
                schemas.push(set[j].clone());
                assert(schemas.deep_view() =~= built.push(set[j as int]@));
                j += 1;
                assert(before + set.deep_view().take(j as int) =~= (before + set.deep_view().take(
                    j - 1,
                )).push(set.deep_view()[j - 1]));
            }
            assert(set.deep_view().take(j as int) =~= set.deep_view());
            i += 1;
        }
        schemas
    }

    /// The executable that answers a tool name: that of the first tool set
    /// that holds the name.
    pub fn tool_exec<'a>(&'a self, name: &str) -> (command: Option<&'a str>)
        ensures
            command.deep_view() == first_command(self.tool@, name@, 0),
    {
        let mut i: usize = 0;
        while i < self.tool.len()
            invariant
                i <= self.tool.len(),
                first_command(self.tool@, name@, i as int) == first_command(
                    self.tool@,
                    name@,
                    0,
                ),
            decreases self.tool.len() - i,
        {
            match self.tool[i].tool_exec(name) {
                Some(command) => {
                    return Some(command);
                },
                None => {},
            }
            i += 1;
        }
        None
    }

    /// Wraps retrieved context around a query.
    pub fn rag_template(&self, embeddings: &str, text: &str) -> (prompt: String)
        ensures
            prompt@ == rag_prompt(embeddings@, text@),
    {
        if embeddings.is_empty() {
            return text.to_string();
        }
        let with_context = replace_text(RAG_TEMPLATE, "__CONTEXT__", embeddings);
        replace_text(with_context.as_str(), "__INPUT__", text)
    }
}

} // verus!
