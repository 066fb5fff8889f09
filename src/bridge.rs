//! The capability bridge: from tool and resource descriptors to the
//! function-calling schema a language model consumes, and back.

use vstd::prelude::*;
use std::collections::HashMap;
use crate::server::opt_view;
use crate::session::strings_view;
use crate::text::{replace_char, replaced, text_lines, lines_of, trim_text, trim_of};

verus! {

/// A tool offered by a capability server.
pub struct Tool {
    /// Qualified name, `server/tool`.
    pub name: String,
    pub description: Option<String>,
    /// JSON text of the parameter schema.
    pub parameters: Option<String>,
}

/// A resource offered by a capability server.
pub struct Resource {
    pub name: String,
    pub description: Option<String>,
}

/// A parameter of a function, as the model's schema describes it.
pub struct FunctionParameter {
    pub param_type: String,
    pub description: Option<String>,
    pub required: Option<bool>,
    pub enum_values: Option<Vec<String>>,
    pub properties: Option<HashMap<String, FunctionParameter>>,
}

/// A function the model may call.
pub struct FunctionDef {
    pub name: String,
    pub description: Option<String>,
    /// JSON text of the parameter schema.
    pub parameters: String,
}

/// A function call issued by the model.
pub struct FunctionCall {
    pub name: String,
    /// JSON text of the arguments.
    pub arguments: String,
}

pub struct ToolView {
    pub name: Seq<char>,
    pub description: Option<Seq<char>>,
    pub parameters: Option<Seq<char>>,
}

pub struct ResourceView {
    pub name: Seq<char>,
    pub description: Option<Seq<char>>,
}

pub struct FunctionDefView {
    pub name: Seq<char>,
    pub description: Option<Seq<char>>,
    pub parameters: Seq<char>,
}

impl View for Tool {
    type V = ToolView;

    open spec fn view(&self) -> ToolView {
        ToolView { name: self.name@, description: opt_view(self.description), parameters: opt_view(self.parameters) }
    }
}

impl View for Resource {
    type V = ResourceView;

    open spec fn view(&self) -> ResourceView {
        ResourceView { name: self.name@, description: opt_view(self.description) }
    }
}

impl View for FunctionDef {
    type V = FunctionDefView;

    open spec fn view(&self) -> FunctionDefView {
        FunctionDefView { name: self.name@, description: opt_view(self.description), parameters: self.parameters@ }
    }
}

pub open spec fn tools_view(t: Seq<Tool>) -> Seq<ToolView> {
    t.map_values(|x: Tool| x@)
}

pub open spec fn resources_view(r: Seq<Resource>) -> Seq<ResourceView> {
    r.map_values(|x: Resource| x@)
}

/// Placeholder for a missing description.
pub open spec fn no_description() -> Seq<char> {
    "No description provided"@
}

/// Schema of a tool that declares no parameters: an empty object.
pub open spec fn empty_object_schema() -> Seq<char> {
    "{\"type\":\"object\",\"properties\":{},\"required\":[]}"@
}

/// The model-facing form of a qualified name: every `/` becomes `.`.
pub open spec fn dotted(name: Seq<char>) -> Seq<char> {
    replaced(name, '/', '.')
}

pub open spec fn description_or_default(d: Option<Seq<char>>) -> Seq<char> {
    match d {
        Some(x) => x,
        None => no_description(),
    }
}

/// The function definition of one tool.
pub open spec fn function_def_of(t: ToolView) -> FunctionDefView {
    FunctionDefView {
        name: dotted(t.name),
        description: Some(description_or_default(t.description)),
        parameters: match t.parameters {
            Some(p) => p,
            None => empty_object_schema(),
        },
    }
}

fn description_text(d: &Option<String>) -> (r: String)
    ensures
        r@ == description_or_default(opt_view(*d)),
{
    match d {
        Some(x) => x.clone(),
        None => "No description provided".to_string(),
    }
}

/// The function definitions of `tools`, one per tool and in the same order.
pub fn convert_mcp_tools_to_gemini_functions(tools: &[Tool]) -> (r: Vec<FunctionDef>)
    ensures
        r@.len() == tools@.len(),
        forall|i: int| 0 <= i < tools@.len() ==> (#[trigger] r@[i])@ == function_def_of(tools@[i]@),
{
    let mut functions: Vec<FunctionDef> = Vec::new();
    let mut i: usize = 0;
    while i < tools.len()
        invariant
            i <= tools@.len(),
            functions@.len() == i,
            forall|j: int| 0 <= j < i ==> (#[trigger] functions@[j])@ == function_def_of(tools@[j]@),
        decreases tools@.len() - i,
    {
        let tool = &tools[i];
        let parameters = match &tool.parameters {
            Some(p) => p.clone(),
            None => "{\"type\":\"object\",\"properties\":{},\"required\":[]}".to_string(),
        };
        let description = description_text(&tool.description);
        let name = replace_char(tool.name.as_str(), '/', '.');
        functions.push(FunctionDef { name, description: Some(description), parameters });
        i += 1;
    }
    functions
}

/// The function declarations for the model: `None` when there are no tools.
pub fn generate_gemini_function_declarations(tools: &[Tool]) -> (r: Option<Vec<FunctionDef>>)
    ensures
        r is None <==> tools@.len() == 0,
        r matches Some(defs) ==> defs@.len() == tools@.len()
            && forall|i: int| 0 <= i < tools@.len() ==> (#[trigger] defs@[i])@ == function_def_of(tools@[i]@),
{
    let functions = convert_mcp_tools_to_gemini_functions(tools);
    if functions.len() == 0 {
        None
    } else {
        Some(functions)
    }
}

/// Opening of the capability section of the model's instructions.
pub open spec fn prompt_intro() -> Seq<char> {
    "\n\nYou have access to the following tools and resources through a Machine Capability Protocol (MCP) interface. Use the function calling capability to interact with these tools; DO NOT suggest or describe function calls in your text response.\n\n"@
}

/// Closing directive of the capability section.
pub open spec fn prompt_directive() -> Seq<char> {
    "Important: Always use the function calling capability of the API, not text-based suggestions. DO NOT write code blocks with JSON in your response."@
}

/// One bullet line: `* **name**: description`.
pub open spec fn bullet(name: Seq<char>, description: Option<Seq<char>>) -> Seq<char> {
    "* **"@ + name + "**: "@ + description_or_default(description) + "\n"@
}

pub open spec fn tool_bullets(t: Seq<ToolView>) -> Seq<char>
    decreases t.len(),
{
    if t.len() == 0 {
        Seq::empty()
    } else {
        tool_bullets(t.drop_last()) + bullet(dotted(t.last().name), t.last().description)
    }
}

pub open spec fn resource_bullets(r: Seq<ResourceView>) -> Seq<char>
    decreases r.len(),
{
    if r.len() == 0 {
        Seq::empty()
    } else {
        resource_bullets(r.drop_last()) + bullet(r.last().name, r.last().description)
    }
}

/// The capability section of the model's instructions; a section with no
/// entries is left out.
pub open spec fn system_prompt(t: Seq<ToolView>, r: Seq<ResourceView>) -> Seq<char> {
    prompt_intro()
        + (if t.len() == 0 { Seq::empty() } else { "## Available Tools\n\n"@ + tool_bullets(t) + "\n"@ })
        + (if r.len() == 0 { Seq::empty() } else { "## Available Resources\n\n"@ + resource_bullets(r) + "\n"@ })
        + prompt_directive()
}

fn append_bullet(prompt: &mut String, name: &String, description: &Option<String>)
    ensures
        final(prompt)@ == old(prompt)@ + bullet(name@, opt_view(*description)),
{
    let d = description_text(description);
    prompt.append("* **");
    prompt.append(name.as_str());
    prompt.append("**: ");
    prompt.append(d.as_str());
    prompt.append("\n");
    assert(final(prompt)@ =~= old(prompt)@ + bullet(name@, opt_view(*description)));
}

/// Builds the capability section of the model's instructions.
pub fn build_mcp_system_prompt(tools: &[Tool], resources: &[Resource]) -> (r: String)
    ensures
        r@ == system_prompt(tools_view(tools@), resources_view(resources@)),
{
    let ghost tv = tools_view(tools@);
    let ghost rv = resources_view(resources@);
    let mut prompt = "\n\nYou have access to the following tools and resources through a Machine Capability Protocol (MCP) interface. Use the function calling capability to interact with these tools; DO NOT suggest or describe function calls in your text response.\n\n".to_string();
    let ghost after_intro = prompt@;
    let mut tool_part = String::new();
    if tools.len() > 0 {
        tool_part.append("## Available Tools\n\n");
        let mut i: usize = 0;
        while i < tools.len()
            invariant
                i <= tools@.len(),
                tv == tools_view(tools@),
                tool_part@ == "## Available Tools\n\n"@ + tool_bullets(tv.subrange(0, i as int)),
            decreases tools@.len() - i,
        {
            let display_name = replace_char(tools[i].name.as_str(), '/', '.');
            append_bullet(&mut tool_part, &display_name, &tools[i].description);
            proof {
                let s = tv.subrange(0, i + 1);
                assert(s.drop_last() =~= tv.subrange(0, i as int));
                assert(s.last() == tools@[i as int]@);
            }
            i += 1;
        }
        tool_part.append("\n");
        assert(tv.subrange(0, tv.len() as int) =~= tv);
    }
    let mut resource_part = String::new();
    if resources.len() > 0 {
        resource_part.append("## Available Resources\n\n");
        let mut i: usize = 0;
        while i < resources.len()
            invariant
                i <= resources@.len(),
                rv == resources_view(resources@),
                resource_part@ == "## Available Resources\n\n"@ + resource_bullets(rv.subrange(0, i as int)),
            decreases resources@.len() - i,
        {
            append_bullet(&mut resource_part, &resources[i].name, &resources[i].description);
            proof {
                let s = rv.subrange(0, i + 1);
                assert(s.drop_last() =~= rv.subrange(0, i as int));
                assert(s.last() == resources@[i as int]@);
            }
            i += 1;
        }
        resource_part.append("\n");
        assert(rv.subrange(0, rv.len() as int) =~= rv);
    }
    prompt.append(tool_part.as_str());
    prompt.append(resource_part.as_str());
    prompt.append("Important: Always use the function calling capability of the API, not text-based suggestions. DO NOT write code blocks with JSON in your response.");
    proof {
        if tv.len() == 0 {
            assert(tool_part@ =~= Seq::<char>::empty());
        }
        if rv.len() == 0 {
            assert(resource_part@ =~= Seq::<char>::empty());
        }
    }
    assert(prompt@ =~= system_prompt(tv, rv));
    prompt
}

/// State of the scan for fenced code blocks.
pub struct BlockScan {
    pub in_block: bool,
    pub current: Seq<char>,
    pub blocks: Seq<Seq<char>>,
}

/// A trimmed line that opens or closes a fenced block.
pub open spec fn is_fence(t: Seq<char>) -> bool {
    t.len() >= 3 && t[0] == '`' && t[1] == '`' && t[2] == '`'
}

pub open spec fn scan_step(st: BlockScan, line: Seq<char>) -> BlockScan {
    if is_fence(trim_of(line)) {
        if st.in_block {
            BlockScan { in_block: false, current: Seq::empty(), blocks: st.blocks.push(st.current) }
        } else {
            BlockScan { in_block: true, current: Seq::empty(), blocks: st.blocks }
        }
    } else if st.in_block {
        BlockScan { current: st.current + line + "\n"@, ..st }
    } else {
        st
    }
}

pub open spec fn scan_lines(lines: Seq<Seq<char>>) -> BlockScan
    decreases lines.len(),
{
    if lines.len() == 0 {
        BlockScan { in_block: false, current: Seq::empty(), blocks: Seq::empty() }
    } else {
        scan_step(scan_lines(lines.drop_last()), lines.last())
    }
}

/// The contents of the closed fenced code blocks of `text`, in order; each
/// line of a block keeps its text and ends with a newline.
pub open spec fn code_blocks(text: Seq<char>) -> Seq<Seq<char>> {
    scan_lines(lines_of(text)).blocks
}

fn fence_line(t: &String) -> (r: bool)
    ensures
        r == is_fence(t@),
{
    let s = t.as_str();
    s.unicode_len() >= 3 && s.get_char(0) == '`' && s.get_char(1) == '`' && s.get_char(2) == '`'
}

/// The fenced code blocks of a model reply, for the fallback path that looks
/// for function calls written out as text.
pub fn extract_code_blocks(text: &str) -> (r: Vec<String>)
    ensures
        strings_view(r@) == code_blocks(text@),
{
    let lines = text_lines(text);
    let ghost ls = lines_of(text@);
    let mut blocks: Vec<String> = Vec::new();
    let mut current = String::new();
    let mut in_block = false;
    let mut i: usize = 0;
    proof {
        assert(ls.subrange(0, 0) =~= Seq::<Seq<char>>::empty());
        assert(strings_view(blocks@) =~= Seq::<Seq<char>>::empty());
    }
    while i < lines.len()
        invariant
            i <= lines@.len(),
            ls == strings_view(lines@),
            ({
                let st = scan_lines(ls.subrange(0, i as int));
                &&& st.in_block == in_block
                &&& st.current == current@
                &&& st.blocks == strings_view(blocks@)
            }),
        decreases lines@.len() - i,
    {
        let line = &lines[i];
        let trimmed = trim_text(line.as_str());
        proof {
            assert(ls.subrange(0, i + 1).drop_last() =~= ls.subrange(0, i as int));
            assert(ls.subrange(0, i + 1).last() == line@);
        }
        if fence_line(&trimmed) {
            if !in_block {
                in_block = true;
                current = String::new();
            } else {
                in_block = false;
                let ghost before = blocks@;
                let done = current.clone();
                current = String::new();
                blocks.push(done);
                assert(strings_view(blocks@) =~= strings_view(before).push(done@));
            }
        } else if in_block {
            current.append(line.as_str());
            current.append("\n");
        }
        i += 1;
    }
    proof {
        assert(ls.subrange(0, ls.len() as int) =~= ls);
    }
    blocks
}

} // verus!
