use happe::bridge::{
    build_mcp_system_prompt, convert_mcp_tools_to_gemini_functions, extract_code_blocks,
    generate_gemini_function_declarations, Resource, Tool,
};

const INTRO: &str = "\n\nYou have access to the following tools and resources through a Machine Capability Protocol (MCP) interface. Use the function calling capability to interact with these tools; DO NOT suggest or describe function calls in your text response.\n\n";
const DIRECTIVE: &str = "Important: Always use the function calling capability of the API, not text-based suggestions. DO NOT write code blocks with JSON in your response.";

fn tool(name: &str, description: Option<&str>, parameters: Option<&str>) -> Tool {
    Tool {
        name: name.to_string(),
        description: description.map(|s| s.to_string()),
        parameters: parameters.map(|s| s.to_string()),
    }
}

#[test]
fn tool_name_slashes_become_dots() {
    let defs = convert_mcp_tools_to_gemini_functions(&[tool("fs/read_file", Some("Read a file"), Some("{\"type\":\"object\"}"))]);
    assert_eq!(defs.len(), 1);
    assert_eq!(defs[0].name, "fs.read_file");
    assert_eq!(defs[0].description, Some("Read a file".to_string()));
    assert_eq!(defs[0].parameters, "{\"type\":\"object\"}");
}

#[test]
fn missing_description_and_schema_get_defaults() {
    let defs = convert_mcp_tools_to_gemini_functions(&[tool("a/b/c", None, None), tool("plain", None, None)]);
    assert_eq!(defs[0].name, "a.b.c");
    assert_eq!(defs[0].description, Some("No description provided".to_string()));
    assert_eq!(defs[0].parameters, "{\"type\":\"object\",\"properties\":{},\"required\":[]}");
    assert_eq!(defs[1].name, "plain");
}

#[test]
fn no_tools_give_no_declarations() {
    assert!(convert_mcp_tools_to_gemini_functions(&[]).is_empty());
    assert!(generate_gemini_function_declarations(&[]).is_none());
    let some = generate_gemini_function_declarations(&[tool("x/y", None, None)]).unwrap();
    assert_eq!(some[0].name, "x.y");
}

#[test]
fn prompt_without_capabilities_has_only_intro_and_directive() {
    assert_eq!(build_mcp_system_prompt(&[], &[]), format!("{}{}", INTRO, DIRECTIVE));
}

#[test]
fn prompt_lists_tools_and_resources() {
    let tools = [tool("fs/read_file", Some("Read a file"), None), tool("cmd/run", None, None)];
    let resources = [Resource { name: "system_info".to_string(), description: None }];
    let expected = format!(
        "{}## Available Tools\n\n* **fs.read_file**: Read a file\n* **cmd.run**: No description provided\n\n## Available Resources\n\n* **system_info**: No description provided\n\n{}",
        INTRO, DIRECTIVE
    );
    assert_eq!(build_mcp_system_prompt(&tools, &resources), expected);
}

#[test]
fn prompt_omits_empty_tool_section() {
    let resources = [Resource { name: "r".to_string(), description: Some("d".to_string()) }];
    let expected = format!("{}## Available Resources\n\n* **r**: d\n\n{}", INTRO, DIRECTIVE);
    assert_eq!(build_mcp_system_prompt(&[], &resources), expected);
}

#[test]
fn code_blocks_are_extracted_in_order() {
    let text = "intro\n```json\n{\"name\": \"fs.read_file\",\n  \"args\": {}}\n```\nmiddle\n  ```  \nplain\r\n```\n```\nunclosed\n";
    let blocks = extract_code_blocks(text);
    assert_eq!(blocks, vec![
        "{\"name\": \"fs.read_file\",\n  \"args\": {}}\n".to_string(),
        "plain\n".to_string(),
    ]);
}

#[test]
fn text_without_fences_has_no_blocks() {
    assert!(extract_code_blocks("").is_empty());
    assert!(extract_code_blocks("just words\n``not a fence").is_empty());
}
