use drbot::mcp::{
    dispatch, respond, stdio_step, CurrentTimeTool, DynamicResource, EchoTool, FileResource, FnTool, LineKind,
    McpMethod, RequestId, Resource, ResourceRegistry, StdioAction, TextResource, Tool, ToolContent, ToolRegistry,
    MCP_VERSION,
};

#[test]
fn test_mcp_version() {
    assert!(!MCP_VERSION.is_empty());
}

#[test]
fn test_text_resource() {
    let resource = TextResource::new("test://hello", "Hello", "Hello, World!");
    assert_eq!(resource.uri(), "test://hello");
    assert_eq!(resource.name(), "Hello");

    let content = resource.read().unwrap();
    assert_eq!(content.text, Some("Hello, World!".to_string()));
    assert_eq!(content.mime_type, Some("text/plain".to_string()));
}

#[test]
fn test_resource_registry() {
    let mut registry = ResourceRegistry::new();
    registry.register(TextResource::new("test://a", "Resource A", "Content A"));
    registry.register(TextResource::new("test://b", "Resource B", "Content B"));

    assert!(registry.get("test://a").is_some());
    assert!(registry.get("test://b").is_some());
    assert!(registry.get("test://c").is_none());

    let resources = registry.list();
    assert_eq!(resources.len(), 2);
}

#[test]
fn registry_reads_and_replaces() {
    let mut registry = ResourceRegistry::new();
    registry.register(TextResource::new("test://a", "A", "one").with_description("first"));
    registry.register(TextResource::new("test://a", "A", "two"));
    assert_eq!(registry.list().len(), 1);
    let read = registry.read("test://a").unwrap();
    assert_eq!(read.contents[0].text, Some("two".to_string()));
    assert_eq!(registry.read("test://zzz").unwrap_err(), "Resource not found: test://zzz");
    assert!(registry.contains("test://a"));
}

#[test]
fn dynamic_and_file_resources() {
    let dynamic = DynamicResource::new("dyn://x", "X", || Ok("made".to_string())).with_mime_type("text/x");
    let content = dynamic.read().unwrap();
    assert_eq!(content.text, Some("made".to_string()));
    assert_eq!(content.mime_type, Some("text/x".to_string()));
    let failing = DynamicResource::new("dyn://y", "Y", || Err("nope".to_string()));
    assert_eq!(failing.read().unwrap_err(), "nope");

    let file = FileResource::new("file://n", "N", "/tmp/n.txt").with_mime_type("text/plain");
    assert_eq!(file.path(), "/tmp/n.txt");
    let c = file.content_of("body".to_string());
    assert_eq!(c.uri, "file://n");
    assert_eq!(c.text, Some("body".to_string()));
}

#[test]
fn test_echo_tool() {
    let tool = EchoTool;
    let args = vec![("message".to_string(), serde_json::Value::from("hello"))];

    let result = tool.call(args).unwrap();
    assert!(!result.is_error);
    assert_eq!(result.content.len(), 1);
    assert_eq!(result.content[0], ToolContent::Text { text: "hello".to_string() });
    assert_eq!(tool.call(Vec::new()).unwrap_err(), "Missing message argument");
}

#[test]
fn test_current_time_tool() {
    let tool = CurrentTimeTool;
    let result = tool.call(Vec::new()).unwrap();
    assert!(!result.is_error);
}

#[test]
fn test_tool_registry() {
    let mut registry = ToolRegistry::new();
    registry.register(EchoTool);
    registry.register(CurrentTimeTool);

    assert!(registry.get("echo").is_some());
    assert!(registry.get("current_time").is_some());
    assert!(registry.get("unknown").is_none());

    let tools = registry.list();
    assert_eq!(tools.len(), 2);
    assert_eq!(tools[0].name, "echo");
    assert_eq!(registry.call("unknown", Vec::new()).unwrap_err(), "Tool not found: unknown");
}

#[test]
fn fn_tool_calls_its_function() {
    let tool = FnTool::new("count", None, serde_json::Value::Null, |args: Vec<(String, serde_json::Value)>| {
        Ok(format!("{} args", args.len()))
    });
    let result = tool.call(vec![("a".to_string(), serde_json::Value::Null)]).unwrap();
    assert_eq!(result.content[0], ToolContent::Text { text: "1 args".to_string() });
}

#[test]
fn methods_parse() {
    assert_eq!(McpMethod::parse("tools/call").unwrap(), McpMethod::CallTool);
    assert_eq!(McpMethod::parse("ping").unwrap(), McpMethod::Ping);
    assert_eq!(McpMethod::parse("nope").unwrap_err(), "Unknown method: nope");
}

#[test]
fn test_server_creation() {
    let server = drbot::mcp::McpServer::new("test-server", "1.0.0");
    assert_eq!(server.info.name, "test-server");
}

#[test]
fn stdio_steps_and_framing() {
    assert!(matches!(stdio_step("   ", LineKind::Request), StdioAction::Skip));
    assert!(matches!(stdio_step("{}", LineKind::Request), StdioAction::Answer));
    assert!(matches!(stdio_step("{}", LineKind::Notification), StdioAction::Notify));
    match stdio_step("garbage", LineKind::Invalid) {
        StdioAction::Reject(r) => {
            assert_eq!(r.id, RequestId::Number(0));
            let e = r.error.unwrap();
            assert_eq!(e.code, -32700);
            assert_eq!(e.message, "Failed to parse JSON-RPC message");
        }
        _ => panic!("expected a rejection"),
    }
    assert!(matches!(dispatch("tools/list"), Ok(McpMethod::ListTools)));
    let e = dispatch("nope").unwrap_err();
    assert_eq!(e.code, -32601);
    assert_eq!(e.message, "Unknown method: nope");
    let r = respond(RequestId::Number(7), Ok(serde_json::Value::Null));
    assert_eq!(r.jsonrpc, "2.0");
    assert!(r.error.is_none());
}

#[test]
fn registry_lists_every_definition() {
    let mut registry = ResourceRegistry::new();
    registry.register(TextResource::new("test://a", "Resource A", "Content A"));
    registry.register(TextResource::new("test://b", "Resource B", "Content B").with_description("second"));
    let defs = registry.list();
    assert_eq!(defs.len(), 2);
    assert_eq!(defs[0].uri, "test://a");
    assert_eq!(defs[0].name, "Resource A");
    assert_eq!(defs[0].description, None);
    assert_eq!(defs[0].mime_type, Some("text/plain".to_string()));
    assert_eq!(defs[1].description, Some("second".to_string()));
    assert_eq!(registry.get("test://a").unwrap().name(), "Resource A");
    let file = FileResource::new("file://x", "X", "/tmp/x").with_mime_type("text/markdown");
    assert_eq!(file.name(), "X");
    assert_eq!(file.mime_type(), Some("text/markdown"));
    assert_eq!(file.description(), None);
}

#[test]
fn test_server_builder() {
    let server = drbot::mcp::McpServerBuilder::new("test", "1.0.0").build();
    assert_eq!(server.info.name, "test");
    assert_eq!(server.info.version, "1.0.0");
}
