//! The MCP servers of a session.

use claude_session::os_text::OsText;
use claude_session::pty::mcp::commands_are_utf8;
use claude_session::pty::mcp::copy_servers;
use claude_session::pty::mcp::headers_json;
use claude_session::pty::mcp::mcp_config_body;
use claude_session::pty::mcp::mcp_config_file;
use claude_session::pty::mcp::mcp_config_file_name;
use claude_session::pty::mcp::mcp_config_json;
use claude_session::pty::mcp::McpServer;
use claude_session::pty::mcp::NamedValue;

fn pair(name: &str, value: &str) -> NamedValue {
    NamedValue {
        name: name.to_string(),
        value: value.to_string(),
    }
}

fn stdio(name: &str, command: OsText) -> McpServer {
    McpServer::Stdio {
        name: name.to_string(),
        command,
        args: vec!["-v".to_string(), "a \"b\"".to_string()],
        env: vec![pair("A", "1"), pair("B", "2"), pair("A", "3")],
    }
}

fn http(name: &str) -> McpServer {
    McpServer::Http {
        name: name.to_string(),
        url: "https://example.org".to_string(),
        headers: vec![pair("X-Key", "k")],
    }
}

fn sse(name: &str) -> McpServer {
    McpServer::Sse {
        name: name.to_string(),
        url: "https://example.org/sse".to_string(),
        headers: vec![],
    }
}

fn parsed(text: &str) -> serde_json::Value {
    serde_json::from_str(text).unwrap()
}

#[test]
fn servers_are_told_by_kind() {
    let servers = vec![
        stdio("files", OsText::from_text("/bin/files")),
        http("web"),
        sse("feed"),
        McpServer::Other,
    ];
    assert_eq!(
        mcp_config_json(&servers),
        parsed(
            r#"{"mcpServers": {
                "files": {
                    "type": "stdio",
                    "command": "/bin/files",
                    "args": ["-v", "a \"b\""],
                    "env": {"A": "3", "B": "2"}
                },
                "web": {
                    "type": "http",
                    "url": "https://example.org",
                    "headers": {"X-Key": "k"}
                },
                "feed": {"type": "sse", "url": "https://example.org/sse", "headers": {}}
            }}"#
        )
    );
}

#[test]
fn no_servers_are_told_of() {
    assert_eq!(mcp_config_json(&[]), parsed(r#"{"mcpServers": {}}"#));
    assert_eq!(
        mcp_config_json(&[McpServer::Other]),
        parsed(r#"{"mcpServers": {}}"#)
    );
}

#[test]
fn last_server_with_a_name_counts() {
    let told = mcp_config_json(&[http("one"), sse("two"), sse("one")]);
    assert_eq!(told["mcpServers"]["one"]["type"], "sse");
    assert_eq!(told["mcpServers"].as_object().unwrap().len(), 2);
}

#[test]
fn last_header_with_a_name_counts() {
    let headers = headers_json(&vec![pair("h", "1"), pair("g", "2"), pair("h", "3")]);
    assert_eq!(headers.len(), 2);
    assert_eq!(headers["h"], "3");
    assert_eq!(headers["g"], "2");
}

#[test]
fn body_is_the_encoded_configuration() {
    let body = mcp_config_body(&[sse("feed")]).unwrap();
    assert_eq!(
        String::from_utf8(body).unwrap(),
        r#"{"mcpServers":{"feed":{"headers":{},"type":"sse","url":"https://example.org/sse"}}}"#
    );
}

#[test]
fn commands_must_be_utf8() {
    let odd = stdio("odd", OsText::from_bytes(vec![b'/', 0xff]));
    assert!(!commands_are_utf8(&[http("web"), odd]));
    assert!(commands_are_utf8(&[
        http("web"),
        stdio("files", OsText::from_text("é"))
    ]));
    assert!(commands_are_utf8(&[]));
}

#[test]
fn file_has_a_fresh_name() {
    let servers = [http("web")];
    let a = mcp_config_file("host", "sid", &servers).unwrap().unwrap();
    let b = mcp_config_file("host", "sid", &servers).unwrap().unwrap();
    assert_ne!(a.name, b.name);
    assert_eq!(a.body, b.body);
    assert_eq!(a.body, mcp_config_body(&servers).unwrap());
    let nonce = a
        .name
        .strip_prefix("host-mcp-sid-")
        .and_then(|rest| rest.strip_suffix(".json"))
        .unwrap();
    assert_eq!(nonce.len(), 36);
    assert_eq!(
        uuid::Uuid::parse_str(nonce).unwrap().get_version_num(),
        4
    );
}

#[test]
fn session_without_servers_needs_no_file() {
    assert_eq!(mcp_config_file("host", "sid", &[]), Ok(None));
}

#[test]
fn file_names_are_put_together() {
    assert_eq!(
        mcp_config_file_name("host", "s", "n"),
        "host-mcp-s-n.json"
    );
}

#[test]
fn copies_are_equal() {
    let servers = vec![
        stdio("files", OsText::from_text("/bin/files")),
        http("web"),
        sse("feed"),
        McpServer::Other,
    ];
    assert_eq!(copy_servers(&servers), servers);
}

#[test]
fn order_of_different_servers_does_not_count() {
    let a = stdio("files", OsText::from_text("/bin/files"));
    assert_eq!(
        mcp_config_json(&[a.copy(), http("web"), sse("feed")]),
        mcp_config_json(&[sse("feed"), a, http("web")])
    );
}
