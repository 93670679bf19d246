//! The MCP servers of a session, and the file that hands them to the agent's process.

use vstd::prelude::*;

use crate::error::SessionError;
use crate::ident;
use crate::json;
use crate::json::Json;
use crate::os_text;
use crate::os_text::OsText;
use crate::text;

verus! {

/// A name with its value: an environment variable, or a header.
#[derive(Clone, Debug, PartialEq, Eq)]
pub struct NamedValue {
    pub name: String,
    pub value: String,
}

impl View for NamedValue {
    type V = (Seq<char>, Seq<char>);

    open spec fn view(&self) -> (Seq<char>, Seq<char>) {
        (self.name@, self.value@)
    }
}

/// The views of the pairs in `v`.
pub open spec fn pair_views(v: Seq<NamedValue>) -> Seq<(Seq<char>, Seq<char>)> {
    v.map_values(|p: NamedValue| p@)
}

/// An MCP server, by how it is reached.
#[derive(Clone, Debug, PartialEq, Eq)]
pub enum McpServer {
    /// A process that talks over its standard input and output.
    Stdio { name: String, command: OsText, args: Vec<String>, env: Vec<NamedValue> },
    /// A server over HTTP.
    Http { name: String, url: String, headers: Vec<NamedValue> },
    /// A server over server-sent events.
    Sse { name: String, url: String, headers: Vec<NamedValue> },
    /// A server reached in a way that the agent is not told of.
    Other,
}

/// An MCP server in contracts.
pub enum ServerModel {
    Stdio {
        name: Seq<char>,
        command: Seq<u8>,
        args: Seq<Seq<char>>,
        env: Seq<(Seq<char>, Seq<char>)>,
    },
    Http { name: Seq<char>, url: Seq<char>, headers: Seq<(Seq<char>, Seq<char>)> },
    Sse { name: Seq<char>, url: Seq<char>, headers: Seq<(Seq<char>, Seq<char>)> },
    Other,
}

impl View for McpServer {
    type V = ServerModel;

    open spec fn view(&self) -> ServerModel {
        match *self {
            McpServer::Stdio { name, command, args, env } => ServerModel::Stdio {
                name: name@,
                command: command@,
                args: text::string_views(args@),
                env: pair_views(env@),
            },
            McpServer::Http { name, url, headers } => ServerModel::Http {
                name: name@,
                url: url@,
                headers: pair_views(headers@),
            },
            McpServer::Sse { name, url, headers } => ServerModel::Sse {
                name: name@,
                url: url@,
                headers: pair_views(headers@),
            },
            McpServer::Other => ServerModel::Other,
        }
    }
}

/// The views of the servers in `v`.
pub open spec fn server_views(v: Seq<McpServer>) -> Seq<ServerModel> {
    v.map_values(|s: McpServer| s@)
}

/// The command of the server, if it has one, is UTF-8.
pub open spec fn command_is_text(s: ServerModel) -> bool {
    s matches ServerModel::Stdio { command, .. } ==> vstd::utf8::valid_utf8(command)
}

/// The commands of all servers are UTF-8.
pub open spec fn commands_are_text(servers: Seq<ServerModel>) -> bool {
    forall|i: int| 0 <= i < servers.len() ==> command_is_text(#[trigger] servers[i])
}

/// The entries of an object with the given texts by name. The last of several pairs
/// with one name counts.
pub open spec fn text_entries(pairs: Seq<(Seq<char>, Seq<char>)>) -> Map<Seq<char>, Json>
    decreases pairs.len(),
{
    if pairs.len() == 0 {
        Map::empty()
    } else {
        text_entries(pairs.drop_last()).insert(pairs.last().0, Json::Text(pairs.last().1))
    }
}

/// The array of these texts.
pub open spec fn text_array(texts: Seq<Seq<char>>) -> Json {
    Json::Array(texts.map_values(|t: Seq<char>| Json::Text(t)))
}

/// What the agent is told of a server that is reached over the network.
pub open spec fn remote_json(
    kind: Seq<char>,
    url: Seq<char>,
    headers: Seq<(Seq<char>, Seq<char>)>,
) -> Json {
    Json::Object(
        map![
            "type"@ => Json::Text(kind),
            "url"@ => Json::Text(url),
            "headers"@ => Json::Object(text_entries(headers)),
        ],
    )
}

/// What the agent is told of a server that is a process.
pub open spec fn stdio_json(
    command: Seq<char>,
    args: Seq<Seq<char>>,
    env: Seq<(Seq<char>, Seq<char>)>,
) -> Json {
    Json::Object(
        map![
            "type"@ => Json::Text("stdio"@),
            "command"@ => Json::Text(command),
            "args"@ => text_array(args),
            "env"@ => Json::Object(text_entries(env)),
        ],
    )
}

/// What the agent is told of a server, under which name.
pub open spec fn server_json(s: ServerModel) -> Option<(Seq<char>, Json)> {
    match s {
        ServerModel::Stdio { name, command, args, env } => Some(
            (name, stdio_json(vstd::utf8::decode_utf8(command), args, env)),
        ),
        ServerModel::Http { name, url, headers } => Some((name, remote_json("http"@, url, headers))),
        ServerModel::Sse { name, url, headers } => Some((name, remote_json("sse"@, url, headers))),
        ServerModel::Other => None,
    }
}

/// What the agent is told of the servers, by name. The last of several servers with one
/// name counts.
pub open spec fn server_entries(servers: Seq<ServerModel>) -> Map<Seq<char>, Json>
    decreases servers.len(),
{
    if servers.len() == 0 {
        Map::empty()
    } else {
        match server_json(servers.last()) {
            Some((name, told)) => server_entries(servers.drop_last()).insert(name, told),
            None => server_entries(servers.drop_last()),
        }
    }
}

/// The MCP configuration for the servers.
pub open spec fn config_json(servers: Seq<ServerModel>) -> Json {
    Json::Object(map!["mcpServers"@ => Json::Object(server_entries(servers))])
}

/// The object with the given texts by name.
pub fn headers_json(headers: &Vec<NamedValue>) -> (res: serde_json::Map<String, serde_json::Value>)
    ensures
        json::entries_of(res) == text_entries(pair_views(headers@)),
{
    let mut map = json::new_object();
    let ghost views = pair_views(headers@);
    let mut i: usize = 0;
    while i < headers.len()
        invariant
            views == pair_views(headers@),
            i <= headers.len(),
            json::entries_of(map) == text_entries(views.take(i as int)),
        decreases headers.len() - i,
    {
        proof {
            assert(views.take(i + 1).drop_last() == views.take(i as int));
            assert(views.take(i + 1).last() == headers@[i as int]@);
        }
        json::insert(
            &mut map,
            headers[i].name.clone(),
            json::text_value(headers[i].value.clone()),
        );
        i = i + 1;
    }
    assert(views.take(i as int) == views);
    map
}

/// The array of these texts.
fn texts_json(texts: &Vec<String>) -> (res: serde_json::Value)
    ensures
        json::value_of(res) == text_array(text::string_views(texts@)),
{
    let mut items: Vec<serde_json::Value> = Vec::new();
    let ghost wanted = text::string_views(texts@).map_values(|t: Seq<char>| Json::Text(t));
    let mut i: usize = 0;
    while i < texts.len()
        invariant
            wanted == text::string_views(texts@).map_values(|t: Seq<char>| Json::Text(t)),
            i <= texts.len(),
            items.len() == i,
            forall|j: int| 0 <= j < i ==> json::value_of(#[trigger] items@[j]) == wanted[j],
        decreases texts.len() - i,
    {
        items.push(json::text_value(texts[i].clone()));
        i = i + 1;
    }
    assert(json::values_of(items@) == wanted);
    json::array_value(items)
}

/// What the agent is told of a server that is reached over the network.
fn remote_value(kind: &str, url: &String, headers: &Vec<NamedValue>) -> (res: serde_json::Value)
    ensures
        json::value_of(res) == remote_json(kind@, url@, pair_views(headers@)),
{
    let mut map = json::new_object();
    json::insert(&mut map, "type".to_owned(), json::text_value(kind.to_owned()));
    json::insert(&mut map, "url".to_owned(), json::text_value(url.clone()));
    json::insert(&mut map, "headers".to_owned(), json::object_value(headers_json(headers)));
    json::object_value(map)
}

/// What the agent is told of a server that is a process.
fn stdio_value(command: String, args: &Vec<String>, env: &Vec<NamedValue>) -> (res:
    serde_json::Value)
    ensures
        json::value_of(res) == stdio_json(command@, text::string_views(args@), pair_views(env@)),
{
    let mut map = json::new_object();
    json::insert(&mut map, "type".to_owned(), json::text_value("stdio".to_owned()));
    json::insert(&mut map, "command".to_owned(), json::text_value(command));
    json::insert(&mut map, "args".to_owned(), texts_json(args));
    json::insert(&mut map, "env".to_owned(), json::object_value(headers_json(env)));
    json::object_value(map)
}

/// The MCP configuration for the servers.
pub fn mcp_config_json(servers: &[McpServer]) -> (res: serde_json::Value)
    requires
        commands_are_text(server_views(servers@)),
    ensures
        json::value_of(res) == config_json(server_views(servers@)),
{
    let mut mcp_servers = json::new_object();
    let ghost views = server_views(servers@);
    let mut i: usize = 0;
    while i < servers.len()
        invariant
            views == server_views(servers@),
            commands_are_text(views),
            i <= servers.len(),
            json::entries_of(mcp_servers) == server_entries(views.take(i as int)),
        decreases servers.len() - i,
    {
        proof {
            assert(views.take(i + 1).drop_last() == views.take(i as int));
            assert(views.take(i + 1).last() == views[i as int]);
            assert(views[i as int] == servers@[i as int]@);
            assert(command_is_text(views[i as int]));
        }
        match &servers[i] {
            McpServer::Stdio { name, command, args, env } => {
                match command.to_text() {
                    Some(command_text) => {
                        json::insert(
                            &mut mcp_servers,
                            name.clone(),
                            stdio_value(command_text, args, env),
                        );
                    },
                    None => {
                        assert(false);
                    },
                }
            },
            McpServer::Http { name, url, headers } => {
                json::insert(&mut mcp_servers, name.clone(), remote_value("http", url, headers));
            },
            McpServer::Sse { name, url, headers } => {
                json::insert(&mut mcp_servers, name.clone(), remote_value("sse", url, headers));
            },
            McpServer::Other => {},
        }
        i = i + 1;
    }
    assert(views.take(i as int) == views);
    let mut config = json::new_object();
    json::insert(&mut config, "mcpServers".to_owned(), json::object_value(mcp_servers));
    json::object_value(config)
}

/// Whether the commands of all servers are UTF-8.
pub fn commands_are_utf8(servers: &[McpServer]) -> (res: bool)
    ensures
        res == commands_are_text(server_views(servers@)),
{
    let ghost views = server_views(servers@);
    let mut i: usize = 0;
    while i < servers.len()
        invariant
            views == server_views(servers@),
            i <= servers.len(),
            forall|j: int| 0 <= j < i ==> command_is_text(#[trigger] views[j]),
        decreases servers.len() - i,
    {
        assert(views[i as int] == servers@[i as int]@);
        match &servers[i] {
            McpServer::Stdio { command, .. } => {
                if command.to_text().is_none() {
                    assert(!command_is_text(views[i as int]));
                    return false;
                }
            },
            _ => {},
        }
        i = i + 1;
    }
    true
}

/// The file that hands the MCP servers of a session to the agent's process.
#[derive(Clone, Debug, PartialEq, Eq)]
pub struct McpConfigFile {
    /// The name of the file, in the directory for temporary files.
    pub name: String,
    /// What it holds.
    pub body: Vec<u8>,
}

/// The name of the file that the program `owner` writes for a session, told from others
/// by `nonce`.
pub open spec fn config_file_name(
    owner: Seq<char>,
    session_id: Seq<char>,
    nonce: Seq<char>,
) -> Seq<char> {
    owner + "-mcp-"@ + session_id + "-"@ + nonce + ".json"@
}

/// The name of the file that the program `owner` writes for a session, told from others
/// by `nonce`.
pub fn mcp_config_file_name(owner: &str, session_id: &str, nonce: &str) -> (res: String)
    ensures
        res@ == config_file_name(owner@, session_id@, nonce@),
{
    let mut name = owner.to_owned();
    name.append("-mcp-");
    name.append(session_id);
    name.append("-");
    name.append(nonce);
    name.append(".json");
    name
}

/// What the file for the servers holds.
pub fn mcp_config_body(servers: &[McpServer]) -> (res: Result<Vec<u8>, SessionError>)
    requires
        commands_are_text(server_views(servers@)),
    ensures
        res is Ok,
        res->Ok_0@ == json::encoded(config_json(server_views(servers@))),
{
    match json::encode(&mcp_config_json(servers)) {
        Ok(body) => Ok(body),
        Err(_) => Err(SessionError::McpEncoding),
    }
}

/// The file is the one that a session with these servers needs from the program `owner`:
/// none without servers, and else one that holds them, under a name of its own.
pub open spec fn file_for(
    file: Option<McpConfigFile>,
    owner: Seq<char>,
    session_id: Seq<char>,
    servers: Seq<ServerModel>,
) -> bool {
    match file {
        None => servers.len() == 0,
        Some(file) => {
            &&& servers.len() > 0
            &&& file.body@ == json::encoded(config_json(servers))
            &&& exists|nonce: Seq<char>|
                #[trigger] ident::uuid_text(nonce) && file.name@ == config_file_name(
                    owner,
                    session_id,
                    nonce,
                )
        },
    }
}

/// The file that a session with these servers needs from the program `owner`, under a
/// fresh name. A session without servers needs none.
pub fn mcp_config_file(owner: &str, session_id: &str, servers: &[McpServer]) -> (res: Result<
    Option<McpConfigFile>,
    SessionError,
>)
    requires
        commands_are_text(server_views(servers@)),
    ensures
        res is Ok,
        file_for(res->Ok_0, owner@, session_id@, server_views(servers@)),
{
    if servers.len() == 0 {
        return Ok(None);
    }
    let nonce = ident::fresh_uuid();
    let name = mcp_config_file_name(owner, session_id, nonce.as_str());
    match mcp_config_body(servers) {
        Ok(body) => Ok(Some(McpConfigFile { name, body })),
        Err(e) => Err(e),
    }
}

/// A copy of `v`.
fn copy_pairs(v: &Vec<NamedValue>) -> (res: Vec<NamedValue>)
    ensures
        pair_views(res@) == pair_views(v@),
{
    let mut res: Vec<NamedValue> = Vec::new();
    let mut i: usize = 0;
    while i < v.len()
        invariant
            i <= v.len(),
            res.len() == i,
            forall|j: int| 0 <= j < i ==> (#[trigger] res@[j])@ == v@[j]@,
        decreases v.len() - i,
    {
        res.push(NamedValue { name: v[i].name.clone(), value: v[i].value.clone() });
        i = i + 1;
    }
    assert(pair_views(res@) == pair_views(v@));
    res
}

/// A copy of `v`.
fn copy_texts(v: &Vec<String>) -> (res: Vec<String>)
    ensures
        text::string_views(res@) == text::string_views(v@),
{
    let mut res: Vec<String> = Vec::new();
    let mut i: usize = 0;
    while i < v.len()
        invariant
            i <= v.len(),
            res.len() == i,
            forall|j: int| 0 <= j < i ==> (#[trigger] res@[j])@ == v@[j]@,
        decreases v.len() - i,
    {
        res.push(v[i].clone());
        i = i + 1;
    }
    assert(text::string_views(res@) == text::string_views(v@));
    res
}

impl McpServer {
    /// A copy of this server.
    pub fn copy(&self) -> (res: McpServer)
        ensures
            res@ == self@,
    {
        match self {
            McpServer::Stdio { name, command, args, env } => McpServer::Stdio {
                name: name.clone(),
                command: command.copy(),
                args: copy_texts(args),
                env: copy_pairs(env),
            },
            McpServer::Http { name, url, headers } => McpServer::Http {
                name: name.clone(),
                url: url.clone(),
                headers: copy_pairs(headers),
            },
            McpServer::Sse { name, url, headers } => McpServer::Sse {
                name: name.clone(),
                url: url.clone(),
                headers: copy_pairs(headers),
            },
            McpServer::Other => McpServer::Other,
        }
    }
}

/// A copy of `v`.
pub fn copy_servers(v: &Vec<McpServer>) -> (res: Vec<McpServer>)
    ensures
        server_views(res@) == server_views(v@),
{
    let mut res: Vec<McpServer> = Vec::new();
    let mut i: usize = 0;
    while i < v.len()
        invariant
            i <= v.len(),
            res.len() == i,
            forall|j: int| 0 <= j < i ==> (#[trigger] res@[j])@ == v@[j]@,
        decreases v.len() - i,
    {
        res.push(v[i].copy());
        i = i + 1;
    }
    assert(server_views(res@) == server_views(v@));
    res
}

/// The value of the last pair with this name.
pub open spec fn last_value(pairs: Seq<(Seq<char>, Seq<char>)>, name: Seq<char>) -> Option<
    Seq<char>,
>
    decreases pairs.len(),
{
    if pairs.len() == 0 {
        None
    } else if pairs.last().0 == name {
        Some(pairs.last().1)
    } else {
        last_value(pairs.drop_last(), name)
    }
}

/// What the agent is told of the last server with this name.
pub open spec fn last_told(servers: Seq<ServerModel>, name: Seq<char>) -> Option<Json>
    decreases servers.len(),
{
    if servers.len() == 0 {
        None
    } else {
        match server_json(servers.last()) {
            Some((n, told)) => if n == name {
                Some(told)
            } else {
                last_told(servers.drop_last(), name)
            },
            None => last_told(servers.drop_last(), name),
        }
    }
}

/// The object of the named values has the names of the pairs and no others, each with the
/// last value for it.
pub proof fn theorem_text_entries(pairs: Seq<(Seq<char>, Seq<char>)>, name: Seq<char>)
    ensures
        text_entries(pairs).dom().contains(name) <==> last_value(pairs, name) is Some,
        last_value(pairs, name) matches Some(value) ==> text_entries(pairs)[name] == Json::Text(
            value,
        ),
    decreases pairs.len(),
{
    if pairs.len() > 0 {
        theorem_text_entries(pairs.drop_last(), name);
    }
}

/// The agent is told of the names of the servers and of no others, and under each of the
/// last server with it.
pub proof fn theorem_server_entries(servers: Seq<ServerModel>, name: Seq<char>)
    ensures
        server_entries(servers).dom().contains(name) <==> last_told(servers, name) is Some,
        last_told(servers, name) matches Some(told) ==> server_entries(servers)[name] == told,
    decreases servers.len(),
{
    if servers.len() > 0 {
        theorem_server_entries(servers.drop_last(), name);
    }
}

/// The agent is told of two different servers under different names.
pub open spec fn told_apart(servers: Seq<ServerModel>) -> bool {
    forall|i: int, j: int|
        0 <= i < j < servers.len() && server_json(#[trigger] servers[i]) is Some && server_json(
            #[trigger] servers[j],
        ) is Some ==> server_json(servers[i])->Some_0.0 != server_json(servers[j])->Some_0.0
}

/// Where the names differ, each server is the last one with its name.
proof fn lemma_told_apart(servers: Seq<ServerModel>, name: Seq<char>, told: Json)
    requires
        told_apart(servers),
    ensures
        last_told(servers, name) == Some(told) <==> exists|i: int|
            0 <= i < servers.len() && server_json(#[trigger] servers[i]) == Some((name, told)),
    decreases servers.len(),
{
    if servers.len() > 0 {
        let before = servers.drop_last();
        let n = servers.len() - 1;
        assert(forall|i: int| 0 <= i < before.len() ==> before[i] == servers[i]);
        lemma_told_apart(before, name, told);
        assert(servers.last() == servers[n]);
        if last_told(servers, name) == Some(told) {
            if server_json(servers[n]) != Some((name, told)) {
                let i = choose|i: int|
                    0 <= i < before.len() && server_json(#[trigger] before[i]) == Some(
                        (name, told),
                    );
                assert(server_json(servers[i]) == Some((name, told)));
            }
        }
        if exists|i: int|
            0 <= i < servers.len() && server_json(#[trigger] servers[i]) == Some((name, told)) {
            let i = choose|i: int|
                0 <= i < servers.len() && server_json(#[trigger] servers[i]) == Some((name, told));
            if i < n {
                assert(before[i] == servers[i]);
            }
        }
    }
}

/// The order of servers with different names has no say in what the agent is told.
pub proof fn theorem_server_order(a: Seq<ServerModel>, b: Seq<ServerModel>)
    requires
        told_apart(a),
        told_apart(b),
        forall|s: ServerModel| a.contains(s) <==> b.contains(s),
    ensures
        config_json(a) == config_json(b),
{
    assert forall|name: Seq<char>| last_told(a, name) == last_told(b, name) by {
        if last_told(a, name) is Some {
            lemma_told_moves(a, b, name);
        }
        if last_told(b, name) is Some {
            lemma_told_moves(b, a, name);
        }
    }
    assert(server_entries(a) =~= server_entries(b)) by {
        assert forall|name: Seq<char>|
            server_entries(a).dom().contains(name) == #[trigger] server_entries(b).dom().contains(
                name,
            ) && (server_entries(a).dom().contains(name) ==> server_entries(a)[name]
                == server_entries(b)[name]) by {
            theorem_server_entries(a, name);
            theorem_server_entries(b, name);
        }
    }
}

/// What is told of a server in one list is told of it in another that holds it.
proof fn lemma_told_moves(a: Seq<ServerModel>, b: Seq<ServerModel>, name: Seq<char>)
    requires
        told_apart(a),
        told_apart(b),
        forall|s: ServerModel| a.contains(s) ==> b.contains(s),
        last_told(a, name) is Some,
    ensures
        last_told(b, name) == last_told(a, name),
{
    let told = last_told(a, name)->Some_0;
    lemma_told_apart(a, name, told);
    lemma_told_apart(b, name, told);
    let i = choose|i: int|
        0 <= i < a.len() && server_json(#[trigger] a[i]) == Some((name, told));
    assert(a.contains(a[i]));
    let j = choose|j: int| 0 <= j < b.len() && b[j] == a[i];
    assert(server_json(b[j]) == Some((name, told)));
}

/// Files with different nonces of the same session have different names.
pub proof fn theorem_file_names_differ(
    owner: Seq<char>,
    session_id: Seq<char>,
    a: Seq<char>,
    b: Seq<char>,
)
    requires
        ident::uuid_text(a),
        ident::uuid_text(b),
        a != b,
    ensures
        config_file_name(owner, session_id, a) != config_file_name(owner, session_id, b),
{
    let head = owner + "-mcp-"@ + session_id + "-"@;
    let x = config_file_name(owner, session_id, a);
    let y = config_file_name(owner, session_id, b);
    let n = head.len() as int;
    assert(x.subrange(n, n + 36) == a);
    assert(y.subrange(n, n + 36) == b);
}

/// The object of the named values has at each name the value of the last pair with it, and
/// has no name that no pair has.
pub proof fn theorem_last_pair_counts(pairs: Seq<(Seq<char>, Seq<char>)>, name: Seq<char>, i: int)
    ensures
        text_entries(pairs).dom().contains(name) <==> exists|j: int|
            0 <= j < pairs.len() && (#[trigger] pairs[j]).0 == name,
        0 <= i < pairs.len() && pairs[i].0 == name && (forall|j: int|
            i < j < pairs.len() ==> (#[trigger] pairs[j]).0 != name) ==> text_entries(pairs)[name]
            == Json::Text(pairs[i].1),
    decreases pairs.len(),
{
    if pairs.len() > 0 {
        let before = pairs.drop_last();
        let n = pairs.len() - 1;
        assert(forall|j: int| 0 <= j < before.len() ==> before[j] == pairs[j]);
        theorem_last_pair_counts(before, name, i);
        assert(pairs.last() == pairs[n]);
        if exists|j: int| 0 <= j < before.len() && (#[trigger] before[j]).0 == name {
            let j = choose|j: int| 0 <= j < before.len() && (#[trigger] before[j]).0 == name;
            assert(pairs[j].0 == name);
        }
        if exists|j: int| 0 <= j < pairs.len() && (#[trigger] pairs[j]).0 == name {
            let j = choose|j: int| 0 <= j < pairs.len() && (#[trigger] pairs[j]).0 == name;
            if j < n {
                assert(before[j].0 == name);
            }
        }
        if 0 <= i < n && pairs[i].0 == name && (forall|j: int|
            i < j < pairs.len() ==> (#[trigger] pairs[j]).0 != name) {
            assert(pairs[n].0 != name);
            assert(before[i].0 == name);
        }
    }
}

/// The name under which the agent is told of a server.
pub open spec fn server_name(s: ServerModel) -> Option<Seq<char>> {
    match s {
        ServerModel::Stdio { name, .. } => Some(name),
        ServerModel::Http { name, .. } => Some(name),
        ServerModel::Sse { name, .. } => Some(name),
        ServerModel::Other => None,
    }
}

/// The agent is told under each name of the last server that has it, and of no name that no
/// server has.
pub proof fn theorem_last_server_counts(servers: Seq<ServerModel>, name: Seq<char>, i: int)
    ensures
        server_entries(servers).dom().contains(name) <==> exists|j: int|
            0 <= j < servers.len() && server_name(#[trigger] servers[j]) == Some(name),
        0 <= i < servers.len() && server_name(servers[i]) == Some(name) && (forall|j: int|
            i < j < servers.len() ==> server_name(#[trigger] servers[j]) != Some(name)) ==> Some(
            (name, server_entries(servers)[name]),
        ) == server_json(servers[i]),
    decreases servers.len(),
{
    if servers.len() > 0 {
        let before = servers.drop_last();
        let n = servers.len() - 1;
        assert(forall|j: int| 0 <= j < before.len() ==> before[j] == servers[j]);
        theorem_last_server_counts(before, name, i);
        assert(servers.last() == servers[n]);
        if exists|j: int| 0 <= j < before.len() && server_name(#[trigger] before[j]) == Some(name) {
            let j = choose|j: int|
                0 <= j < before.len() && server_name(#[trigger] before[j]) == Some(name);
            assert(server_name(servers[j]) == Some(name));
        }
        if exists|j: int|
            0 <= j < servers.len() && server_name(#[trigger] servers[j]) == Some(name) {
            let j = choose|j: int|
                0 <= j < servers.len() && server_name(#[trigger] servers[j]) == Some(name);
            if j < n {
                assert(server_name(before[j]) == Some(name));
            }
        }
        if 0 <= i < n && server_name(servers[i]) == Some(name) && (forall|j: int|
            i < j < servers.len() ==> server_name(#[trigger] servers[j]) != Some(name)) {
            assert(server_name(servers[n]) != Some(name));
            assert(server_name(before[i]) == Some(name));
        }
    }
}

/// What the agent is told of a server that is a process: how it is reached, its command, its
/// arguments in order, and its environment.
pub proof fn theorem_process_told(
    name: Seq<char>,
    command: Seq<u8>,
    args: Seq<Seq<char>>,
    env: Seq<(Seq<char>, Seq<char>)>,
)
    ensures
        server_json(ServerModel::Stdio { name, command, args, env }) matches Some((n, told))
            && told matches Json::Object(m) && {
            &&& n == name
            &&& m.dom() == set!["type"@, "command"@, "args"@, "env"@]
            &&& m["type"@] == Json::Text("stdio"@)
            &&& m["command"@] == Json::Text(vstd::utf8::decode_utf8(command))
            &&& m["env"@] == Json::Object(text_entries(env))
            &&& m["args"@] matches Json::Array(items) && items.len() == args.len() && forall|i: int|
                0 <= i < args.len() ==> #[trigger] items[i] == Json::Text(args[i])
        },
{
    reveal_strlit("type");
    reveal_strlit("command");
    reveal_strlit("args");
    reveal_strlit("env");
    assert("type"@.len() == 4 && "command"@.len() == 7 && "args"@.len() == 4 && "env"@.len() == 3);
    assert("type"@[0] != "args"@[0]);
    let m = stdio_json(vstd::utf8::decode_utf8(command), args, env)->Object_0;
    assert(m.dom() == set!["type"@, "command"@, "args"@, "env"@]);
}

/// What the agent is told of a server that is reached over the network: how, where, and with
/// which headers.
pub proof fn theorem_remote_told(
    name: Seq<char>,
    url: Seq<char>,
    headers: Seq<(Seq<char>, Seq<char>)>,
)
    ensures
        server_json(ServerModel::Http { name, url, headers }) matches Some((n, told))
            && told matches Json::Object(m) && {
            &&& n == name
            &&& m.dom() == set!["type"@, "url"@, "headers"@]
            &&& m["type"@] == Json::Text("http"@)
            &&& m["url"@] == Json::Text(url)
            &&& m["headers"@] == Json::Object(text_entries(headers))
        },
        server_json(ServerModel::Sse { name, url, headers }) matches Some((n, told))
            && told matches Json::Object(m) && {
            &&& n == name
            &&& m.dom() == set!["type"@, "url"@, "headers"@]
            &&& m["type"@] == Json::Text("sse"@)
            &&& m["url"@] == Json::Text(url)
            &&& m["headers"@] == Json::Object(text_entries(headers))
        },
        server_json(ServerModel::Other) is None,
{
    reveal_strlit("type");
    reveal_strlit("url");
    reveal_strlit("headers");
    assert("type"@.len() == 4 && "url"@.len() == 3 && "headers"@.len() == 7);
    let m = remote_json("http"@, url, headers)->Object_0;
    assert(m.dom() == set!["type"@, "url"@, "headers"@]);
    let k = remote_json("sse"@, url, headers)->Object_0;
    assert(k.dom() == set!["type"@, "url"@, "headers"@]);
}

/// The configuration holds the servers under `mcpServers`, and nothing else.
pub proof fn theorem_config_json(servers: Seq<ServerModel>)
    ensures
        config_json(servers) matches Json::Object(m) && {
            &&& m.dom() == set!["mcpServers"@]
            &&& m["mcpServers"@] == Json::Object(server_entries(servers))
        },
{
    let m = config_json(servers)->Object_0;
    assert(m.dom() == set!["mcpServers"@]);
}

/// The name of a file begins with its owner, and names the session and then the nonce.
pub proof fn theorem_file_name(owner: Seq<char>, session_id: Seq<char>, nonce: Seq<char>)
    ensures
        ({
            let name = config_file_name(owner, session_id, nonce);
            let a = owner.len() as int;
            let b = a + 5 + session_id.len();
            let c = b + 1 + nonce.len();
            &&& name.len() == c + 5
            &&& name.take(a) == owner
            &&& name.subrange(a, a + 5) == "-mcp-"@
            &&& name.subrange(a + 5, b) == session_id
            &&& name[b] == '-'
            &&& name.subrange(b + 1, c) == nonce
            &&& name.skip(c) == ".json"@
        }),
{
    reveal_strlit("-mcp-");
    reveal_strlit("-");
    reveal_strlit(".json");
    let name = config_file_name(owner, session_id, nonce);
    let a = owner.len() as int;
    let b = a + 5 + session_id.len();
    let c = b + 1 + nonce.len();
    assert(name.take(a) == owner);
    assert(name.subrange(a, a + 5) == "-mcp-"@);
    assert(name.subrange(a + 5, b) == session_id);
    assert(name.subrange(b + 1, c) == nonce);
    assert(name.skip(c) == ".json"@);
}

/// A session needs a file if and only if it has servers, even ones that the agent is not told
/// of; and the file holds their configuration.
pub proof fn theorem_file_for(
    file: Option<McpConfigFile>,
    owner: Seq<char>,
    session_id: Seq<char>,
    servers: Seq<ServerModel>,
)
    requires
        file_for(file, owner, session_id, servers),
    ensures
        file is Some <==> servers.len() > 0,
        file matches Some(f) ==> {
            &&& f.body@ == json::encoded(config_json(servers))
            &&& exists|nonce: Seq<char>| #[trigger]
                ident::uuid_text(nonce) && f.name@ == owner + "-mcp-"@ + session_id + "-"@ + nonce
                    + ".json"@
        },
{
}

/// A server is seen as it is: how it is reached, its name, and all that goes with it.
pub proof fn theorem_server_view(s: McpServer)
    ensures
        s matches McpServer::Stdio { name, command, args, env } ==> (s@ matches ServerModel::Stdio {
            name: n,
            command: c,
            args: a,
            env: v,
        } && {
            &&& n == name@ && c == command.bytes@
            &&& a.len() == args@.len() && v.len() == env@.len()
            &&& forall|i: int| 0 <= i < args@.len() ==> #[trigger] a[i] == args@[i]@
            &&& forall|i: int|
                0 <= i < env@.len() ==> #[trigger] v[i] == (env@[i].name@, env@[i].value@)
        }),
        s matches McpServer::Http { name, url, headers } ==> (s@ matches ServerModel::Http {
            name: n,
            url: u,
            headers: h,
        } && {
            &&& n == name@ && u == url@ && h.len() == headers@.len()
            &&& forall|i: int|
                0 <= i < headers@.len() ==> #[trigger] h[i] == (headers@[i].name@, headers@[i].value@)
        }),
        s matches McpServer::Sse { name, url, headers } ==> (s@ matches ServerModel::Sse {
            name: n,
            url: u,
            headers: h,
        } && {
            &&& n == name@ && u == url@ && h.len() == headers@.len()
            &&& forall|i: int|
                0 <= i < headers@.len() ==> #[trigger] h[i] == (headers@[i].name@, headers@[i].value@)
        }),
        s is Other ==> s@ is Other,
{
}

/// Only the command of a process has to be UTF-8, and each of them.
pub proof fn theorem_commands(servers: Seq<ServerModel>)
    ensures
        commands_are_text(servers) <==> forall|i: int|
            0 <= i < servers.len() && #[trigger] servers[i] is Stdio ==> vstd::utf8::valid_utf8(
                servers[i]->command,
            ),
{
    if forall|i: int|
        0 <= i < servers.len() && #[trigger] servers[i] is Stdio ==> vstd::utf8::valid_utf8(
            servers[i]->command,
        ) {
        assert forall|i: int| 0 <= i < servers.len() implies command_is_text(
            #[trigger] servers[i],
        ) by {}
    }
    if commands_are_text(servers) {
        assert forall|i: int|
            0 <= i < servers.len() && #[trigger] servers[i] is Stdio implies vstd::utf8::valid_utf8(
            servers[i]->command,
        ) by {
            assert(command_is_text(servers[i]));
        }
    }
}

} // verus!
